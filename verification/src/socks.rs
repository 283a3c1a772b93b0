//! The client side of a SOCKS5 connection without authentication.

use vstd::prelude::*;
use vstd::utf8::encode_utf8;

verus! {

/// Why a connection through the proxy fails.
#[derive(Debug, Clone, Copy, PartialEq, Eq, Structural)]
pub enum SocksError {
    /// The proxy asks for authentication.
    AuthRefused,
    /// The name of the host has more than 255 bytes.
    HostTooLong,
    /// The proxy does not connect, for the reason with this code.
    Rejected(u8),
    /// The proxy answers with an address of an unknown type.
    UnknownAddressType,
}

/// How far a connection has come: which answer of the proxy is awaited.
#[derive(Debug, Clone, Copy, PartialEq, Eq, Structural)]
pub enum SocksStage {
    /// The choice of the authentication method.
    Method,
    /// The start of the answer to the request.
    Header,
    /// The length of the name in the answer.
    NameLength,
    /// The address and port in the answer, of so many bytes.
    Address(usize),
    /// Nothing more.
    Finished,
}

/// What is to be done next.
#[derive(Debug)]
pub enum SocksAction {
    /// Send these bytes, and read exactly so many.
    Exchange(Vec<u8>, usize),
    /// The connection is open.
    Connected,
    /// The connection failed.
    Failed(SocksError),
}

/// What is to be done next, over mathematical bytes.
pub enum SocksMove {
    Exchange(Seq<u8>, nat),
    Connected,
    Failed(SocksError),
}

impl View for SocksAction {
    type V = SocksMove;

    open spec fn view(&self) -> SocksMove {
        match *self {
            SocksAction::Exchange(bytes, count) => SocksMove::Exchange(bytes@, count as nat),
            SocksAction::Connected => SocksMove::Connected,
            SocksAction::Failed(e) => SocksMove::Failed(e),
        }
    }
}

/// How many bytes the awaited answer has.
pub open spec fn answer_size(stage: SocksStage) -> nat {
    match stage {
        SocksStage::Method => 2,
        SocksStage::Header => 4,
        SocksStage::NameLength => 1,
        SocksStage::Address(size) => size as nat,
        SocksStage::Finished => 0,
    }
}

/// The request to connect to a port of a host.
pub open spec fn connect_request(host: Seq<u8>, port: u16) -> Seq<u8> {
    seq![5u8, 1, 0, 3, host.len() as u8] + host + seq![(port / 256) as u8, (port % 256) as u8]
}

/// What follows the start of the answer to the request, for the address type in it.
pub open spec fn after_header(kind: u8) -> (SocksStage, SocksMove) {
    if kind == 1 {
        (SocksStage::Address(6), SocksMove::Exchange(seq![], 6))
    } else if kind == 3 {
        (SocksStage::NameLength, SocksMove::Exchange(seq![], 1))
    } else if kind == 4 {
        (SocksStage::Address(18), SocksMove::Exchange(seq![], 18))
    } else {
        (SocksStage::Finished, SocksMove::Failed(SocksError::UnknownAddressType))
    }
}

/// What an answer of the proxy leads to.
pub open spec fn socks_step(stage: SocksStage, host: Seq<u8>, port: u16, answer: Seq<u8>) -> (
    SocksStage,
    SocksMove,
) {
    match stage {
        SocksStage::Method => if answer != seq![5u8, 0] {
            (SocksStage::Finished, SocksMove::Failed(SocksError::AuthRefused))
        } else if host.len() > 255 {
            (SocksStage::Finished, SocksMove::Failed(SocksError::HostTooLong))
        } else {
            (SocksStage::Header, SocksMove::Exchange(connect_request(host, port), 4))
        },
        SocksStage::Header => if answer[0] != 5 || answer[1] != 0 {
            (SocksStage::Finished, SocksMove::Failed(SocksError::Rejected(answer[1])))
        } else {
            after_header(answer[3])
        },
        SocksStage::NameLength => (
            SocksStage::Address((answer[0] + 2) as usize),
            SocksMove::Exchange(seq![], (answer[0] + 2) as nat),
        ),
        SocksStage::Address(_) => (SocksStage::Finished, SocksMove::Connected),
        SocksStage::Finished => (SocksStage::Finished, SocksMove::Connected),
    }
}

/// A connection that is being opened through the proxy.
#[derive(Debug)]
pub struct SocksClient {
    pub host: String,
    pub port: u16,
    pub stage: SocksStage,
}

impl SocksClient {
    /// Starts a connection to a port of a host: what to send to the proxy first.
    pub fn start(host: &str, port: u16) -> (res: (SocksClient, SocksAction))
        ensures
            res.0.host@ == host@,
            res.0.port == port,
            res.0.stage == SocksStage::Method,
            res.1@ == SocksMove::Exchange(seq![5u8, 1, 0], 2),
    {
        let client = SocksClient { host: host.to_owned(), port, stage: SocksStage::Method };
        let greeting: Vec<u8> = vec![5u8, 1, 0];
        proof {
            assert(greeting@ =~= seq![5u8, 1, 0]);
        }
        (client, SocksAction::Exchange(greeting, 2))
    }

    /// The request to connect.
    fn request(&self) -> (res: Vec<u8>)
        requires
            encode_utf8(self.host@).len() <= 255,
        ensures
            res@ == connect_request(encode_utf8(self.host@), self.port),
    {
        let host: &[u8] = self.host.as_str().as_bytes();
        let mut request: Vec<u8> = vec![5u8, 1, 0, 3, host.len() as u8];
        request.extend_from_slice(host);
        request.push((self.port / 256) as u8);
        request.push((self.port % 256) as u8);
        proof {
            assert(request@ =~= connect_request(encode_utf8(self.host@), self.port));
        }
        request
    }

    /// Takes the awaited answer of the proxy.
    pub fn step(&mut self, answer: &[u8]) -> (res: SocksAction)
        requires
            old(self).stage != SocksStage::Finished,
            answer@.len() == answer_size(old(self).stage),
        ensures
            final(self).host@ == old(self).host@,
            final(self).port == old(self).port,
            res@ is Exchange <==> final(self).stage != SocksStage::Finished,
            res@ matches SocksMove::Exchange(_, count) ==> count == answer_size(final(self).stage),
            (final(self).stage, res@) == socks_step(
                old(self).stage,
                encode_utf8(old(self).host@),
                old(self).port,
                answer@,
            ),
    {
        match self.stage {
            SocksStage::Method => {
                if answer[0] != 5 || answer[1] != 0 {
                    self.stage = SocksStage::Finished;
                    return SocksAction::Failed(SocksError::AuthRefused);
                }
                proof {
                    assert(answer@ =~= seq![5u8, 0]);
                }
                if self.host.as_str().as_bytes().len() > 255 {
                    self.stage = SocksStage::Finished;
                    return SocksAction::Failed(SocksError::HostTooLong);
                }
                self.stage = SocksStage::Header;
                SocksAction::Exchange(self.request(), 4)
            },
            SocksStage::Header => {
                if answer[0] != 5 || answer[1] != 0 {
                    self.stage = SocksStage::Finished;
                    return SocksAction::Failed(SocksError::Rejected(answer[1]));
                }
                let nothing: Vec<u8> = Vec::new();
                if answer[3] == 1 {
                    self.stage = SocksStage::Address(6);
                    SocksAction::Exchange(nothing, 6)
                } else if answer[3] == 3 {
                    self.stage = SocksStage::NameLength;
                    SocksAction::Exchange(nothing, 1)
                } else if answer[3] == 4 {
                    self.stage = SocksStage::Address(18);
                    SocksAction::Exchange(nothing, 18)
                } else {
                    self.stage = SocksStage::Finished;
                    SocksAction::Failed(SocksError::UnknownAddressType)
                }
            },
            SocksStage::NameLength => {
                let size: usize = answer[0] as usize + 2;
                self.stage = SocksStage::Address(size);
                SocksAction::Exchange(Vec::new(), size)
            },
            _ => {
                self.stage = SocksStage::Finished;
                SocksAction::Connected
            },
        }
    }
}

/// How a connection ends on the bytes that the proxy sends.
pub enum SocksOutcome {
    /// It is open, after so many bytes.
    Connected(nat),
    /// It failed.
    Failed(SocksError),
    /// The proxy sent too little.
    Starved,
}

/// How a connection in a given stage ends on what the proxy still sends, after `taken` bytes.
pub open spec fn outcome(
    stage: SocksStage,
    host: Seq<u8>,
    port: u16,
    incoming: Seq<u8>,
    taken: nat,
) -> SocksOutcome
    decreases
            (match stage {
                SocksStage::Method => 3int,
                SocksStage::Header => 2,
                SocksStage::NameLength => 1,
                _ => 0,
            }),
{
    let size = answer_size(stage);
    if incoming.len() < size {
        SocksOutcome::Starved
    } else {
        let (next, action) = socks_step(stage, host, port, incoming.take(size as int));
        match action {
            SocksMove::Connected => SocksOutcome::Connected(taken + size),
            SocksMove::Failed(e) => SocksOutcome::Failed(e),
            SocksMove::Exchange(_, _) => outcome(
                next,
                host,
                port,
                incoming.skip(size as int),
                taken + size,
            ),
        }
    }
}

/// `tail` is an address of the type `kind` and a port.
pub open spec fn is_bound_address(kind: u8, tail: Seq<u8>) -> bool {
    ||| kind == 1 && tail.len() == 6
    ||| kind == 3 && tail.len() > 0 && tail.len() == 1 + tail[0] + 2
    ||| kind == 4 && tail.len() == 18
}

/// A proxy that agrees opens the connection, and exactly its answer is read: whatever follows is
/// left for the session.
pub proof fn agreeing_proxy_connects(
    host: Seq<u8>,
    port: u16,
    reserved: u8,
    kind: u8,
    tail: Seq<u8>,
    rest: Seq<u8>,
)
    requires
        host.len() <= 255,
        is_bound_address(kind, tail),
    ensures
        outcome(
            SocksStage::Method,
            host,
            port,
            seq![5u8, 0] + seq![5u8, 0, reserved, kind] + tail + rest,
            0,
        ) == SocksOutcome::Connected(6 + tail.len()),
{
    reveal_with_fuel(outcome, 5);
    let incoming = seq![5u8, 0] + seq![5u8, 0, reserved, kind] + tail + rest;
    assert(incoming.take(2) =~= seq![5u8, 0]);
    let second = incoming.skip(2);
    assert(second.take(4) =~= seq![5u8, 0, reserved, kind]);
    let third = second.skip(4);
    assert(third =~= tail + rest);
    if kind == 3 {
        assert(third.take(1) =~= seq![tail[0]]);
    }
}

/// A proxy that refuses ends the connection with the code that it gives.
pub proof fn refusing_proxy_fails(
    host: Seq<u8>,
    port: u16,
    code: u8,
    reserved: u8,
    kind: u8,
    rest: Seq<u8>,
)
    requires
        host.len() <= 255,
        code != 0,
    ensures
        outcome(
            SocksStage::Method,
            host,
            port,
            seq![5u8, 0] + seq![5u8, code, reserved, kind] + rest,
            0,
        ) == SocksOutcome::Failed(SocksError::Rejected(code)),
{
    reveal_with_fuel(outcome, 3);
    let incoming = seq![5u8, 0] + seq![5u8, code, reserved, kind] + rest;
    assert(incoming.take(2) =~= seq![5u8, 0]);
    let second = incoming.skip(2);
    assert(second.take(4) =~= seq![5u8, code, reserved, kind]);
}

/// What a code of the proxy means.
pub open spec fn socks_reply_text(code: u8) -> Seq<char> {
    if code == 1 {
        "genel SOCKS sunucu hatasi"@
    } else if code == 2 {
        "kurallar baglantiya izin vermedi"@
    } else if code == 3 {
        "ag erisilemiyor"@
    } else if code == 4 {
        "hedef erisilemiyor; onion servisi henuz yayilmamis olabilir"@
    } else if code == 5 {
        "baglanti reddedildi; host tarafinda sohbet henuz dinlemiyor olabilir"@
    } else if code == 6 {
        "TTL suresi doldu"@
    } else if code == 7 {
        "komut desteklenmiyor"@
    } else if code == 8 {
        "adres tipi desteklenmiyor"@
    } else {
        "bilinmeyen SOCKS hatasi"@
    }
}

/// What a code of the proxy means.
pub fn socks_reply_message(code: u8) -> (res: &'static str)
    ensures
        res@ == socks_reply_text(code),
{
    match code {
        1 => "genel SOCKS sunucu hatasi",
        2 => "kurallar baglantiya izin vermedi",
        3 => "ag erisilemiyor",
        4 => "hedef erisilemiyor; onion servisi henuz yayilmamis olabilir",
        5 => "baglanti reddedildi; host tarafinda sohbet henuz dinlemiyor olabilir",
        6 => "TTL suresi doldu",
        7 => "komut desteklenmiyor",
        8 => "adres tipi desteklenmiyor",
        _ => "bilinmeyen SOCKS hatasi",
    }
}

/// The text that tells the user why a connection through the proxy fails.
pub open spec fn socks_error_text(error: SocksError) -> Seq<char> {
    match error {
        SocksError::AuthRefused => "Tor SOCKS kimliksiz baglantiyi kabul etmedi"@,
        SocksError::HostTooLong => "onion host cok uzun"@,
        SocksError::Rejected(code) => "Tor SOCKS baglantisi reddedildi: "@ + socks_reply_text(code),
        SocksError::UnknownAddressType => "Tor SOCKS bilinmeyen adres tipi dondu"@,
    }
}

impl SocksError {
    /// The text that tells the user why a connection through the proxy fails.
    pub fn message(&self) -> (res: String)
        ensures
            res@ == socks_error_text(*self),
    {
        match self {
            SocksError::AuthRefused => "Tor SOCKS kimliksiz baglantiyi kabul etmedi".to_owned(),
            SocksError::HostTooLong => "onion host cok uzun".to_owned(),
            SocksError::Rejected(code) => {
                let mut text: String = "Tor SOCKS baglantisi reddedildi: ".to_owned();
                text.append(socks_reply_message(*code));
                text
            },
            SocksError::UnknownAddressType => "Tor SOCKS bilinmeyen adres tipi dondu".to_owned(),
        }
    }
}

/// The request names the host whole, its length and the port with the high byte first, for every
/// host of at most 255 bytes and every port.
pub proof fn the_request_names_host_and_port(host: Seq<u8>, port: u16)
    requires
        host.len() <= 255,
    ensures
        ({
            let request = connect_request(host, port);
            let n = host.len() as int;
            &&& socks_step(SocksStage::Method, host, port, seq![5u8, 0]) == (
                SocksStage::Header,
                SocksMove::Exchange(request, 4),
            )
            &&& request.len() == 7 + n
            &&& request[0] == 5 && request[1] == 1 && request[2] == 0 && request[3] == 3
            &&& request[4] == n
            &&& request.subrange(5, 5 + n) == host
            &&& 256 * request[5 + n] + request[6 + n] == port
        }),
{
    let request = connect_request(host, port);
    let n = host.len() as int;
    assert(request.subrange(5, 5 + n) =~= host);
    assert(request[5 + n] == (port / 256) as u8);
    assert(request[6 + n] == (port % 256) as u8);
}

/// Nothing but the request is sent behind the greeting, and each answer that is awaited is read
/// whole.
pub proof fn only_the_request_is_sent(
    stage: SocksStage,
    host: Seq<u8>,
    port: u16,
    answer: Seq<u8>,
)
    requires
        answer.len() == answer_size(stage),
    ensures
        match socks_step(stage, host, port, answer) {
            (next, SocksMove::Exchange(bytes, count)) => {
                &&& count == answer_size(next)
                &&& count > 0
                &&& stage != SocksStage::Method ==> bytes.len() == 0
            },
            _ => true,
        },
{
}

/// A proxy whose first answer is not to do without authentication is left, and so is one that is to
/// be asked for a host of more than 255 bytes.
pub proof fn an_unwilling_proxy_is_left(
    host: Seq<u8>,
    port: u16,
    first: u8,
    second: u8,
    rest: Seq<u8>,
)
    ensures
        first != 5 || second != 0 ==> outcome(
            SocksStage::Method,
            host,
            port,
            seq![first, second] + rest,
            0,
        ) == SocksOutcome::Failed(SocksError::AuthRefused),
        first == 5 && second == 0 && host.len() > 255 ==> outcome(
            SocksStage::Method,
            host,
            port,
            seq![first, second] + rest,
            0,
        ) == SocksOutcome::Failed(SocksError::HostTooLong),
{
    let incoming = seq![first, second] + rest;
    assert(incoming.take(2) =~= seq![first, second]);
    if first != 5 || second != 0 {
        assert(seq![first, second][0] == first && seq![first, second][1] == second);
        assert(seq![5u8, 0][0] == 5 && seq![5u8, 0][1] == 0);
    }
}

/// An answer of another version, or with an address of an unknown type, ends the connection.
pub proof fn a_strange_answer_fails(
    host: Seq<u8>,
    port: u16,
    version: u8,
    code: u8,
    reserved: u8,
    kind: u8,
    rest: Seq<u8>,
)
    requires
        host.len() <= 255,
    ensures
        version != 5 ==> outcome(
            SocksStage::Method,
            host,
            port,
            seq![5u8, 0] + seq![version, code, reserved, kind] + rest,
            0,
        ) == SocksOutcome::Failed(SocksError::Rejected(code)),
        version == 5 && code == 0 && kind != 1 && kind != 3 && kind != 4 ==> outcome(
            SocksStage::Method,
            host,
            port,
            seq![5u8, 0] + seq![version, code, reserved, kind] + rest,
            0,
        ) == SocksOutcome::Failed(SocksError::UnknownAddressType),
{
    reveal_with_fuel(outcome, 3);
    let incoming = seq![5u8, 0] + seq![version, code, reserved, kind] + rest;
    assert(incoming.take(2) =~= seq![5u8, 0]);
    assert(incoming.skip(2).take(4) =~= seq![version, code, reserved, kind]);
}

/// Every code beyond the known ones has the same meaning: an unknown error.
pub proof fn other_codes_are_unknown(code: u8)
    requires
        code == 0 || code > 8,
    ensures
        socks_reply_text(code) == "bilinmeyen SOCKS hatasi"@,
{
}

/// The view of an action holds the bytes to be sent whole, and in their order.
pub proof fn the_view_holds_the_action_whole(bytes: Vec<u8>, count: usize, error: SocksError)
    ensures
        SocksAction::Exchange(bytes, count)@ == SocksMove::Exchange(bytes@, count as nat),
        SocksAction::Connected@ == SocksMove::Connected,
        SocksAction::Failed(error)@ == SocksMove::Failed(error),
{
}

/// The reason that the proxy gives is told behind the words that it refused.
pub proof fn a_refusal_tells_its_reason(code: u8)
    ensures
        socks_error_text(SocksError::Rejected(code)) == "Tor SOCKS baglantisi reddedildi: "@
            + socks_reply_text(code),
{
}

} // verus!
