//! The protocol of a session: greeting, key agreement and sealed chat lines.

use vstd::prelude::*;
use vstd::utf8::{encode_utf8, encode_utf8_decode_utf8, encode_utf8_valid_utf8};

use crate::crypto::{can_open, fits_cipher, opened, seals, EncryptedMessage, SessionKey};
use crate::encoding::{base64_bytes, base64_injective, base64_round_trips, base64_text};
use crate::error::{fauna_error_text, FaunaError};
use crate::identity::{peer_id_text, public_key_in, DeviceIdentity, PeerId};
use crate::json::{
    is_printable, json_string, json_string_is_printable, json_string_reads_one_way,
    lemma_labelled, lemma_printable_together, lemma_regroup, lemma_same_rest, push_string,
};
use crate::key_exchange::{
    derived_key, is_secret, session_key_is_the_hash_of_the_shared_secret, ExchangeKeypair,
};
use crate::language::Language;
use crate::primitives::{
    base64_decode, base64_encode, base64_fault, ed25519_is_key, ed25519_public, ed25519_signature,
    ed25519_verifies, lossy_text, overruns_cipher, sha256, utf8_lossy, x25519_public,
    x25519_shared, xchacha_sealed,
};
use crate::text::{has_part, same_text, text_of, trim, trim_end, trimmed, trimmed_end};

verus! {

/// The greeting that each side sends first.
#[derive(Debug)]
pub struct HelloFrame {
    pub peer_id: PeerId,
    pub display_name: String,
    pub identity_public_key: String,
    pub exchange_public_key: String,
    pub signature: String,
}

/// A sealed chat line.
#[derive(Debug)]
pub struct ChatFrame {
    pub nonce: String,
    pub ciphertext: String,
}

/// Why a greeting is refused.
#[derive(Debug)]
pub enum HelloError {
    /// It comes from another device than the one that was expected.
    WrongIdentity,
    /// Its identity key is no key.
    PublicKey(FaunaError),
    /// Its peer id is not the one of its identity key.
    PeerIdMismatch,
    /// Its signature is no base64.
    SignatureEncoding(base64::DecodeError),
    /// Its signature is not the identity key's signature of the exchange key.
    Signature(FaunaError),
}

/// Why a session is not established.
#[derive(Debug)]
pub enum SessionError {
    /// The other side's greeting is refused.
    Hello(HelloError),
    /// The other side's exchange key is no key.
    ExchangeKey(FaunaError),
}

/// Why a greeting is refused, if it is.
pub open spec fn hello_fault(hello: HelloFrame, expected: Option<Seq<char>>) -> Option<
    HelloError,
> {
    if expected is Some && expected->0 != hello.identity_public_key@ {
        Some(HelloError::WrongIdentity)
    } else {
        match public_key_in(hello.identity_public_key@) {
            Err(e) => Some(HelloError::PublicKey(e)),
            Ok(key) => if peer_id_text(key) != hello.peer_id@ {
                Some(HelloError::PeerIdMismatch)
            } else {
                match base64_bytes(hello.signature@) {
                    None => Some(HelloError::SignatureEncoding(base64_fault(hello.signature@))),
                    Some(signature) => if ed25519_verifies(
                        key,
                        encode_utf8(hello.exchange_public_key@),
                        signature,
                    ) {
                        None
                    } else {
                        Some(HelloError::Signature(FaunaError::Signature))
                    },
                }
            },
        }
    }
}

/// The greeting is the one of the device with the secret key `identity`, which calls itself
/// `name` and offers the exchange key that belongs to `exchange`.
pub open spec fn is_hello_of(
    hello: HelloFrame,
    identity: Seq<u8>,
    name: Seq<char>,
    exchange: Seq<u8>,
) -> bool {
    let offered = base64_text(x25519_public(exchange));
    &&& hello.peer_id@ == peer_id_text(ed25519_public(identity))
    &&& hello.display_name@ == name
    &&& hello.identity_public_key@ == base64_text(ed25519_public(identity))
    &&& hello.exchange_public_key@ == offered
    &&& hello.signature@ == base64_text(ed25519_signature(identity, encode_utf8(offered)))
}

/// The greeting of this device. `verify_hello` accepts it, from whoever expects this device or
/// nobody in particular.
pub fn create_hello(
    identity: &DeviceIdentity,
    display_name: &str,
    exchange: &ExchangeKeypair,
) -> (res: HelloFrame)
    ensures
        is_hello_of(res, identity@, display_name@, exchange@),
        hello_fault(res, None) is None,
        hello_fault(res, Some(base64_text(ed25519_public(identity@)))) is None,
{
    let exchange_public_key = exchange.public_key_base64();
    let signature = identity.sign(exchange_public_key.as_str().as_bytes());
    proof {
        base64_round_trips(signature@);
    }
    HelloFrame {
        peer_id: identity.peer_id(),
        display_name: display_name.to_owned(),
        identity_public_key: identity.public_key_base64(),
        exchange_public_key,
        signature: base64_encode(signature.as_slice()),
    }
}

/// Checks the greeting of the other side, which comes from the device with the identity key
/// `expected_public_key` where that is known.
pub fn verify_hello(hello: &HelloFrame, expected_public_key: Option<&str>) -> (res: Result<
    (),
    HelloError,
>)
    ensures
        match res {
            Ok(()) => hello_fault(*hello, text_of(expected_public_key)) is None,
            Err(e) => hello_fault(*hello, text_of(expected_public_key)) == Some(e),
        },
{
    if let Some(expected) = expected_public_key {
        if !same_text(hello.identity_public_key.as_str(), expected) {
            return Err(HelloError::WrongIdentity);
        }
    }
    let public_key = match DeviceIdentity::public_key_from_base64(
        hello.identity_public_key.as_str(),
    ) {
        Ok(key) => key,
        Err(e) => {
            return Err(HelloError::PublicKey(e));
        },
    };
    if PeerId::from_public_key(&public_key) != hello.peer_id {
        return Err(HelloError::PeerIdMismatch);
    }
    let signature = match base64_decode(hello.signature.as_str()) {
        Ok(signature) => signature,
        Err(e) => {
            return Err(HelloError::SignatureEncoding(e));
        },
    };
    proof {
        base64_round_trips(signature@);
    }
    match DeviceIdentity::verify(
        &public_key,
        hello.exchange_public_key.as_str().as_bytes(),
        signature.as_slice(),
    ) {
        Ok(()) => Ok(()),
        Err(e) => Err(HelloError::Signature(e)),
    }
}

/// The greeting of another device than the one that the invite names is refused, whatever else it
/// holds.
pub proof fn uninvited_device_is_refused(
    hello: HelloFrame,
    identity: Seq<u8>,
    name: Seq<char>,
    exchange: Seq<u8>,
    invited: Seq<u8>,
)
    requires
        is_hello_of(hello, identity, name, exchange),
        ed25519_public(identity) != ed25519_public(invited),
    ensures
        hello_fault(hello, Some(base64_text(ed25519_public(invited)))) == Some(
            HelloError::WrongIdentity,
        ),
{
    if base64_text(ed25519_public(identity)) == base64_text(ed25519_public(invited)) {
        base64_injective(ed25519_public(identity), ed25519_public(invited));
    }
}

/// The session key that the secret exchange key `secret` agrees on with the sender of a greeting.
pub open spec fn agreed_with(
    secret: Seq<u8>,
    remote: HelloFrame,
    expected: Option<Seq<char>>,
) -> Result<Seq<u8>, SessionError> {
    match hello_fault(remote, expected) {
        Some(e) => Err(SessionError::Hello(e)),
        None => match derived_key(secret, remote.exchange_public_key@) {
            Ok(key) => Ok(key),
            Err(e) => Err(SessionError::ExchangeKey(e)),
        },
    }
}

/// Checks the greeting of the other side and derives the session key.
///
/// Where the greeting is the one that the other side makes with the exchange key `other`, the
/// session is established, and the other side derives the same key from this side's exchange key.
pub fn establish(
    exchange: &ExchangeKeypair,
    remote: &HelloFrame,
    expected_public_key: Option<&str>,
) -> (res: Result<SessionKey, SessionError>)
    ensures
        match res {
            Ok(key) => agreed_with(exchange@, *remote, text_of(expected_public_key)) == Ok::<
                Seq<u8>,
                SessionError,
            >(key@),
            Err(e) => agreed_with(exchange@, *remote, text_of(expected_public_key)) == Err::<
                Seq<u8>,
                SessionError,
            >(e),
        },
        forall|other: Seq<u8>|
            is_secret(other) && remote.exchange_public_key@ == #[trigger] base64_text(
                x25519_public(other),
            ) && hello_fault(*remote, text_of(expected_public_key)) is None ==> {
                &&& res matches Ok(key)
                &&& derived_key(other, base64_text(x25519_public(exchange@))) == Ok::<
                    Seq<u8>,
                    FaunaError,
                >(key@)
            },
{
    match verify_hello(remote, expected_public_key) {
        Ok(()) => {},
        Err(e) => {
            return Err(SessionError::Hello(e));
        },
    }
    match exchange.derive_session_key(remote.exchange_public_key.as_str()) {
        Ok(key) => Ok(key),
        Err(e) => Err(SessionError::ExchangeKey(e)),
    }
}

/// The frame is `plaintext` sealed with `key` and `nonce`. The sealed bytes are 16 more than those of
/// the plaintext.
pub open spec fn seals_frame(
    frame: ChatFrame,
    key: Seq<u8>,
    nonce: Seq<u8>,
    plaintext: Seq<u8>,
) -> bool {
    &&& frame.nonce@ == base64_text(nonce)
    &&& frame.ciphertext@ == base64_text(xchacha_sealed(key, nonce, plaintext))
    &&& xchacha_sealed(key, nonce, plaintext).len() == plaintext.len() + 16
}

/// The frame holds `plaintext`: it is sealed with `key` and a nonce, and `key` opens it again.
pub open spec fn holds(frame: ChatFrame, key: Seq<u8>, plaintext: Seq<u8>) -> bool {
    &&& exists|nonce: Seq<u8>|
        nonce.len() == 24 && #[trigger] seals_frame(frame, key, nonce, plaintext)
    &&& can_open(frame.nonce@, frame.ciphertext@)
    &&& opened(key, frame.nonce@, frame.ciphertext@) == Ok::<Seq<u8>, FaunaError>(plaintext)
}

/// Seals a text. `open_text` with the same key gives it back.
pub fn seal_text(key: &SessionKey, text: &str) -> (res: Result<ChatFrame, FaunaError>)
    requires
        !overruns_cipher(encode_utf8(text@).len() as int),
    ensures
        match res {
            Ok(frame) => fits_cipher(encode_utf8(text@).len() as int) && holds(
                frame,
                key@,
                encode_utf8(text@),
            ),
            Err(e) => !fits_cipher(encode_utf8(text@).len() as int) && e == FaunaError::Crypto,
        },
{
    match key.encrypt(text.as_bytes()) {
        Ok(message) => {
            let ghost nonce = choose|nonce: Seq<u8>|
                nonce.len() == 24 && #[trigger] seals(message, key@, nonce, encode_utf8(text@));
            let frame = ChatFrame { nonce: message.nonce, ciphertext: message.ciphertext };
            proof {
                assert(seals_frame(frame, key@, nonce, encode_utf8(text@)));
            }
            Ok(frame)
        },
        Err(e) => Err(e),
    }
}

/// Seals a line that was typed, as it is, unless there is nothing but whitespace in it.
pub fn seal_line(key: &SessionKey, line: &str) -> (res: Result<Option<ChatFrame>, FaunaError>)
    requires
        trimmed(line@).len() == 0 || !overruns_cipher(encode_utf8(line@).len() as int),
    ensures
        match res {
            Ok(None) => trimmed(line@).len() == 0,
            Ok(Some(frame)) => trimmed(line@).len() != 0 && fits_cipher(
                encode_utf8(line@).len() as int,
            ) && holds(frame, key@, encode_utf8(line@)),
            Err(e) => trimmed(line@).len() != 0 && !fits_cipher(encode_utf8(line@).len() as int)
                && e == FaunaError::Crypto,
        },
{
    if trim(line).unicode_len() == 0 {
        return Ok(None);
    }
    match seal_text(key, line) {
        Ok(frame) => Ok(Some(frame)),
        Err(e) => Err(e),
    }
}

impl ChatFrame {
    /// Whether `open_text` can be asked to open this frame.
    pub fn can_be_opened(&self) -> (res: bool)
        ensures
            res == can_open(self.nonce@, self.ciphertext@),
    {
        let message = EncryptedMessage {
            nonce: self.nonce.clone(),
            ciphertext: self.ciphertext.clone(),
        };
        message.can_be_opened()
    }
}

/// The text of a frame, with replacement characters where the plaintext is no UTF-8.
///
/// A frame of `seal_text` gives back the text that was sealed.
pub fn open_text(key: &SessionKey, frame: &ChatFrame) -> (res: Result<String, FaunaError>)
    requires
        can_open(frame.nonce@, frame.ciphertext@),
    ensures
        match res {
            Ok(text) => {
                &&& opened(key@, frame.nonce@, frame.ciphertext@) is Ok
                &&& text@ == utf8_lossy(opened(key@, frame.nonce@, frame.ciphertext@)->Ok_0)
            },
            Err(e) => opened(key@, frame.nonce@, frame.ciphertext@) == Err::<Seq<u8>, FaunaError>(
                e,
            ),
        },
        forall|text: Seq<char>|
            holds(*frame, key@, #[trigger] encode_utf8(text)) ==> res is Ok && res->Ok_0@ == text,
{
    let message = EncryptedMessage {
        nonce: frame.nonce.clone(),
        ciphertext: frame.ciphertext.clone(),
    };
    match key.decrypt(&message) {
        Ok(plaintext) => {
            proof {
                assert forall|text: Seq<char>|
                    plaintext@ == #[trigger] encode_utf8(text) implies vstd::utf8::valid_utf8(
                    plaintext@,
                ) && vstd::utf8::decode_utf8(plaintext@) == text by {
                    encode_utf8_valid_utf8(text);
                    encode_utf8_decode_utf8(text);
                }
            }
            Ok(lossy_text(plaintext.as_slice()))
        },
        Err(e) => Err(e),
    }
}

/// The JSON object that holds a greeting.
pub open spec fn hello_json(hello: HelloFrame) -> Seq<char> {
    "{\"peer_id\":"@ + json_string(hello.peer_id@) + ",\"display_name\":"@ + json_string(
        hello.display_name@,
    ) + ",\"identity_public_key\":"@ + json_string(hello.identity_public_key@)
        + ",\"exchange_public_key\":"@ + json_string(hello.exchange_public_key@)
        + ",\"signature\":"@ + json_string(hello.signature@) + "}"@
}

/// The JSON object that holds a sealed chat line.
pub open spec fn chat_json(frame: ChatFrame) -> Seq<char> {
    "{\"nonce\":"@ + json_string(frame.nonce@) + ",\"ciphertext\":"@ + json_string(
        frame.ciphertext@,
    ) + "}"@
}

impl HelloFrame {
    /// The line that carries this greeting.
    pub fn json_line(&self) -> (res: Result<String, FaunaError>)
        ensures
            res is Ok,
            res->Ok_0@ == hello_json(*self) + "\n"@,
    {
        let mut json: String = String::new();
        push_string(&mut json, "{\"peer_id\":", self.peer_id.as_str())?;
        push_string(&mut json, ",\"display_name\":", self.display_name.as_str())?;
        push_string(&mut json, ",\"identity_public_key\":", self.identity_public_key.as_str())?;
        push_string(&mut json, ",\"exchange_public_key\":", self.exchange_public_key.as_str())?;
        push_string(&mut json, ",\"signature\":", self.signature.as_str())?;
        json.append("}");
        json.append("\n");
        proof {
            assert(Seq::<char>::empty() + "{\"peer_id\":"@ =~= "{\"peer_id\":"@);
        }
        Ok(json)
    }
}

impl ChatFrame {
    /// The line that carries this sealed chat line.
    pub fn json_line(&self) -> (res: Result<String, FaunaError>)
        ensures
            res is Ok,
            res->Ok_0@ == chat_json(*self) + "\n"@,
    {
        let mut json: String = String::new();
        push_string(&mut json, "{\"nonce\":", self.nonce.as_str())?;
        push_string(&mut json, ",\"ciphertext\":", self.ciphertext.as_str())?;
        json.append("}");
        json.append("\n");
        proof {
            assert(Seq::<char>::empty() + "{\"nonce\":"@ =~= "{\"nonce\":"@);
        }
        Ok(json)
    }
}

/// The other side has closed the connection.
#[derive(Debug, Clone, Copy, PartialEq, Eq, Structural)]
pub struct Disconnected;

/// The JSON in a line that was read, given the number of bytes that the reading took.
pub fn received_json<'a>(bytes: usize, line: &'a str) -> (res: Result<&'a str, Disconnected>)
    ensures
        match res {
            Ok(json) => bytes != 0 && json@ == trimmed_end(line@),
            Err(_) => bytes == 0,
        },
{
    if bytes == 0 {
        return Err(Disconnected);
    }
    Ok(trim_end(line))
}

/// A line of JSON that ends in a brace is read as that JSON.
proof fn lemma_line_body(json: Seq<char>)
    requires
        json.len() > 0,
        json.last() == '}',
    ensures
        trimmed_end(json + "\n"@) == json,
{
    reveal_strlit("\n");
    let line = json + "\n"@;
    assert(line.last() == '\n');
    assert(line.drop_last() =~= json);
    assert(trimmed_end(line) == trimmed_end(json));
}

/// A greeting travels as one line: no line break stands in its JSON, and what is read from the
/// line is the JSON.
pub proof fn hello_travels_in_one_line(hello: HelloFrame)
    ensures
        is_printable(hello_json(hello)),
        trimmed_end(hello_json(hello) + "\n"@) == hello_json(hello),
{
    reveal_strlit("{\"peer_id\":");
    reveal_strlit(",\"display_name\":");
    reveal_strlit(",\"identity_public_key\":");
    reveal_strlit(",\"exchange_public_key\":");
    reveal_strlit(",\"signature\":");
    reveal_strlit("}");
    let s1 = "{\"peer_id\":"@ + json_string(hello.peer_id@);
    let s2 = s1 + ",\"display_name\":"@;
    let s3 = s2 + json_string(hello.display_name@);
    let s4 = s3 + ",\"identity_public_key\":"@;
    let s5 = s4 + json_string(hello.identity_public_key@);
    let s6 = s5 + ",\"exchange_public_key\":"@;
    let s7 = s6 + json_string(hello.exchange_public_key@);
    let s8 = s7 + ",\"signature\":"@;
    let s9 = s8 + json_string(hello.signature@);
    json_string_is_printable(hello.peer_id@);
    json_string_is_printable(hello.display_name@);
    json_string_is_printable(hello.identity_public_key@);
    json_string_is_printable(hello.exchange_public_key@);
    json_string_is_printable(hello.signature@);
    lemma_printable_together("{\"peer_id\":"@, json_string(hello.peer_id@));
    lemma_printable_together(s1, ",\"display_name\":"@);
    lemma_printable_together(s2, json_string(hello.display_name@));
    lemma_printable_together(s3, ",\"identity_public_key\":"@);
    lemma_printable_together(s4, json_string(hello.identity_public_key@));
    lemma_printable_together(s5, ",\"exchange_public_key\":"@);
    lemma_printable_together(s6, json_string(hello.exchange_public_key@));
    lemma_printable_together(s7, ",\"signature\":"@);
    lemma_printable_together(s8, json_string(hello.signature@));
    lemma_printable_together(s9, "}"@);
    lemma_line_body(hello_json(hello));
}

/// A sealed chat line travels as one line: no line break stands in its JSON, and what is read from
/// the line is the JSON.
pub proof fn chat_travels_in_one_line(frame: ChatFrame)
    ensures
        is_printable(chat_json(frame)),
        trimmed_end(chat_json(frame) + "\n"@) == chat_json(frame),
{
    reveal_strlit("{\"nonce\":");
    reveal_strlit(",\"ciphertext\":");
    reveal_strlit("}");
    let s1 = "{\"nonce\":"@ + json_string(frame.nonce@);
    let s2 = s1 + ",\"ciphertext\":"@;
    let s3 = s2 + json_string(frame.ciphertext@);
    json_string_is_printable(frame.nonce@);
    json_string_is_printable(frame.ciphertext@);
    lemma_printable_together("{\"nonce\":"@, json_string(frame.nonce@));
    lemma_printable_together(s1, ",\"ciphertext\":"@);
    lemma_printable_together(s2, json_string(frame.ciphertext@));
    lemma_printable_together(s3, "}"@);
    lemma_line_body(chat_json(frame));
}

/// Two greetings say the same.
pub open spec fn same_hello(a: HelloFrame, b: HelloFrame) -> bool {
    &&& a.peer_id@ == b.peer_id@
    &&& a.display_name@ == b.display_name@
    &&& a.identity_public_key@ == b.identity_public_key@
    &&& a.exchange_public_key@ == b.exchange_public_key@
    &&& a.signature@ == b.signature@
}

/// What follows the first label in the JSON of a greeting.
spec fn hello_rest(hello: HelloFrame) -> Seq<char> {
    let signature = json_string(hello.signature@) + "}"@;
    let exchange = json_string(hello.exchange_public_key@) + (",\"signature\":"@ + signature);
    let identity = json_string(hello.identity_public_key@) + (",\"exchange_public_key\":"@
        + exchange);
    let name = json_string(hello.display_name@) + (",\"identity_public_key\":"@ + identity);
    json_string(hello.peer_id@) + (",\"display_name\":"@ + name)
}

proof fn lemma_hello_rest(hello: HelloFrame)
    ensures
        hello_json(hello) == "{\"peer_id\":"@ + hello_rest(hello),
{
    let start = "{\"peer_id\":"@;
    let s1 = start + json_string(hello.peer_id@);
    let s2 = s1 + ",\"display_name\":"@;
    let s3 = s2 + json_string(hello.display_name@);
    let s4 = s3 + ",\"identity_public_key\":"@;
    let s5 = s4 + json_string(hello.identity_public_key@);
    let s6 = s5 + ",\"exchange_public_key\":"@;
    let s7 = s6 + json_string(hello.exchange_public_key@);
    let s8 = s7 + ",\"signature\":"@;
    let signature = json_string(hello.signature@) + "}"@;
    let exchange = json_string(hello.exchange_public_key@) + (",\"signature\":"@ + signature);
    let identity = json_string(hello.identity_public_key@) + (",\"exchange_public_key\":"@
        + exchange);
    let name = json_string(hello.display_name@) + (",\"identity_public_key\":"@ + identity);
    lemma_regroup(s8, json_string(hello.signature@), "}"@);
    lemma_regroup(s7, ",\"signature\":"@, signature);
    lemma_regroup(s6, json_string(hello.exchange_public_key@), ",\"signature\":"@ + signature);
    lemma_regroup(s5, ",\"exchange_public_key\":"@, exchange);
    lemma_regroup(
        s4,
        json_string(hello.identity_public_key@),
        ",\"exchange_public_key\":"@ + exchange,
    );
    lemma_regroup(s3, ",\"identity_public_key\":"@, identity);
    lemma_regroup(s2, json_string(hello.display_name@), ",\"identity_public_key\":"@ + identity);
    lemma_regroup(s1, ",\"display_name\":"@, name);
    lemma_regroup(start, json_string(hello.peer_id@), ",\"display_name\":"@ + name);
}

/// The JSON of a greeting tells greetings apart: two with the same JSON say the same.
pub proof fn json_tells_hellos_apart(a: HelloFrame, b: HelloFrame)
    requires
        hello_json(a) == hello_json(b),
    ensures
        same_hello(a, b),
{
    lemma_hello_rest(a);
    lemma_hello_rest(b);
    lemma_same_rest("{\"peer_id\":"@, hello_rest(a), hello_rest(b));
    let name = ",\"display_name\":"@;
    let identity = ",\"identity_public_key\":"@;
    let exchange = ",\"exchange_public_key\":"@;
    let signature = ",\"signature\":"@;
    let a4 = json_string(a.signature@) + "}"@;
    let b4 = json_string(b.signature@) + "}"@;
    let a3 = json_string(a.exchange_public_key@) + (signature + a4);
    let b3 = json_string(b.exchange_public_key@) + (signature + b4);
    let a2 = json_string(a.identity_public_key@) + (exchange + a3);
    let b2 = json_string(b.identity_public_key@) + (exchange + b3);
    let a1 = json_string(a.display_name@) + (identity + a2);
    let b1 = json_string(b.display_name@) + (identity + b2);
    json_string_reads_one_way(a.peer_id@, name + a1, b.peer_id@, name + b1);
    lemma_same_rest(name, a1, b1);
    json_string_reads_one_way(a.display_name@, identity + a2, b.display_name@, identity + b2);
    lemma_same_rest(identity, a2, b2);
    json_string_reads_one_way(
        a.identity_public_key@,
        exchange + a3,
        b.identity_public_key@,
        exchange + b3,
    );
    lemma_same_rest(exchange, a3, b3);
    json_string_reads_one_way(
        a.exchange_public_key@,
        signature + a4,
        b.exchange_public_key@,
        signature + b4,
    );
    lemma_same_rest(signature, a4, b4);
    json_string_reads_one_way(a.signature@, "}"@, b.signature@, "}"@);
}

/// The JSON of a sealed chat line tells them apart: two with the same JSON say the same.
pub proof fn json_tells_chats_apart(a: ChatFrame, b: ChatFrame)
    requires
        chat_json(a) == chat_json(b),
    ensures
        a.nonce@ == b.nonce@,
        a.ciphertext@ == b.ciphertext@,
{
    let start = "{\"nonce\":"@;
    let label = ",\"ciphertext\":"@;
    let a1 = json_string(a.ciphertext@) + "}"@;
    let b1 = json_string(b.ciphertext@) + "}"@;
    let a0 = json_string(a.nonce@) + (label + a1);
    let b0 = json_string(b.nonce@) + (label + b1);
    assert(chat_json(a) =~= start + a0);
    assert(chat_json(b) =~= start + b0);
    lemma_same_rest(start, a0, b0);
    json_string_reads_one_way(a.nonce@, label + a1, b.nonce@, label + b1);
    lemma_same_rest(label, a1, b1);
    json_string_reads_one_way(a.ciphertext@, "}"@, b.ciphertext@, "}"@);
}

/// The text that tells the user why a greeting is refused.
pub open spec fn hello_error_text(error: HelloError, language: Language) -> Seq<char> {
    match (error, language) {
        (HelloError::WrongIdentity, Language::English) => "remote identity does not match invite"@,
        (HelloError::WrongIdentity, Language::Turkish) =>
            "baglanan cihaz davet kimligiyle eslesmedi"@,
        (HelloError::PublicKey(e), _) => fauna_error_text(e),
        (HelloError::PeerIdMismatch, Language::English) =>
            "remote peer id does not match public key"@,
        (HelloError::PeerIdMismatch, Language::Turkish) => "peer id public key ile eslesmedi"@,
        (HelloError::SignatureEncoding(_), Language::English) =>
            "invalid hello signature encoding"@,
        (HelloError::SignatureEncoding(_), Language::Turkish) => "imza okunamadi"@,
        (HelloError::Signature(e), _) => fauna_error_text(e),
    }
}

impl HelloError {
    /// The text that tells the user why a greeting is refused.
    pub fn message(&self, language: Language) -> (res: &'static str)
        ensures
            res@ == hello_error_text(*self, language),
    {
        match (self, language) {
            (HelloError::WrongIdentity, Language::English) =>
                "remote identity does not match invite",
            (HelloError::WrongIdentity, Language::Turkish) =>
                "baglanan cihaz davet kimligiyle eslesmedi",
            (HelloError::PublicKey(e), _) => e.message(),
            (HelloError::PeerIdMismatch, Language::English) =>
                "remote peer id does not match public key",
            (HelloError::PeerIdMismatch, Language::Turkish) => "peer id public key ile eslesmedi",
            (HelloError::SignatureEncoding(_), Language::English) =>
                "invalid hello signature encoding",
            (HelloError::SignatureEncoding(_), Language::Turkish) => "imza okunamadi",
            (HelloError::Signature(e), _) => e.message(),
        }
    }
}

/// The text that tells the user why a session is not established.
pub open spec fn session_error_text(error: SessionError, language: Language) -> Seq<char> {
    match error {
        SessionError::Hello(e) => hello_error_text(e, language),
        SessionError::ExchangeKey(e) => fauna_error_text(e),
    }
}

impl SessionError {
    /// The text that tells the user why a session is not established.
    pub fn message(&self, language: Language) -> (res: &'static str)
        ensures
            res@ == session_error_text(*self, language),
    {
        match self {
            SessionError::Hello(e) => e.message(language),
            SessionError::ExchangeKey(e) => e.message(),
        }
    }
}

impl Disconnected {
    /// The text that tells the user that the other side is gone.
    pub fn message(&self, language: Language) -> (res: &'static str)
        ensures
            res@ == match language {
                Language::English => "peer disconnected"@,
                Language::Turkish => "karsi taraf baglantiyi kapatti"@,
            },
    {
        match language {
            Language::English => "peer disconnected",
            Language::Turkish => "karsi taraf baglantiyi kapatti",
        }
    }
}

/// Whoever is accepted is who they say: a greeting is accepted only from the expected device, under
/// the peer id of its identity key, and with that key's signature of the exchange key.
pub proof fn an_accepted_greeting_is_genuine(hello: HelloFrame, expected: Option<Seq<char>>)
    requires
        hello_fault(hello, expected) is None,
    ensures
        expected is Some ==> expected->0 == hello.identity_public_key@,
        exists|key: Seq<u8>, signature: Seq<u8>| #[trigger]
            base64_text(key) == hello.identity_public_key@ && #[trigger] base64_text(signature)
                == hello.signature@ && key.len() == 32 && ed25519_is_key(key) && hello.peer_id@
                == peer_id_text(key) && ed25519_verifies(
                key,
                encode_utf8(hello.exchange_public_key@),
                signature,
            ),
{
    let key = base64_bytes(hello.identity_public_key@)->0;
    let signature = base64_bytes(hello.signature@)->0;
    assert(base64_text(key) == hello.identity_public_key@);
    assert(base64_text(signature) == hello.signature@);
}

/// A genuine greeting is accepted, whatever name and exchange key it holds.
pub proof fn a_genuine_greeting_is_accepted(
    hello: HelloFrame,
    expected: Option<Seq<char>>,
    key: Seq<u8>,
    signature: Seq<u8>,
)
    requires
        expected is Some ==> expected->0 == hello.identity_public_key@,
        base64_text(key) == hello.identity_public_key@,
        key.len() == 32,
        ed25519_is_key(key),
        hello.peer_id@ == peer_id_text(key),
        base64_text(signature) == hello.signature@,
        ed25519_verifies(key, encode_utf8(hello.exchange_public_key@), signature),
    ensures
        hello_fault(hello, expected) is None,
{
    base64_round_trips(key);
    base64_round_trips(signature);
}

/// A session is established exactly where the greeting is accepted and the exchange key has 32
/// bytes, and its key is the hash of the secret that is shared with that exchange key.
pub proof fn an_accepted_greeting_fixes_the_session_key(
    secret: Seq<u8>,
    remote: HelloFrame,
    expected: Option<Seq<char>>,
    public: Seq<u8>,
)
    requires
        remote.exchange_public_key@ == base64_text(public),
    ensures
        hello_fault(remote, expected) is None && public.len() == 32 ==> agreed_with(
            secret,
            remote,
            expected,
        ) == Ok::<Seq<u8>, SessionError>(sha256(x25519_shared(secret, public))),
        hello_fault(remote, expected) is Some || public.len() != 32 ==> agreed_with(
            secret,
            remote,
            expected,
        ) is Err,
{
    session_key_is_the_hash_of_the_shared_secret(secret, public);
}

/// A greeting says who sends it: under the name that was given, whole, with the keys of the device
/// and of the exchange, and with the device's signature of the latter.
pub proof fn a_greeting_says_who_sends_it(
    hello: HelloFrame,
    identity: Seq<u8>,
    name: Seq<char>,
    exchange: Seq<u8>,
)
    requires
        is_hello_of(hello, identity, name, exchange),
    ensures
        hello.display_name@ == name,
        public_key_in(hello.identity_public_key@) is Ok ==> public_key_in(
            hello.identity_public_key@,
        )->Ok_0 == ed25519_public(identity),
        hello.peer_id@ == peer_id_text(ed25519_public(identity)),
        base64_bytes(hello.identity_public_key@) == Some(ed25519_public(identity)),
        base64_bytes(hello.exchange_public_key@) == Some(x25519_public(exchange)),
        base64_bytes(hello.signature@) == Some(
            ed25519_signature(identity, encode_utf8(hello.exchange_public_key@)),
        ),
{
    base64_round_trips(ed25519_public(identity));
    base64_round_trips(x25519_public(exchange));
    base64_round_trips(ed25519_signature(identity, encode_utf8(hello.exchange_public_key@)));
}

/// What a frame holds is what the key opens it to, whole.
pub proof fn a_frame_opens_to_what_it_holds(
    frame: ChatFrame,
    key: Seq<u8>,
    plaintext: Seq<u8>,
    other: Seq<u8>,
)
    requires
        holds(frame, key, plaintext),
    ensures
        opened(key, frame.nonce@, frame.ciphertext@) == Ok::<Seq<u8>, FaunaError>(plaintext),
        holds(frame, key, other) ==> other == plaintext,
        base64_bytes(frame.nonce@) is Some && base64_bytes(frame.nonce@)->0.len() == 24,
        base64_bytes(frame.ciphertext@) is Some && base64_bytes(frame.ciphertext@)->0.len()
            == plaintext.len() + 16,
{
    let nonce = choose|nonce: Seq<u8>|
        nonce.len() == 24 && #[trigger] seals_frame(frame, key, nonce, plaintext);
    base64_round_trips(nonce);
    base64_round_trips(xchacha_sealed(key, nonce, plaintext));
}

/// The JSON of a greeting is one object, in which each field stands whole under its name.
pub proof fn a_greeting_holds_each_field(hello: HelloFrame)
    ensures
        hello_json(hello)[0] == '{',
        hello_json(hello).last() == '}',
        has_part(hello_json(hello), "{\"peer_id\":"@ + json_string(hello.peer_id@)),
        has_part(hello_json(hello), ",\"display_name\":"@ + json_string(hello.display_name@)),
        has_part(
            hello_json(hello),
            ",\"identity_public_key\":"@ + json_string(hello.identity_public_key@),
        ),
        has_part(
            hello_json(hello),
            ",\"exchange_public_key\":"@ + json_string(hello.exchange_public_key@),
        ),
        has_part(hello_json(hello), ",\"signature\":"@ + json_string(hello.signature@)),
{
    let start = "{\"peer_id\":"@;
    let s1 = start + json_string(hello.peer_id@);
    let s2 = s1 + ",\"display_name\":"@;
    let s3 = s2 + json_string(hello.display_name@);
    let s4 = s3 + ",\"identity_public_key\":"@;
    let s5 = s4 + json_string(hello.identity_public_key@);
    let s6 = s5 + ",\"exchange_public_key\":"@;
    let s7 = s6 + json_string(hello.exchange_public_key@);
    let s8 = s7 + ",\"signature\":"@;
    let signature = json_string(hello.signature@) + "}"@;
    let exchange = json_string(hello.exchange_public_key@) + (",\"signature\":"@ + signature);
    let identity = json_string(hello.identity_public_key@) + (",\"exchange_public_key\":"@
        + exchange);
    let name = json_string(hello.display_name@) + (",\"identity_public_key\":"@ + identity);
    lemma_regroup(s8, json_string(hello.signature@), "}"@);
    lemma_labelled(s7, ",\"signature\":"@, json_string(hello.signature@), "}"@);
    lemma_regroup(s7, ",\"signature\":"@, signature);
    lemma_regroup(s6, json_string(hello.exchange_public_key@), ",\"signature\":"@ + signature);
    lemma_labelled(
        s5,
        ",\"exchange_public_key\":"@,
        json_string(hello.exchange_public_key@),
        ",\"signature\":"@ + signature,
    );
    lemma_regroup(s5, ",\"exchange_public_key\":"@, exchange);
    lemma_regroup(
        s4,
        json_string(hello.identity_public_key@),
        ",\"exchange_public_key\":"@ + exchange,
    );
    lemma_labelled(
        s3,
        ",\"identity_public_key\":"@,
        json_string(hello.identity_public_key@),
        ",\"exchange_public_key\":"@ + exchange,
    );
    lemma_regroup(s3, ",\"identity_public_key\":"@, identity);
    lemma_regroup(s2, json_string(hello.display_name@), ",\"identity_public_key\":"@ + identity);
    lemma_labelled(
        s1,
        ",\"display_name\":"@,
        json_string(hello.display_name@),
        ",\"identity_public_key\":"@ + identity,
    );
    lemma_regroup(s1, ",\"display_name\":"@, name);
    lemma_regroup(start, json_string(hello.peer_id@), ",\"display_name\":"@ + name);
    lemma_labelled(seq![], start, json_string(hello.peer_id@), ",\"display_name\":"@ + name);
    assert(seq![] + start =~= start);
    assert(hello_json(hello) == start + (json_string(hello.peer_id@) + (",\"display_name\":"@
        + name)));
    assert(hello_json(hello)[0] == '{' && hello_json(hello).last() == '}') by {
        reveal_strlit("{\"peer_id\":");
        reveal_strlit("}");
        assert(hello_json(hello)[0] == start[0]);
        assert(hello_json(hello).last() == "}"@.last());
    }
}

/// The JSON of a sealed chat line is one object, in which nonce and ciphertext stand whole under
/// their names.
pub proof fn a_chat_line_holds_each_field(frame: ChatFrame)
    ensures
        chat_json(frame)[0] == '{',
        chat_json(frame).last() == '}',
        has_part(chat_json(frame), "{\"nonce\":"@ + json_string(frame.nonce@)),
        has_part(chat_json(frame), ",\"ciphertext\":"@ + json_string(frame.ciphertext@)),
{
    let start = "{\"nonce\":"@;
    let label = ",\"ciphertext\":"@;
    let nonce = json_string(frame.nonce@);
    let ciphertext = json_string(frame.ciphertext@);
    lemma_labelled(start + nonce, label, ciphertext, "}"@);
    lemma_regroup(start + nonce + label, ciphertext, "}"@);
    lemma_labelled(seq![], start, nonce, label + ciphertext + "}"@);
    assert(seq![] + start =~= start);
    assert(chat_json(frame) =~= start + (nonce + (label + ciphertext + "}"@)));
    reveal_strlit("{\"nonce\":");
    reveal_strlit("}");
    assert(chat_json(frame)[0] == start[0]);
    assert(chat_json(frame).last() == "}"@.last());
}

} // verus!
