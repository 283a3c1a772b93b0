//! Tor's control protocol: commands, replies and authentication.

use vstd::prelude::*;
use vstd::utf8::encode_utf8;

use crate::digits::{
    hex_decode, hex_encode, hex_read, hex_round_trips, hex_sliceable, hex_upper, is_hex_sliceable,
    HexError,
};
use crate::primitives::{hmac_code, hmac_sha256, random_bytes};
use crate::text::{
    find_prefix, first_stripped, first_with, is_blank, is_space, is_word, join, joined,
    lemma_first_word, lemma_only_word, same_but_case, same_ignoring_case, starts_with, text_of,
    texts, the_first_with_a_prefix_is_found, trim_end, trimmed_end,
    trimming_the_end_keeps_the_rest, word_after, words,
};

verus! {

/// Why a command fails.
#[derive(Debug)]
pub enum ControlError {
    /// Tor has closed the connection.
    Closed,
    /// Tor answers with an error: the lines of the answer.
    Rejected(String),
}

/// The text that tells the user why a command fails.
pub open spec fn control_error_text(error: ControlError) -> Seq<char> {
    match error {
        ControlError::Closed => "Tor control port kapandi"@,
        ControlError::Rejected(lines) => "Tor control komutu basarisiz: "@ + lines@,
    }
}

impl ControlError {
    /// The text that tells the user why a command fails.
    pub fn message(&self) -> (res: String)
        ensures
            res@ == control_error_text(*self),
    {
        match self {
            ControlError::Closed => "Tor control port kapandi".to_owned(),
            ControlError::Rejected(lines) => {
                let mut text: String = "Tor control komutu basarisiz: ".to_owned();
                text.append(lines.as_str());
                text
            },
        }
    }
}

/// The bytes of a command, as text: the command and the end of its line.
pub fn command_line(command: &str) -> (res: String)
    ensures
        res@ == command@ + "\r\n"@,
{
    let mut line: String = command.to_owned();
    line.append("\r\n");
    line
}

/// A reply that is being read, line by line.
#[derive(Debug)]
pub struct ControlReply {
    pub lines: Vec<String>,
}

/// Where a reply stands after a line.
#[derive(Debug)]
pub enum ReplyState {
    /// More lines follow.
    Open,
    /// The reply is complete.
    Complete,
    /// The command failed.
    Failed(ControlError),
}

/// The line is the last of a reply to a command that was carried out.
pub open spec fn ends_reply(line: Seq<char>) -> bool {
    "250 "@.is_prefix_of(line)
}

/// The line says that a command failed.
pub open spec fn reports_failure(line: Seq<char>) -> bool {
    "5"@.is_prefix_of(line) || "4"@.is_prefix_of(line)
}

/// Where a reply stands after a line, over mathematical text.
pub enum ReplyProgress {
    Open,
    Complete,
    Rejected(Seq<char>),
    Closed,
}

impl View for ReplyState {
    type V = ReplyProgress;

    open spec fn view(&self) -> ReplyProgress {
        match *self {
            ReplyState::Open => ReplyProgress::Open,
            ReplyState::Complete => ReplyProgress::Complete,
            ReplyState::Failed(ControlError::Rejected(report)) => ReplyProgress::Rejected(report@),
            ReplyState::Failed(ControlError::Closed) => ReplyProgress::Closed,
        }
    }
}

/// What one more line makes of a reply: its lines, and where it stands.
pub open spec fn reply_step(read: Seq<Seq<char>>, line: Seq<char>) -> (
    Seq<Seq<char>>,
    ReplyProgress,
) {
    let text = trimmed_end(line);
    let lines = read.push(text);
    if ends_reply(text) {
        (lines, ReplyProgress::Complete)
    } else if reports_failure(text) {
        (lines, ReplyProgress::Rejected(joined(lines, " | "@)))
    } else {
        (lines, ReplyProgress::Open)
    }
}

/// What becomes of a reply on the lines that Tor still sends before it closes the connection: the
/// lines that are read, and how the reply ends.
pub open spec fn reply_outcome(read: Seq<Seq<char>>, incoming: Seq<Seq<char>>) -> (
    Seq<Seq<char>>,
    ReplyProgress,
)
    decreases incoming.len(),
{
    if incoming.len() == 0 {
        (read, ReplyProgress::Closed)
    } else {
        let (lines, progress) = reply_step(read, incoming[0]);
        if progress is Open {
            reply_outcome(lines, incoming.drop_first())
        } else {
            (lines, progress)
        }
    }
}

/// The line ends a reply, one way or the other.
pub open spec fn is_last_line(line: Seq<char>) -> bool {
    ends_reply(trimmed_end(line)) || reports_failure(trimmed_end(line))
}

/// `at` is the position of the first line that ends a reply.
pub open spec fn is_end_of_reply(incoming: Seq<Seq<char>>, at: int) -> bool {
    &&& 0 <= at < incoming.len()
    &&& is_last_line(incoming[at])
    &&& forall|i: int| 0 <= i < at ==> !is_last_line(#[trigger] incoming[i])
}

/// Lines without the whitespace at their ends.
pub open spec fn trimmed_lines(lines: Seq<Seq<char>>) -> Seq<Seq<char>> {
    Seq::new(lines.len(), |i: int| trimmed_end(lines[i]))
}

/// A reply is read up to and with the first line that, without the whitespace at its end, starts
/// with `250 `, `4` or `5`, and no further. It is complete exactly where that line starts with
/// `250 `; otherwise the command failed, and the report holds all lines that were read. Without such
/// a line the reply ends with the connection.
pub proof fn reply_is_read_to_its_last_line(incoming: Seq<Seq<char>>)
    ensures
        forall|at: int| #[trigger]
            is_end_of_reply(incoming, at) ==> {
                let lines = trimmed_lines(incoming.take(at + 1));
                reply_outcome(seq![], incoming) == (
                    lines,
                    if ends_reply(trimmed_end(incoming[at])) {
                        ReplyProgress::Complete
                    } else {
                        ReplyProgress::Rejected(joined(lines, " | "@))
                    },
                )
            },
        (forall|i: int| 0 <= i < incoming.len() ==> !is_last_line(#[trigger] incoming[i]))
            ==> reply_outcome(seq![], incoming) == (
            trimmed_lines(incoming),
            ReplyProgress::Closed,
        ),
        reply_outcome(seq![], incoming).1 is Complete <==> exists|at: int| #[trigger]
            is_end_of_reply(incoming, at) && ends_reply(trimmed_end(incoming[at])),
{
    let none = Seq::<Seq<char>>::empty();
    assert forall|at: int| #[trigger] is_end_of_reply(incoming, at) implies {
        let lines = trimmed_lines(incoming.take(at + 1));
        reply_outcome(none, incoming) == (
            lines,
            if ends_reply(trimmed_end(incoming[at])) {
                ReplyProgress::Complete
            } else {
                ReplyProgress::Rejected(joined(lines, " | "@))
            },
        )
    } by {
        lemma_reply_end(none, incoming, at);
        assert(none + trimmed_lines(incoming.take(at + 1)) =~= trimmed_lines(
            incoming.take(at + 1),
        ));
    }
    if forall|i: int| 0 <= i < incoming.len() ==> !is_last_line(#[trigger] incoming[i]) {
        lemma_reply_open(none, incoming);
        assert(none + trimmed_lines(incoming) =~= trimmed_lines(incoming));
    } else {
        let some = choose|i: int| 0 <= i < incoming.len() && is_last_line(#[trigger] incoming[i]);
        let at = lemma_first_last_line(incoming, some);
        assert forall|other: int| #[trigger] is_end_of_reply(incoming, other) implies other
            == at by {}
    }
}

/// The first line that ends a reply, where there is one.
proof fn lemma_first_last_line(incoming: Seq<Seq<char>>, some: int) -> (at: int)
    requires
        0 <= some < incoming.len(),
        is_last_line(incoming[some]),
    ensures
        is_end_of_reply(incoming, at),
    decreases some,
{
    if exists|i: int| 0 <= i < some && is_last_line(#[trigger] incoming[i]) {
        let earlier = choose|i: int| 0 <= i < some && is_last_line(#[trigger] incoming[i]);
        lemma_first_last_line(incoming, earlier)
    } else {
        some
    }
}

proof fn lemma_reply_end(read: Seq<Seq<char>>, incoming: Seq<Seq<char>>, at: int)
    requires
        is_end_of_reply(incoming, at),
    ensures
        ({
            let lines = read + trimmed_lines(incoming.take(at + 1));
            reply_outcome(read, incoming) == (
                lines,
                if ends_reply(trimmed_end(incoming[at])) {
                    ReplyProgress::Complete
                } else {
                    ReplyProgress::Rejected(joined(lines, " | "@))
                },
            )
        }),
    decreases at,
{
    let lines = read.push(trimmed_end(incoming[0]));
    if at == 0 {
        assert(lines =~= read + trimmed_lines(incoming.take(1)));
    } else {
        let rest = incoming.drop_first();
        assert(!is_last_line(incoming[0]));
        assert forall|i: int| 0 <= i < at - 1 implies !is_last_line(#[trigger] rest[i]) by {
            assert(rest[i] == incoming[i + 1]);
        }
        assert(rest[at - 1] == incoming[at]);
        lemma_reply_end(lines, rest, at - 1);
        assert(lines + trimmed_lines(rest.take(at)) =~= read + trimmed_lines(
            incoming.take(at + 1),
        ));
    }
}

proof fn lemma_reply_open(read: Seq<Seq<char>>, incoming: Seq<Seq<char>>)
    requires
        forall|i: int| 0 <= i < incoming.len() ==> !is_last_line(#[trigger] incoming[i]),
    ensures
        reply_outcome(read, incoming) == (read + trimmed_lines(incoming), ReplyProgress::Closed),
    decreases incoming.len(),
{
    if incoming.len() == 0 {
        assert(read + trimmed_lines(incoming) =~= read);
    } else {
        let rest = incoming.drop_first();
        let lines = read.push(trimmed_end(incoming[0]));
        assert(!is_last_line(incoming[0]));
        assert forall|i: int| 0 <= i < rest.len() implies !is_last_line(#[trigger] rest[i]) by {
            assert(rest[i] == incoming[i + 1]);
        }
        lemma_reply_open(lines, rest);
        assert(lines + trimmed_lines(rest) =~= read + trimmed_lines(incoming));
    }
}

impl ControlReply {
    /// A reply of which nothing has been read.
    pub fn new() -> (res: ControlReply)
        ensures
            res.lines@.len() == 0,
    {
        ControlReply { lines: Vec::new() }
    }

    /// Takes one more line, given the number of bytes that its reading took.
    pub fn push_line(&mut self, bytes: usize, line: &str) -> (res: ReplyState)
        ensures
            bytes == 0 ==> {
                &&& texts(final(self).lines@) == texts(old(self).lines@)
                &&& res@ == ReplyProgress::Closed
            },
            bytes != 0 ==> (texts(final(self).lines@), res@) == reply_step(
                texts(old(self).lines@),
                line@,
            ),
    {
        if bytes == 0 {
            return ReplyState::Failed(ControlError::Closed);
        }
        let text: &str = trim_end(line);
        let complete: bool = starts_with(text, "250 ");
        let failed: bool = starts_with(text, "5") || starts_with(text, "4");
        self.lines.push(text.to_owned());
        proof {
            assert(texts(self.lines@) =~= texts(old(self).lines@).push(text@));
        }
        if complete {
            return ReplyState::Complete;
        }
        if failed {
            return ReplyState::Failed(ControlError::Rejected(join(&self.lines, " | ")));
        }
        ReplyState::Open
    }
}

/// Why authentication fails.
#[derive(Debug)]
pub enum AuthError {
    /// Tor does not answer with a challenge.
    NoChallenge,
    /// The challenge does not hold the field with this name.
    MissingField(&'static str),
    /// The nonce in the challenge is not hexadecimal.
    ServerNonce(HexError),
    /// The authentication code cannot be computed.
    Code,
    /// Tor does not know the cookie.
    ServerHash,
}

/// The text that tells the user why authentication fails.
pub open spec fn auth_error_text(error: AuthError) -> Seq<char> {
    match error {
        AuthError::NoChallenge => "Tor SAFECOOKIE challenge donmedi"@,
        AuthError::MissingField(name) => "Tor yanitinda "@ + name@ + " alani yok"@,
        AuthError::ServerNonce(HexError::OddLength) => "hex veri tek uzunlukta"@,
        AuthError::ServerNonce(HexError::InvalidDigit) => "hex okunamadi"@,
        AuthError::Code => "Invalid Length"@,
        AuthError::ServerHash => "Tor SAFECOOKIE server hash dogrulanamadi"@,
    }
}

impl AuthError {
    /// The text that tells the user why authentication fails.
    pub fn message(&self) -> (res: String)
        ensures
            res@ == auth_error_text(*self),
    {
        match self {
            AuthError::NoChallenge => "Tor SAFECOOKIE challenge donmedi".to_owned(),
            AuthError::MissingField(name) => {
                let mut text: String = "Tor yanitinda ".to_owned();
                text.append(name);
                text.append(" alani yok");
                text
            },
            AuthError::ServerNonce(HexError::OddLength) => "hex veri tek uzunlukta".to_owned(),
            AuthError::ServerNonce(HexError::InvalidDigit) => "hex okunamadi".to_owned(),
            AuthError::Code => "Invalid Length".to_owned(),
            AuthError::ServerHash => "Tor SAFECOOKIE server hash dogrulanamadi".to_owned(),
        }
    }
}

/// The authentication code over cookie and nonces.
pub open spec fn cookie_code(
    label: Seq<u8>,
    cookie: Seq<u8>,
    client_nonce: Seq<u8>,
    server_nonce: Seq<u8>,
) -> Seq<u8> {
    hmac_sha256(label, cookie + client_nonce + server_nonce)
}

/// The authentication code over cookie and nonces.
pub fn safe_cookie_hmac(
    label: &[u8],
    cookie: &[u8],
    client_nonce: &[u8],
    server_nonce: &[u8],
) -> (res: Result<Vec<u8>, hmac::digest::InvalidLength>)
    ensures
        res is Ok,
        res->Ok_0@ == cookie_code(label@, cookie@, client_nonce@, server_nonce@),
        res->Ok_0@.len() == 32,
{
    let mut message: Vec<u8> = vstd::slice::slice_to_vec(cookie);
    message.extend_from_slice(client_nonce);
    message.extend_from_slice(server_nonce);
    proof {
        assert(message@ =~= cookie@ + client_nonce@ + server_nonce@);
    }
    let code: [u8; 32] = hmac_code(label, message.as_slice())?;
    Ok(vstd::slice::slice_to_vec(code.as_slice()))
}

/// What a field of a line holds.
pub open spec fn field_of(line: Seq<char>, name: Seq<char>) -> Option<Seq<char>> {
    first_stripped(words(line), name)
}

/// What the field with a name holds in a line: the rest of the first word that starts with it.
pub fn read_field<'a>(line: &'a str, name: &'static str) -> (res: Result<&'a str, AuthError>)
    ensures
        match res {
            Ok(value) => field_of(line@, name@) == Some(value@),
            Err(e) => field_of(line@, name@) is None && e == AuthError::MissingField(name),
        },
{
    match word_after(line, name) {
        Some(value) => Ok(value),
        None => Err(AuthError::MissingField(name)),
    }
}

/// The command that asks for a challenge.
pub open spec fn challenge_command_text(client_nonce: Seq<u8>) -> Seq<char> {
    "AUTHCHALLENGE SAFECOOKIE "@ + hex_upper(client_nonce)
}

/// The line of a reply that holds the challenge.
pub open spec fn challenge_line(lines: Seq<Seq<char>>) -> Option<Seq<char>> {
    match first_with(lines, "250 AUTHCHALLENGE"@) {
        Some(line) => Some(line),
        None => first_with(lines, "250-AUTHCHALLENGE"@),
    }
}

/// The label of the code with which Tor proves that it knows the cookie.
pub open spec fn server_label() -> Seq<u8> {
    encode_utf8("Tor safe cookie authentication server-to-controller hash"@)
}

/// The label of the code with which this side proves that it knows the cookie.
pub open spec fn client_label() -> Seq<u8> {
    encode_utf8("Tor safe cookie authentication controller-to-server hash"@)
}

/// The command that answers a challenge with the given fields.
pub open spec fn answer_to_fields(
    server_hash: Seq<char>,
    server_nonce: Seq<char>,
    cookie: Seq<u8>,
    client_nonce: Seq<u8>,
) -> Result<Seq<char>, AuthError> {
    match hex_read(server_nonce) {
        Err(e) => Err(AuthError::ServerNonce(e)),
        Ok(nonce) => if !same_but_case(
            server_hash,
            hex_upper(cookie_code(server_label(), cookie, client_nonce, nonce)),
        ) {
            Err(AuthError::ServerHash)
        } else {
            Ok(
                "AUTHENTICATE "@ + hex_upper(
                    cookie_code(client_label(), cookie, client_nonce, nonce),
                ),
            )
        },
    }
}

/// The command that answers the challenge in a reply.
pub open spec fn answer_to(
    lines: Seq<Seq<char>>,
    cookie: Seq<u8>,
    client_nonce: Seq<u8>,
) -> Result<Seq<char>, AuthError> {
    match challenge_line(lines) {
        None => Err(AuthError::NoChallenge),
        Some(line) => match field_of(line, "SERVERHASH="@) {
            None => Err(AuthError::MissingField("SERVERHASH=")),
            Some(server_hash) => match field_of(line, "SERVERNONCE="@) {
                None => Err(AuthError::MissingField("SERVERNONCE=")),
                Some(server_nonce) => answer_to_fields(
                    server_hash,
                    server_nonce,
                    cookie,
                    client_nonce,
                ),
            },
        },
    }
}

/// The nonce in the challenge of a reply, where it comes to reading it, can be cut into pairs.
pub open spec fn can_answer(lines: Seq<Seq<char>>) -> bool {
    match challenge_line(lines) {
        None => true,
        Some(line) => field_of(line, "SERVERHASH="@) is Some ==> match field_of(
            line,
            "SERVERNONCE="@,
        ) {
            None => true,
            Some(server_nonce) => hex_sliceable(server_nonce),
        },
    }
}

/// The line of a reply that holds the challenge.
fn find_challenge<'a>(lines: &'a Vec<String>) -> (res: Option<&'a str>)
    ensures
        text_of(res) == challenge_line(texts(lines@)),
{
    match find_prefix(lines, "250 AUTHCHALLENGE") {
        Some(line) => Some(line),
        None => find_prefix(lines, "250-AUTHCHALLENGE"),
    }
}

/// Whether `answer_challenge` can look at a reply.
pub fn is_answerable(lines: &Vec<String>) -> (res: bool)
    ensures
        res == can_answer(texts(lines@)),
{
    let line: &str = match find_challenge(lines) {
        Some(line) => line,
        None => {
            return true;
        },
    };
    if word_after(line, "SERVERHASH=").is_none() {
        return true;
    }
    match word_after(line, "SERVERNONCE=") {
        Some(server_nonce) => is_hex_sliceable(server_nonce),
        None => true,
    }
}

/// The command that answers the challenge in a reply, once Tor has proved that it knows the
/// cookie.
pub fn answer_challenge(lines: &Vec<String>, cookie: &[u8], client_nonce: &[u8]) -> (res: Result<
    String,
    AuthError,
>)
    requires
        can_answer(texts(lines@)),
    ensures
        match res {
            Ok(command) => answer_to(texts(lines@), cookie@, client_nonce@) == Ok::<
                Seq<char>,
                AuthError,
            >(command@),
            Err(e) => answer_to(texts(lines@), cookie@, client_nonce@) == Err::<
                Seq<char>,
                AuthError,
            >(e),
        },
{
    let line: &str = match find_challenge(lines) {
        Some(line) => line,
        None => {
            return Err(AuthError::NoChallenge);
        },
    };
    let server_hash: &str = read_field(line, "SERVERHASH=")?;
    let server_nonce_text: &str = read_field(line, "SERVERNONCE=")?;
    let server_nonce: Vec<u8> = match hex_decode(server_nonce_text) {
        Ok(bytes) => bytes,
        Err(e) => {
            return Err(AuthError::ServerNonce(e));
        },
    };
    let expected: Vec<u8> = match safe_cookie_hmac(
        "Tor safe cookie authentication server-to-controller hash".as_bytes(),
        cookie,
        client_nonce,
        server_nonce.as_slice(),
    ) {
        Ok(code) => code,
        Err(_) => {
            return Err(AuthError::Code);
        },
    };
    if !same_ignoring_case(server_hash, hex_encode(expected.as_slice()).as_str()) {
        return Err(AuthError::ServerHash);
    }
    let code: Vec<u8> = match safe_cookie_hmac(
        "Tor safe cookie authentication controller-to-server hash".as_bytes(),
        cookie,
        client_nonce,
        server_nonce.as_slice(),
    ) {
        Ok(code) => code,
        Err(_) => {
            return Err(AuthError::Code);
        },
    };
    let mut command: String = "AUTHENTICATE ".to_owned();
    command.append(hex_encode(code.as_slice()).as_str());
    Ok(command)
}

/// How far authentication has come.
#[derive(Debug, Clone, Copy, PartialEq, Eq, Structural)]
pub enum AuthStage {
    /// Tor is asked whether it needs no authentication.
    Plain,
    /// The cookie is being read.
    Cookie,
    /// A challenge is awaited.
    Challenge,
    /// The answer to the challenge is being judged.
    Answer,
    /// Nothing more is to be done.
    Finished,
}

/// What is to be done next.
#[derive(Debug)]
pub enum AuthAction {
    /// Send this command.
    Send(String),
    /// Read the cookie that Tor has stored.
    ReadCookie,
    /// Tor takes commands now.
    Authenticated,
    /// Authentication failed.
    Failed(AuthError),
}

/// What is to be done next, over mathematical text.
pub enum AuthMove {
    Send(Seq<char>),
    ReadCookie,
    Authenticated,
    Failed(AuthError),
}

impl View for AuthAction {
    type V = AuthMove;

    open spec fn view(&self) -> AuthMove {
        match *self {
            AuthAction::Send(command) => AuthMove::Send(command@),
            AuthAction::ReadCookie => AuthMove::ReadCookie,
            AuthAction::Authenticated => AuthMove::Authenticated,
            AuthAction::Failed(e) => AuthMove::Failed(e),
        }
    }
}

/// An authentication at Tor's control port.
pub struct Authentication {
    stage: AuthStage,
    cookie: Vec<u8>,
    client_nonce: Vec<u8>,
}

impl Authentication {
    /// How far the authentication has come.
    pub closed spec fn stage(&self) -> AuthStage {
        self.stage
    }

    /// The cookie that was read.
    pub closed spec fn cookie(&self) -> Seq<u8> {
        self.cookie@
    }

    /// The nonce of this side.
    pub closed spec fn client_nonce(&self) -> Seq<u8> {
        self.client_nonce@
    }

    /// How far the authentication has come.
    pub fn current_stage(&self) -> (res: AuthStage)
        ensures
            res == self.stage(),
    {
        self.stage
    }

    /// Starts an authentication: what to do first.
    pub fn start() -> (res: (Authentication, AuthAction))
        ensures
            res.0.stage() == AuthStage::Plain,
            res.1@ == AuthMove::Send("AUTHENTICATE"@),
    {
        let state = Authentication {
            stage: AuthStage::Plain,
            cookie: Vec::new(),
            client_nonce: Vec::new(),
        };
        (state, AuthAction::Send("AUTHENTICATE".to_owned()))
    }

    /// Takes the lines of the reply to the last command, or `None` where the first command, which
    /// tries without a cookie, was refused.
    pub fn replied(&mut self, reply: Option<&Vec<String>>) -> (res: AuthAction)
        requires
            match old(self).stage() {
                AuthStage::Plain => true,
                AuthStage::Challenge => reply matches Some(lines) && can_answer(texts(lines@)),
                AuthStage::Answer => reply is Some,
                _ => false,
            },
        ensures
            final(self).cookie() == old(self).cookie(),
            final(self).client_nonce() == old(self).client_nonce(),
            match old(self).stage() {
                AuthStage::Plain => if reply is Some {
                    final(self).stage() == AuthStage::Finished && res@ == AuthMove::Authenticated
                } else {
                    final(self).stage() == AuthStage::Cookie && res@ == AuthMove::ReadCookie
                },
                AuthStage::Challenge => match answer_to(
                    texts(reply->0@),
                    old(self).cookie(),
                    old(self).client_nonce(),
                ) {
                    Ok(command) => final(self).stage() == AuthStage::Answer && res@
                        == AuthMove::Send(command),
                    Err(e) => final(self).stage() == AuthStage::Finished && res@
                        == AuthMove::Failed(e),
                },
                _ => final(self).stage() == AuthStage::Finished && res@ == AuthMove::Authenticated,
            },
    {
        if let AuthStage::Plain = self.stage {
            if reply.is_none() {
                self.stage = AuthStage::Cookie;
                return AuthAction::ReadCookie;
            }
        }
        if let AuthStage::Challenge = self.stage {
            if let Some(lines) = reply {
                return match answer_challenge(
                    lines,
                    self.cookie.as_slice(),
                    self.client_nonce.as_slice(),
                ) {
                    Ok(command) => {
                        self.stage = AuthStage::Answer;
                        AuthAction::Send(command)
                    },
                    Err(e) => {
                        self.stage = AuthStage::Finished;
                        AuthAction::Failed(e)
                    },
                };
            }
        }
        self.stage = AuthStage::Finished;
        AuthAction::Authenticated
    }

    /// Takes the cookie, with a nonce from the operating system's random source.
    pub fn take_cookie(&mut self, cookie: Vec<u8>) -> (res: AuthAction)
        requires
            old(self).stage() == AuthStage::Cookie,
        ensures
            final(self).stage() == AuthStage::Challenge,
            final(self).cookie() == cookie@,
            final(self).client_nonce().len() == 32,
            res@ == AuthMove::Send(challenge_command_text(final(self).client_nonce())),
    {
        let client_nonce: [u8; 32] = random_bytes::<32>();
        self.take_cookie_with_nonce(cookie, &client_nonce)
    }

    /// Takes the cookie, with a given nonce.
    pub fn take_cookie_with_nonce(&mut self, cookie: Vec<u8>, client_nonce: &[u8; 32]) -> (res:
        AuthAction)
        requires
            old(self).stage() == AuthStage::Cookie,
        ensures
            final(self).stage() == AuthStage::Challenge,
            final(self).cookie() == cookie@,
            final(self).client_nonce() == client_nonce@,
            res@ == AuthMove::Send(challenge_command_text(client_nonce@)),
    {
        self.stage = AuthStage::Challenge;
        self.cookie = cookie;
        self.client_nonce = vstd::slice::slice_to_vec(client_nonce.as_slice());
        let mut command: String = "AUTHCHALLENGE SAFECOOKIE ".to_owned();
        command.append(hex_encode(client_nonce.as_slice()).as_str());
        AuthAction::Send(command)
    }
}

/// The code with which a Tor that knows the cookie answers a nonce of this side.
pub open spec fn honest_hash(
    cookie: Seq<u8>,
    client_nonce: Seq<u8>,
    server_nonce: Seq<u8>,
) -> Seq<u8> {
    hmac_sha256(
        encode_utf8("Tor safe cookie authentication server-to-controller hash"@),
        cookie + client_nonce + server_nonce,
    )
}

/// The code with which this side proves to Tor that it knows the cookie.
pub open spec fn honest_answer(
    cookie: Seq<u8>,
    client_nonce: Seq<u8>,
    server_nonce: Seq<u8>,
) -> Seq<u8> {
    hmac_sha256(
        encode_utf8("Tor safe cookie authentication controller-to-server hash"@),
        cookie + client_nonce + server_nonce,
    )
}

/// The fields in the challenge of a Tor that knows the cookie.
pub open spec fn honest_fields(
    cookie: Seq<u8>,
    client_nonce: Seq<u8>,
    server_nonce: Seq<u8>,
) -> Seq<char> {
    " SERVERHASH="@ + hex_upper(honest_hash(cookie, client_nonce, server_nonce))
        + " SERVERNONCE="@ + hex_upper(server_nonce)
}

/// The challenge of a Tor that knows the cookie.
pub open spec fn honest_challenge(
    cookie: Seq<u8>,
    client_nonce: Seq<u8>,
    server_nonce: Seq<u8>,
) -> Seq<char> {
    "250 AUTHCHALLENGE"@ + honest_fields(cookie, client_nonce, server_nonce)
}

/// The same challenge in a line that others follow.
pub open spec fn honest_challenge_before_others(
    cookie: Seq<u8>,
    client_nonce: Seq<u8>,
    server_nonce: Seq<u8>,
) -> Seq<char> {
    "250-AUTHCHALLENGE"@ + honest_fields(cookie, client_nonce, server_nonce)
}

/// The challenge of a Tor that knows the cookie is answered with the code that proves that this
/// side knows it too, whatever other lines stand round it in the reply, and whether or not it is the
/// last one.
pub proof fn honest_challenge_is_answered(
    before: Seq<Seq<char>>,
    after: Seq<Seq<char>>,
    cookie: Seq<u8>,
    client_nonce: Seq<u8>,
    server_nonce: Seq<u8>,
)
    requires
        forall|i: int|
            0 <= i < before.len() ==> !"250 AUTHCHALLENGE"@.is_prefix_of(#[trigger] before[i]),
    ensures
        ({
            let lines = before + seq![honest_challenge(cookie, client_nonce, server_nonce)] + after;
            &&& can_answer(lines)
            &&& answer_to(lines, cookie, client_nonce) == Ok::<Seq<char>, AuthError>(
                "AUTHENTICATE "@ + hex_upper(honest_answer(cookie, client_nonce, server_nonce)),
            )
        }),
        (forall|i: int|
            0 <= i < before.len() ==> !"250-AUTHCHALLENGE"@.is_prefix_of(#[trigger] before[i]))
            && (forall|i: int|
            0 <= i < after.len() ==> !"250 AUTHCHALLENGE"@.is_prefix_of(#[trigger] after[i])) ==> {
            let lines = before + seq![
                honest_challenge_before_others(cookie, client_nonce, server_nonce),
            ] + after;
            &&& can_answer(lines)
            &&& answer_to(lines, cookie, client_nonce) == Ok::<Seq<char>, AuthError>(
                "AUTHENTICATE "@ + hex_upper(honest_answer(cookie, client_nonce, server_nonce)),
            )
        },
{
    let fields = honest_fields(cookie, client_nonce, server_nonce);
    let hash = hex_upper(honest_hash(cookie, client_nonce, server_nonce));
    let nonce = hex_upper(server_nonce);
    lemma_honest_fields(cookie, client_nonce, server_nonce);
    hex_round_trips(server_nonce);
    the_first_with_a_prefix_is_found(before, "250 AUTHCHALLENGE"@, fields, after);
    if (forall|i: int|
        0 <= i < before.len() ==> !"250-AUTHCHALLENGE"@.is_prefix_of(#[trigger] before[i])) && (
    forall|i: int|
        0 <= i < after.len() ==> !"250 AUTHCHALLENGE"@.is_prefix_of(#[trigger] after[i])) {
        let dashed = honest_challenge_before_others(cookie, client_nonce, server_nonce);
        let lines = before + seq![dashed] + after;
        the_first_with_a_prefix_is_found(before, "250-AUTHCHALLENGE"@, fields, after);
        assert forall|i: int| 0 <= i < lines.len() implies !"250 AUTHCHALLENGE"@.is_prefix_of(
            #[trigger] lines[i],
        ) by {
            if i < before.len() {
                assert(lines[i] == before[i]);
            } else if i == before.len() {
                reveal_strlit("250 AUTHCHALLENGE");
                reveal_strlit("250-AUTHCHALLENGE");
                assert(lines[i] == dashed);
                assert(dashed[3] == '-');
                assert("250 AUTHCHALLENGE"@[3] == ' ');
            } else {
                assert(lines[i] == after[i - before.len() - 1]);
            }
        }
        the_first_with_a_prefix_is_found(lines, "250 AUTHCHALLENGE"@, seq![], seq![]);
    }
}

/// The fields of an honest challenge are read back.
proof fn lemma_honest_fields(cookie: Seq<u8>, client_nonce: Seq<u8>, server_nonce: Seq<u8>)
    ensures
        ({
            let hash = hex_upper(honest_hash(cookie, client_nonce, server_nonce));
            let nonce = hex_upper(server_nonce);
            let line = honest_challenge(cookie, client_nonce, server_nonce);
            let dashed = honest_challenge_before_others(cookie, client_nonce, server_nonce);
            &&& field_of(line, "SERVERHASH="@) == Some(hash)
            &&& field_of(line, "SERVERNONCE="@) == Some(nonce)
            &&& field_of(dashed, "SERVERHASH="@) == Some(hash)
            &&& field_of(dashed, "SERVERNONCE="@) == Some(nonce)
        }),
{
    let hash = hex_upper(honest_hash(cookie, client_nonce, server_nonce));
    let nonce = hex_upper(server_nonce);
    let line = honest_challenge(cookie, client_nonce, server_nonce);
    let dashed = honest_challenge_before_others(cookie, client_nonce, server_nonce);
    reveal_strlit("250 AUTHCHALLENGE");
    reveal_strlit("250-AUTHCHALLENGE");
    reveal_strlit(" SERVERHASH=");
    reveal_strlit(" SERVERNONCE=");
    reveal_strlit("250");
    reveal_strlit("AUTHCHALLENGE");
    reveal_strlit("SERVERHASH=");
    reveal_strlit("SERVERNONCE=");
    lemma_hex_is_word(honest_hash(cookie, client_nonce, server_nonce));
    lemma_hex_is_word(server_nonce);
    let w3 = "SERVERHASH="@ + hash;
    let w4 = "SERVERNONCE="@ + nonce;
    let fields = w3 + seq![' '] + w4;
    assert(line =~= "250"@ + seq![' '] + ("AUTHCHALLENGE"@ + seq![' '] + fields));
    assert(dashed =~= "250-AUTHCHALLENGE"@ + seq![' '] + fields);
    assert("250"@[0] == '2');
    assert("AUTHCHALLENGE"@[0] == 'A');
    assert("250-AUTHCHALLENGE"@[0] == '2');
    assert("SERVERHASH="@[0] == 'S');
    assert("SERVERNONCE="@[0] == 'S');
    assert(w3[6] == 'H');
    assert("SERVERNONCE="@[6] == 'N');
    lemma_field_behind("AUTHCHALLENGE"@, fields, "SERVERHASH="@);
    lemma_field_behind("AUTHCHALLENGE"@, fields, "SERVERNONCE="@);
    lemma_field_behind("250"@, "AUTHCHALLENGE"@ + seq![' '] + fields, "SERVERHASH="@);
    lemma_field_behind("250"@, "AUTHCHALLENGE"@ + seq![' '] + fields, "SERVERNONCE="@);
    lemma_field_behind("250-AUTHCHALLENGE"@, fields, "SERVERHASH="@);
    lemma_field_behind("250-AUTHCHALLENGE"@, fields, "SERVERNONCE="@);
    lemma_field_behind(w3, w4, "SERVERNONCE="@);
    lemma_first_word(w3, w4);
    lemma_only_word(w4);
    assert(words(fields)[0] == w3);
    assert("SERVERHASH="@.is_prefix_of(w3));
    assert(w3.skip(11) =~= hash);
    assert(words(w4)[0] == w4);
    assert("SERVERNONCE="@.is_prefix_of(w4));
    assert(w4.skip(12) =~= nonce);
}

/// A word that does not start with the name of a field is passed over.
proof fn lemma_field_behind(word: Seq<char>, rest: Seq<char>, name: Seq<char>)
    requires
        word.len() > 0,
        is_word(word),
        !name.is_prefix_of(word),
    ensures
        field_of(word + seq![' '] + rest, name) == field_of(rest, name),
{
    lemma_first_word(word, rest);
    let all = words(word + seq![' '] + rest);
    assert(all[0] == word);
    assert(all.drop_first() =~= words(rest));
}

/// Nothing is answered to a Tor that does not know the cookie: where there is an answer, a line of
/// the reply is a challenge whose hash is the code over cookie and nonces, and the answer is the
/// code of this side over the same.
pub proof fn only_an_honest_challenge_is_answered(
    lines: Seq<Seq<char>>,
    cookie: Seq<u8>,
    client_nonce: Seq<u8>,
)
    requires
        answer_to(lines, cookie, client_nonce) is Ok,
    ensures
        exists|line: Seq<char>, server_nonce: Seq<u8>| #[trigger]
            lines.contains(line) && ("250 AUTHCHALLENGE"@.is_prefix_of(line)
                || "250-AUTHCHALLENGE"@.is_prefix_of(line)) && field_of(line, "SERVERHASH="@)
                is Some && field_of(line, "SERVERNONCE="@) is Some && hex_read(
                field_of(line, "SERVERNONCE="@)->0,
            ) == Ok::<Seq<u8>, HexError>(server_nonce) && same_but_case(
                field_of(line, "SERVERHASH="@)->0,
                hex_upper(#[trigger] honest_hash(cookie, client_nonce, server_nonce)),
            ) && answer_to(lines, cookie, client_nonce)->Ok_0 == "AUTHENTICATE "@ + hex_upper(
                honest_answer(cookie, client_nonce, server_nonce),
            ),
{
    let line = challenge_line(lines)->0;
    lemma_first_with_is_there(lines, "250 AUTHCHALLENGE"@);
    lemma_first_with_is_there(lines, "250-AUTHCHALLENGE"@);
    let server_nonce = hex_read(field_of(line, "SERVERNONCE="@)->0)->Ok_0;
    assert(lines.contains(line));
    assert(honest_hash(cookie, client_nonce, server_nonce) == cookie_code(
        server_label(),
        cookie,
        client_nonce,
        server_nonce,
    ));
}

proof fn lemma_first_with_is_there(list: Seq<Seq<char>>, prefix: Seq<char>)
    ensures
        first_with(list, prefix) matches Some(line) ==> list.contains(line) && prefix.is_prefix_of(
            line,
        ),
    decreases list.len(),
{
    if list.len() > 0 {
        if prefix.is_prefix_of(list[0]) {
            assert(list.contains(list[0]));
        } else {
            let rest = list.drop_first();
            lemma_first_with_is_there(rest, prefix);
            if first_with(rest, prefix) is Some {
                let line = first_with(rest, prefix)->0;
                let i = choose|i: int| 0 <= i < rest.len() && rest[i] == line;
                assert(list[i + 1] == line);
            }
        }
    }
}

/// The command that asks for a challenge holds the whole nonce, in hexadecimal.
pub proof fn the_challenge_command_holds_the_nonce(client_nonce: Seq<u8>)
    ensures
        exists|digits: Seq<char>|
            challenge_command_text(client_nonce) == "AUTHCHALLENGE SAFECOOKIE "@ + digits
                && #[trigger] hex_read(digits) == Ok::<Seq<u8>, HexError>(client_nonce),
{
    hex_round_trips(client_nonce);
    assert(hex_read(hex_upper(client_nonce)) == Ok::<Seq<u8>, HexError>(client_nonce));
}

/// The first characters of a line decide what becomes of a reply, whatever follows them and
/// whatever whitespace stands at the end: `250 ` completes it, `4` and `5` reject it with all lines
/// that were read, and it stays open behind any other line.
pub proof fn the_first_characters_decide(read: Seq<Seq<char>>, text: Seq<char>, after: Seq<char>)
    requires
        text.len() > 0 ==> !is_space(text.last()),
        is_blank(after),
    ensures
        ({
            let completes = text.len() >= 4 && text[0] == '2' && text[1] == '5' && text[2] == '0'
                && text[3] == ' ';
            let rejects = text.len() > 0 && (text[0] == '4' || text[0] == '5');
            reply_step(read, text + after) == (
                read.push(text),
                if completes {
                    ReplyProgress::Complete
                } else if rejects {
                    ReplyProgress::Rejected(joined(read.push(text), " | "@))
                } else {
                    ReplyProgress::Open
                },
            )
        }),
{
    trimming_the_end_keeps_the_rest(text, after);
    reveal_strlit("250 ");
    reveal_strlit("4");
    reveal_strlit("5");
    let start = "250 "@;
    assert(start[0] == '2' && start[1] == '5' && start[2] == '0' && start[3] == ' ');
    if text.len() >= 4 && text[0] == '2' && text[1] == '5' && text[2] == '0' && text[3] == ' ' {
        assert(start =~= text.take(4));
        assert(start.is_prefix_of(text));
    }
    if start.is_prefix_of(text) {
        assert(forall|i: int| 0 <= i < 4 ==> start[i] == #[trigger] text[i]);
    }
    assert("4"@[0] == '4');
    assert("5"@[0] == '5');
    if text.len() > 0 {
        assert("4"@.is_prefix_of(text) <==> text[0] == '4') by {
            if text[0] == '4' {
                assert("4"@ =~= text.take(1));
            }
        }
        assert("5"@.is_prefix_of(text) <==> text[0] == '5') by {
            if text[0] == '5' {
                assert("5"@ =~= text.take(1));
            }
        }
    }
}

/// The challenge of a Tor that knows the cookie, alone on its line, completes the reply, and the
/// reply is answered.
pub proof fn an_honest_challenge_completes_the_reply(
    cookie: Seq<u8>,
    client_nonce: Seq<u8>,
    server_nonce: Seq<u8>,
)
    ensures
        ({
            let challenge = honest_challenge(cookie, client_nonce, server_nonce);
            let (lines, progress) = reply_outcome(seq![], seq![challenge + seq!['\r', '\n']]);
            &&& progress is Complete
            &&& lines == seq![challenge]
            &&& can_answer(lines)
            &&& answer_to(lines, cookie, client_nonce) == Ok::<Seq<char>, AuthError>(
                "AUTHENTICATE "@ + hex_upper(honest_answer(cookie, client_nonce, server_nonce)),
            )
        }),
{
    let challenge = honest_challenge(cookie, client_nonce, server_nonce);
    let nonce = hex_upper(server_nonce);
    reveal_strlit("250 AUTHCHALLENGE");
    reveal_strlit(" SERVERNONCE=");
    lemma_hex_is_word(server_nonce);
    assert(challenge.len() >= 17);
    assert(!is_space(challenge.last())) by {
        if nonce.len() > 0 {
            assert(challenge.last() == nonce.last());
            assert(!is_space(nonce[nonce.len() - 1]));
        } else {
            assert(challenge.last() == " SERVERNONCE="@.last());
        }
    }
    the_first_characters_decide(seq![], challenge, seq!['\r', '\n']);
    let incoming = seq![challenge + seq!['\r', '\n']];
    assert(incoming[0] == challenge + seq!['\r', '\n']);
    assert(seq![].push(challenge) =~= seq![challenge]);
    honest_challenge_is_answered(seq![], seq![], cookie, client_nonce, server_nonce);
    assert(seq![] + seq![challenge] + seq![] =~= seq![challenge]);
}

proof fn lemma_hex_is_word(bytes: Seq<u8>)
    ensures
        is_word(hex_upper(bytes)),
{
}

/// The views of actions and replies hold their texts whole.
pub proof fn views_hold_actions_whole(text: String, error: AuthError)
    ensures
        AuthAction::Send(text)@ == AuthMove::Send(text@),
        AuthAction::ReadCookie@ == AuthMove::ReadCookie,
        AuthAction::Authenticated@ == AuthMove::Authenticated,
        AuthAction::Failed(error)@ == AuthMove::Failed(error),
        ReplyState::Open@ == ReplyProgress::Open,
        ReplyState::Complete@ == ReplyProgress::Complete,
        ReplyState::Failed(ControlError::Rejected(text))@ == ReplyProgress::Rejected(text@),
        ReplyState::Failed(ControlError::Closed)@ == ReplyProgress::Closed,
        control_error_text(ControlError::Rejected(text)) == "Tor control komutu basarisiz: "@
            + text@,
{
}

/// What is told of a missing field names it.
pub proof fn a_missing_field_is_named(name: &'static str)
    ensures
        auth_error_text(AuthError::MissingField(name)) == "Tor yanitinda "@ + name@
            + " alani yok"@,
{
}

} // verus!
