//! Onion services, and the Tor process that carries them.

use vstd::prelude::*;

use crate::digits::{decimal, decimal_round_trips, decimal_text, is_digit, port_value};
use crate::invite::lemma_number_prefix;
use crate::json::lemma_same_rest;
use crate::text::{
    a_found_part_stands_there, a_part_is_found, any_contains, any_with_part, find_stripped,
    first_stripped, has_part, is_blank, is_core, occurs_at, text_of, texts,
    the_first_with_a_prefix_is_found, trim, trimmed, trimming_keeps_the_core,
};

verus! {

/// An onion service that Tor has published.
#[derive(Debug)]
pub struct OnionService {
    pub service_id: String,
}

/// Why an onion service is not published.
#[derive(Debug, Clone, Copy, PartialEq, Eq, Structural)]
pub enum TorError {
    /// Tor does not tell the id of the service.
    NoServiceId,
}

impl TorError {
    /// The text that tells the user why an onion service is not published.
    pub fn message(&self) -> (res: &'static str)
        ensures
            res@ == "Tor onion service id donmedi"@,
    {
        "Tor onion service id donmedi"
    }
}

/// The command that publishes a local address as a port of a new onion service.
pub open spec fn add_onion_text(virtual_port: u16, local_addr: Seq<char>) -> Seq<char> {
    "ADD_ONION NEW:ED25519-V3 Port="@ + decimal(virtual_port as nat) + ","@ + local_addr
}

/// The command that publishes a local address as a port of a new onion service.
pub fn add_onion_command(virtual_port: u16, local_addr: &str) -> (res: String)
    ensures
        res@ == add_onion_text(virtual_port, local_addr@),
{
    let mut command: String = "ADD_ONION NEW:ED25519-V3 Port=".to_owned();
    command.append(decimal_text(virtual_port as u64).as_str());
    command.append(",");
    command.append(local_addr);
    command
}

/// The host name of the service that a reply announces: in the first line that names an id.
pub open spec fn announced_service(lines: Seq<Seq<char>>) -> Option<Seq<char>> {
    match first_stripped(lines, "250-ServiceID="@) {
        Some(id) => Some(trimmed(id) + ".onion"@),
        None => None,
    }
}

/// The onion service that the reply to `add_onion_command` announces.
pub fn publish_onion_service(lines: &Vec<String>) -> (res: Result<OnionService, TorError>)
    ensures
        match res {
            Ok(service) => announced_service(texts(lines@)) == Some(service.service_id@)
                && has_part(service.service_id@, ".onion"@),
            Err(e) => announced_service(texts(lines@)) is None && e == TorError::NoServiceId,
        },
{
    let id: &str = match find_stripped(lines, "250-ServiceID=") {
        Some(rest) => trim(rest),
        None => {
            return Err(TorError::NoServiceId);
        },
    };
    let mut service_id: String = id.to_owned();
    service_id.append(".onion");
    proof {
        let at = id@.len() as int;
        assert(service_id@.subrange(at, at + ".onion"@.len()) =~= ".onion"@);
        assert(occurs_at(service_id@, ".onion"@, at));
    }
    Ok(OnionService { service_id })
}

/// A reply to the question for the bootstrap phase says that Tor is ready.
pub open spec fn tells_ready(lines: Seq<Seq<char>>) -> bool {
    any_with_part(lines, "PROGRESS=100"@) || any_with_part(lines, "SUMMARY=\"Done\""@)
}

/// Whether a reply to the question for the bootstrap phase says that Tor is ready.
pub fn bootstrap_done(lines: &Vec<String>) -> (res: bool)
    ensures
        res == tells_ready(texts(lines@)),
{
    any_contains(lines, "PROGRESS=100") || any_contains(lines, "SUMMARY=\"Done\"")
}

/// The question for the bootstrap phase.
pub fn bootstrap_command() -> (res: &'static str)
    ensures
        res@ == "GETINFO status/bootstrap-phase"@,
{
    "GETINFO status/bootstrap-phase"
}

/// How often something is tried, and for how long.
#[derive(Debug, Clone, Copy, PartialEq, Eq, Structural)]
pub struct RetryPlan {
    /// No attempt starts when this much time has passed, in nanoseconds.
    pub timeout: u128,
    /// The pause behind an attempt that failed, in milliseconds.
    pub pause: u64,
}

/// What has happened.
#[derive(Debug, Clone, Copy, PartialEq, Eq, Structural)]
pub enum RetryEvent {
    /// So many nanoseconds have passed since the start, and no attempt is running.
    Clock(u128),
    /// The attempt succeeded.
    Succeeded,
    /// The attempt failed.
    Failed,
}

/// What is to be done next.
#[derive(Debug, Clone, Copy, PartialEq, Eq, Structural)]
pub enum RetryAction {
    /// Try.
    Attempt,
    /// Wait so many milliseconds, and look at the clock.
    Pause(u64),
    /// Stop, with success.
    Succeed,
    /// Stop, without success.
    GiveUp,
}

/// A number of seconds in nanoseconds.
pub open spec fn nanoseconds(seconds: u64) -> u128 {
    (seconds * 1_000_000_000) as u128
}

impl RetryPlan {
    /// The plan for a local port that is about to open.
    pub fn for_port(seconds: u64) -> (res: RetryPlan)
        ensures
            res == (RetryPlan { timeout: nanoseconds(seconds), pause: 250 }),
    {
        RetryPlan { timeout: seconds as u128 * 1_000_000_000, pause: 250 }
    }

    /// The plan for Tor's connection to its network.
    pub fn for_bootstrap(seconds: u64) -> (res: RetryPlan)
        ensures
            res == (RetryPlan { timeout: nanoseconds(seconds), pause: 1000 }),
    {
        RetryPlan { timeout: seconds as u128 * 1_000_000_000, pause: 1000 }
    }

    /// The plan for a connection to an onion service.
    pub fn for_onion(timeout: u128) -> (res: RetryPlan)
        ensures
            res == (RetryPlan { timeout, pause: 2000 }),
    {
        RetryPlan { timeout, pause: 2000 }
    }

    /// What is to be done next. An attempt starts only while the time has not run out.
    pub fn next(&self, event: RetryEvent) -> (res: RetryAction)
        ensures
            res == match event {
                RetryEvent::Clock(elapsed) => if elapsed < self.timeout {
                    RetryAction::Attempt
                } else {
                    RetryAction::GiveUp
                },
                RetryEvent::Succeeded => RetryAction::Succeed,
                RetryEvent::Failed => RetryAction::Pause(self.pause),
            },
    {
        match event {
            RetryEvent::Clock(elapsed) => if elapsed < self.timeout {
                RetryAction::Attempt
            } else {
                RetryAction::GiveUp
            },
            RetryEvent::Succeeded => RetryAction::Succeed,
            RetryEvent::Failed => RetryAction::Pause(self.pause),
        }
    }
}

/// The text that tells the user that an onion service was not reached.
pub fn onion_unreached_message(host: &str, port: u16) -> (res: String)
    ensures
        res@ == host@ + ":"@ + decimal(port as nat)
            + " onion adresine Tor uzerinden baglanilamadi"@,
{
    let mut text: String = host.to_owned();
    text.append(":");
    text.append(decimal_text(port as u64).as_str());
    text.append(" onion adresine Tor uzerinden baglanilamadi");
    text
}

/// The address of a port of this computer.
pub open spec fn local_address_text(port: u16) -> Seq<char> {
    "127.0.0.1:"@ + decimal(port as nat)
}

/// The address of a port of this computer.
pub fn local_address(port: u16) -> (res: String)
    ensures
        res@ == local_address_text(port),
{
    let mut text: String = "127.0.0.1:".to_owned();
    text.append(decimal_text(port as u64).as_str());
    text
}

/// The name of the directory in which the Tor of the process with a number keeps its data.
pub fn data_directory_name(process: u32) -> (res: String)
    ensures
        res@ == "fauna-tor-"@ + decimal(process as nat),
{
    let mut text: String = "fauna-tor-".to_owned();
    text.append(decimal_text(process as u64).as_str());
    text
}

/// An argument of the Tor program.
#[derive(Debug)]
pub enum TorArgument {
    /// This text.
    Text(String),
    /// The path of the directory in which Tor keeps its data.
    DataDirectory,
}

/// An argument of the Tor program, over mathematical text.
pub enum TorWord {
    Text(Seq<char>),
    DataDirectory,
}

impl View for TorArgument {
    type V = TorWord;

    open spec fn view(&self) -> TorWord {
        match *self {
            TorArgument::Text(text) => TorWord::Text(text@),
            TorArgument::DataDirectory => TorWord::DataDirectory,
        }
    }
}

/// The arguments with which Tor is started.
pub open spec fn tor_words(socks_port: u16, control_port: u16) -> Seq<TorWord> {
    seq![
        TorWord::Text("--SocksPort"@),
        TorWord::Text(local_address_text(socks_port)),
        TorWord::Text("--ControlPort"@),
        TorWord::Text(local_address_text(control_port)),
        TorWord::Text("--CookieAuthentication"@),
        TorWord::Text("0"@),
        TorWord::Text("--DataDirectory"@),
        TorWord::DataDirectory,
        TorWord::Text("--AvoidDiskWrites"@),
        TorWord::Text("1"@),
    ]
}

/// The arguments with which Tor is started.
pub fn tor_arguments(socks_port: u16, control_port: u16) -> (res: Vec<TorArgument>)
    ensures
        Seq::new(res@.len(), |i: int| res@[i]@) == tor_words(socks_port, control_port),
{
    let res: Vec<TorArgument> = vec![
        TorArgument::Text("--SocksPort".to_owned()),
        TorArgument::Text(local_address(socks_port)),
        TorArgument::Text("--ControlPort".to_owned()),
        TorArgument::Text(local_address(control_port)),
        TorArgument::Text("--CookieAuthentication".to_owned()),
        TorArgument::Text("0".to_owned()),
        TorArgument::Text("--DataDirectory".to_owned()),
        TorArgument::DataDirectory,
        TorArgument::Text("--AvoidDiskWrites".to_owned()),
        TorArgument::Text("1".to_owned()),
    ];
    proof {
        assert(Seq::new(res@.len(), |i: int| res@[i]@) =~= tor_words(socks_port, control_port));
    }
    res
}

/// What a Tor that was started is waited for, in this order.
#[derive(Debug, Clone, Copy, PartialEq, Eq, Structural)]
pub enum LaunchStage {
    /// Its proxy port.
    SocksPort,
    /// Its control port.
    ControlPort,
    /// Its connection to the network.
    Bootstrap,
}

impl LaunchStage {
    /// How long to try, and how often.
    pub fn plan(&self) -> (res: RetryPlan)
        ensures
            res == match *self {
                LaunchStage::SocksPort => RetryPlan { timeout: nanoseconds(45), pause: 250 },
                LaunchStage::ControlPort => RetryPlan { timeout: nanoseconds(10), pause: 250 },
                LaunchStage::Bootstrap => RetryPlan { timeout: nanoseconds(90), pause: 1000 },
            },
    {
        match self {
            LaunchStage::SocksPort => RetryPlan::for_port(45),
            LaunchStage::ControlPort => RetryPlan::for_port(10),
            LaunchStage::Bootstrap => RetryPlan::for_bootstrap(90),
        }
    }

    /// The stage that follows.
    pub fn following(&self) -> (res: Option<LaunchStage>)
        ensures
            res == match *self {
                LaunchStage::SocksPort => Some(LaunchStage::ControlPort),
                LaunchStage::ControlPort => Some(LaunchStage::Bootstrap),
                LaunchStage::Bootstrap => None,
            },
    {
        match self {
            LaunchStage::SocksPort => Some(LaunchStage::ControlPort),
            LaunchStage::ControlPort => Some(LaunchStage::Bootstrap),
            LaunchStage::Bootstrap => None,
        }
    }

    /// The text that tells the user that this stage was not reached.
    pub fn failure_message(&self, socks_addr: &str, control_addr: &str) -> (res: String)
        ensures
            res@ == match *self {
                LaunchStage::SocksPort => "Tor SOCKS port hazir olmadi: "@ + socks_addr@,
                LaunchStage::ControlPort => "Tor control port hazir olmadi: "@ + control_addr@,
                LaunchStage::Bootstrap => "Tor ag baglantisi hazir olmadi"@,
            },
    {
        match self {
            LaunchStage::SocksPort => {
                let mut text: String = "Tor SOCKS port hazir olmadi: ".to_owned();
                text.append(socks_addr);
                text
            },
            LaunchStage::ControlPort => {
                let mut text: String = "Tor control port hazir olmadi: ".to_owned();
                text.append(control_addr);
                text
            },
            LaunchStage::Bootstrap => "Tor ag baglantisi hazir olmadi".to_owned(),
        }
    }
}

/// Where the Tor program may be.
#[derive(Debug)]
pub enum TorPath {
    /// At the path that the user gives.
    Given(String),
    /// At this path under the directory of the running program.
    Beside(String),
    /// At this path, or under this name on the search path.
    Plain(String),
}

/// Where the Tor program may be, over mathematical text.
pub enum TorPlace {
    Given(Seq<char>),
    Beside(Seq<char>),
    Plain(Seq<char>),
}

impl View for TorPath {
    type V = TorPlace;

    open spec fn view(&self) -> TorPlace {
        match *self {
            TorPath::Given(path) => TorPlace::Given(path@),
            TorPath::Beside(path) => TorPlace::Beside(path@),
            TorPath::Plain(path) => TorPlace::Plain(path@),
        }
    }
}

/// The views of a list of places.
pub open spec fn places(list: Seq<TorPath>) -> Seq<TorPlace> {
    Seq::new(list.len(), |i: int| list[i]@)
}

/// Where a package holds the Tor program.
pub open spec fn bundled(windows: bool) -> Seq<Seq<char>> {
    if windows {
        seq!["bin/tor/tor.exe"@, "tor/tor.exe"@, "Browser/TorBrowser/Tor/tor.exe"@]
    } else {
        seq!["bin/tor/tor"@, "tor/tor"@]
    }
}

/// Where a package holds the Tor program.
pub fn bundled_tor_candidates(windows: bool) -> (res: Vec<&'static str>)
    ensures
        Seq::new(res@.len(), |i: int| res@[i]@) == bundled(windows),
{
    let res: Vec<&'static str> = if windows {
        vec!["bin/tor/tor.exe", "tor/tor.exe", "Browser/TorBrowser/Tor/tor.exe"]
    } else {
        vec!["bin/tor/tor", "tor/tor"]
    };
    proof {
        assert(Seq::new(res@.len(), |i: int| res@[i]@) =~= bundled(windows));
    }
    res
}

/// Where the Tor program is looked for, in this order: where the user says, beside the running
/// program where its directory is known, and in the current directory.
pub open spec fn searched_places(
    hint: Option<Seq<char>>,
    app_dir_known: bool,
    windows: bool,
) -> Seq<TorPlace> {
    let given: Seq<TorPlace> = match hint {
        Some(path) => seq![TorPlace::Given(path)],
        None => seq![],
    };
    let beside: Seq<TorPlace> = if app_dir_known {
        bundled(windows).map_values(|path: Seq<char>| TorPlace::Beside(path))
    } else {
        seq![]
    };
    given + beside + bundled(windows).map_values(|path: Seq<char>| TorPlace::Plain(path))
}

/// Where the Tor program is looked for.
pub fn tor_candidates(hint: Option<&str>, app_dir_known: bool, windows: bool) -> (res: Vec<TorPath>)
    ensures
        places(res@) == searched_places(text_of(hint), app_dir_known, windows),
{
    let mut res: Vec<TorPath> = Vec::new();
    if let Some(path) = hint {
        res.push(TorPath::Given(path.to_owned()));
    }
    let ghost given = places(res@);
    let names = bundled_tor_candidates(windows);
    let ghost all = Seq::new(names@.len(), |i: int| names@[i]@);
    if app_dir_known {
        let mut i: usize = 0;
        while i < names.len()
            invariant
                i <= names.len(),
                all == Seq::new(names@.len(), |i: int| names@[i]@),
                places(res@) == given + all.take(i as int).map_values(
                    |path: Seq<char>| TorPlace::Beside(path),
                ),
            decreases names.len() - i,
        {
            let ghost before = places(res@);
            res.push(TorPath::Beside(names[i].to_owned()));
            i += 1;
            proof {
                assert(places(res@) =~= before.push(TorPlace::Beside(all[i - 1])));
                assert(places(res@) =~= given + all.take(i as int).map_values(
                    |path: Seq<char>| TorPlace::Beside(path),
                ));
            }
        }
        proof {
            assert(all.take(i as int) =~= all);
        }
    }
    let ghost beside = places(res@);
    let mut i: usize = 0;
    proof {
        assert(places(res@) =~= beside + all.take(0).map_values(
            |path: Seq<char>| TorPlace::Plain(path),
        ));
    }
    while i < names.len()
        invariant
            i <= names.len(),
            all == Seq::new(names@.len(), |i: int| names@[i]@),
            places(res@) == beside + all.take(i as int).map_values(
                |path: Seq<char>| TorPlace::Plain(path),
            ),
        decreases names.len() - i,
    {
        let ghost before = places(res@);
        res.push(TorPath::Plain(names[i].to_owned()));
        i += 1;
        proof {
            assert(places(res@) =~= before.push(TorPlace::Plain(all[i - 1])));
            assert(places(res@) =~= beside + all.take(i as int).map_values(
                |path: Seq<char>| TorPlace::Plain(path),
            ));
        }
    }
    proof {
        assert(all.take(i as int) =~= all);
        assert(places(res@) =~= searched_places(
            text_of(hint),
            app_dir_known,
            windows,
        ));
    }
    res
}

/// `at` is the first position that holds `true`.
pub open spec fn is_first_true(flags: Seq<bool>, at: int) -> bool {
    0 <= at < flags.len() && flags[at] && forall|j: int| 0 <= j < at ==> !#[trigger] flags[j]
}

/// The first position that holds `true`: which of several files is the first that exists.
pub fn first_existing(exists_at: &Vec<bool>) -> (res: Option<usize>)
    ensures
        match res {
            Some(at) => is_first_true(exists_at@, at as int),
            None => forall|j: int| 0 <= j < exists_at@.len() ==> !#[trigger] exists_at@[j],
        },
{
    let mut i: usize = 0;
    while i < exists_at.len()
        invariant
            i <= exists_at.len(),
            forall|j: int| 0 <= j < i ==> !#[trigger] exists_at@[j],
        decreases exists_at.len() - i,
    {
        if exists_at[i] {
            return Some(i);
        }
        i += 1;
    }
    None
}

/// The Tor program: the first candidate that exists, or the command `tor`.
pub fn find_tor_executable(candidates: Vec<TorPath>, exists_at: &Vec<bool>) -> (res: TorPath)
    requires
        candidates@.len() == exists_at@.len(),
    ensures
        forall|at: int| #[trigger]
            is_first_true(exists_at@, at) ==> res@ == candidates@[at]@,
        (forall|j: int| 0 <= j < exists_at@.len() ==> !#[trigger] exists_at@[j]) ==> res@
            == TorPlace::Plain("tor"@),
{
    match first_existing(exists_at) {
        Some(at) => {
            let mut candidates = candidates;
            proof {
                assert forall|other: int| #[trigger]
                    is_first_true(exists_at@, other) implies other == at by {}
            }
            candidates.remove(at)
        },
        None => TorPath::Plain("tor".to_owned()),
    }
}

/// The service that a reply announces has the id in the first line that begins with
/// `250-ServiceID=`, whole and without the whitespace round it, however long it is, and whatever
/// other lines stand in the reply.
pub proof fn the_service_has_the_announced_id(
    before: Seq<Seq<char>>,
    left: Seq<char>,
    id: Seq<char>,
    right: Seq<char>,
    after: Seq<Seq<char>>,
)
    requires
        forall|i: int| 0 <= i < before.len() ==> !"250-ServiceID="@.is_prefix_of(#[trigger] before[i]),
        is_blank(left),
        is_core(id),
        is_blank(right),
    ensures
        announced_service(before + seq!["250-ServiceID="@ + (left + id + right)] + after) == Some(
            id + ".onion"@,
        ),
        announced_service(before + seq!["250-ServiceID="@ + id] + after) == Some(id + ".onion"@),
        announced_service(before) is None,
{
    the_first_with_a_prefix_is_found(before, "250-ServiceID="@, left + id + right, after);
    trimming_keeps_the_core(left, id, right);
    the_first_with_a_prefix_is_found(before, "250-ServiceID="@, id, after);
    trimming_keeps_the_core(seq![], id, seq![]);
    assert(seq![] + id + seq![] =~= id);
}

/// A line with `PROGRESS=100` in it says that Tor is ready, whatever else the reply holds, and so
/// does a line with `SUMMARY="Done"`.
pub proof fn either_sign_tells_that_tor_is_ready(
    before: Seq<Seq<char>>,
    left: Seq<char>,
    right: Seq<char>,
    after: Seq<Seq<char>>,
)
    ensures
        tells_ready(before + seq![left + "PROGRESS=100"@ + right] + after),
        tells_ready(before + seq![left + "SUMMARY=\"Done\""@ + right] + after),
{
    let progress = before + seq![left + "PROGRESS=100"@ + right] + after;
    let summary = before + seq![left + "SUMMARY=\"Done\""@ + right] + after;
    let at = before.len() as int;
    a_part_is_found(left, "PROGRESS=100"@, right);
    a_part_is_found(left, "SUMMARY=\"Done\""@, right);
    assert(has_part(progress[at], "PROGRESS=100"@));
    assert(has_part(summary[at], "SUMMARY=\"Done\""@));
}

/// A reply without either sign does not say that Tor is ready.
pub proof fn without_a_sign_tor_is_not_ready(lines: Seq<Seq<char>>)
    requires
        forall|i: int, left: Seq<char>, right: Seq<char>|
            0 <= i < lines.len() ==> #[trigger] lines[i] != #[trigger] (left + "PROGRESS=100"@
                + right),
        forall|i: int, left: Seq<char>, right: Seq<char>|
            0 <= i < lines.len() ==> #[trigger] lines[i] != #[trigger] (left + "SUMMARY=\"Done\""@
                + right),
    ensures
        !tells_ready(lines),
{
    if any_with_part(lines, "PROGRESS=100"@) {
        let i = choose|i: int| 0 <= i < lines.len() && has_part(#[trigger] lines[i], "PROGRESS=100"@);
        a_found_part_stands_there(lines[i], "PROGRESS=100"@);
        let (left, right) = choose|left: Seq<char>, right: Seq<char>|
            lines[i] == #[trigger] (left + "PROGRESS=100"@ + right);
        assert(lines[i] != left + "PROGRESS=100"@ + right);
    }
    if any_with_part(lines, "SUMMARY=\"Done\""@) {
        let i = choose|i: int|
            0 <= i < lines.len() && has_part(#[trigger] lines[i], "SUMMARY=\"Done\""@);
        a_found_part_stands_there(lines[i], "SUMMARY=\"Done\""@);
        let (left, right) = choose|left: Seq<char>, right: Seq<char>|
            lines[i] == #[trigger] (left + "SUMMARY=\"Done\""@ + right);
        assert(lines[i] != left + "SUMMARY=\"Done\""@ + right);
    }
}

/// The command that publishes a service names its port and the local address whole: two commands
/// are the same only where both are.
pub proof fn the_command_names_port_and_address(
    port: u16,
    address: Seq<char>,
    other_port: u16,
    other_address: Seq<char>,
)
    ensures
        add_onion_text(port, address) == add_onion_text(other_port, other_address) ==> port
            == other_port && address == other_address,
        "ADD_ONION NEW:ED25519-V3 Port="@.is_prefix_of(add_onion_text(port, address)),
        add_onion_text(port, address).len() == "ADD_ONION NEW:ED25519-V3 Port="@.len() + decimal(
            port as nat,
        ).len() + 1 + address.len(),
{
    reveal_strlit(",");
    let start = "ADD_ONION NEW:ED25519-V3 Port="@;
    let rest = decimal(port as nat) + (","@ + address);
    let other_rest = decimal(other_port as nat) + (","@ + other_address);
    assert(add_onion_text(port, address) =~= start + rest);
    assert(add_onion_text(other_port, other_address) =~= start + other_rest);
    assert(start.is_prefix_of(start + rest));
    if add_onion_text(port, address) == add_onion_text(other_port, other_address) {
        lemma_same_rest(start, rest, other_rest);
        assert((","@ + address)[0] == ',');
        assert((","@ + other_address)[0] == ',');
        lemma_number_prefix(
            port as nat,
            ","@ + address,
            other_port as nat,
            ","@ + other_address,
        );
        lemma_same_rest(","@, address, other_address);
    }
}

/// The address of a port of this computer is `127.0.0.1`, a colon and that port, and nothing else.
pub proof fn a_local_address_names_its_port(port: u16)
    ensures
        exists|digits: Seq<char>|
            local_address_text(port) == seq!['1', '2', '7', '.', '0', '.', '0', '.', '1', ':']
                + digits && #[trigger] port_value(digits) == Some(port) && digits[0] != '+',
{
    reveal_strlit("127.0.0.1:");
    assert("127.0.0.1:"@ =~= seq!['1', '2', '7', '.', '0', '.', '0', '.', '1', ':']);
    decimal_round_trips(port as nat);
    assert(is_digit(decimal(port as nat)[0]));
    assert(port_value(decimal(port as nat)) == Some(port));
}

/// Tor is told each of its two ports behind the option for it, and to keep its data in its own
/// directory.
pub proof fn tor_is_told_its_ports(socks_port: u16, control_port: u16)
    ensures
        ({
            let words = tor_words(socks_port, control_port);
            &&& words.len() == 10
            &&& words[0] == TorWord::Text("--SocksPort"@)
            &&& words[1] == TorWord::Text("127.0.0.1:"@ + decimal(socks_port as nat))
            &&& words[2] == TorWord::Text("--ControlPort"@)
            &&& words[3] == TorWord::Text("127.0.0.1:"@ + decimal(control_port as nat))
            &&& words[6] == TorWord::Text("--DataDirectory"@)
            &&& words[7] is DataDirectory
            &&& tor_words(control_port, socks_port) == words.update(1, words[3]).update(
                3,
                words[1],
            )
        }),
{
    let words = tor_words(socks_port, control_port);
    assert(tor_words(control_port, socks_port) =~= words.update(1, words[3]).update(3, words[1]));
}

/// The path that the user gives is looked at first; behind it come the places beside the running
/// program, where they are known; and behind these the same places in the current directory, to the
/// last.
pub proof fn places_are_searched_in_order(
    hint: Option<Seq<char>>,
    app_dir_known: bool,
    windows: bool,
)
    ensures
        ({
            let all = searched_places(hint, app_dir_known, windows);
            let given: int = if hint is Some {
                1
            } else {
                0
            };
            let count = bundled(windows).len() as int;
            let beside: int = if app_dir_known {
                count
            } else {
                0
            };
            &&& count == if windows {
                3int
            } else {
                2int
            }
            &&& all.len() == given + beside + count
            &&& hint is Some ==> all[0] == TorPlace::Given(hint->0)
            &&& forall|i: int|
                0 <= i < beside ==> #[trigger] all[given + i] == TorPlace::Beside(
                    bundled(windows)[i],
                )
            &&& forall|i: int|
                0 <= i < count ==> #[trigger] all[given + beside + i] == TorPlace::Plain(
                    bundled(windows)[i],
                )
        }),
{
}

/// The views of arguments and places hold their texts whole, each in its place.
pub proof fn views_hold_places_whole(list: Seq<TorPath>, text: String)
    ensures
        TorArgument::Text(text)@ == TorWord::Text(text@),
        TorArgument::DataDirectory@ == TorWord::DataDirectory,
        TorPath::Given(text)@ == TorPlace::Given(text@),
        TorPath::Beside(text)@ == TorPlace::Beside(text@),
        TorPath::Plain(text)@ == TorPlace::Plain(text@),
        places(list).len() == list.len(),
        forall|i: int| 0 <= i < list.len() ==> #[trigger] places(list)[i] == list[i]@,
{
}

/// The first `true` is found wherever it stands, and there is only one.
pub proof fn the_first_true_is_found(before: nat, after: Seq<bool>, at: int)
    ensures
        is_first_true(Seq::new(before, |i: int| false) + seq![true] + after, at) <==> at == before,
        !is_first_true(Seq::new(before, |i: int| false), at),
{
    let flags = Seq::new(before, |i: int| false) + seq![true] + after;
    assert(flags[before as int]);
}

/// A second has a thousand million nanoseconds, for every number of seconds.
pub proof fn seconds_are_counted_in_nanoseconds(seconds: u64)
    ensures
        nanoseconds(seconds) as int == 1_000_000_000 * seconds as int,
{
}

} // verus!
