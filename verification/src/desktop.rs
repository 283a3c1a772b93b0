//! The state of the window: its fields, its messages, and what its buttons do.

use vstd::prelude::*;

use crate::address::{
    destination, onion_address, onion_address_leads_to_service, onion_address_text, AddressError,
    Destination,
};
use crate::digits::{decimal, decimal_round_trips, parse_port, port_value};
use crate::error::FaunaError;
use crate::invite::{link_round_trips, link_text, payload_in};
use crate::text::{
    has_part, is_blank, is_core, trim, trimmed, trimming_keeps_the_core, trimming_leaves_the_core,
};
use crate::tor::{add_onion_command, add_onion_text, OnionService};

verus! {

/// Who a line of the chat comes from.
#[derive(Debug, Clone, Copy, PartialEq, Eq, Structural)]
pub enum MessageAuthor {
    Local,
    Remote,
    System,
}

/// A line of the chat.
#[derive(Debug)]
pub struct MessageLine {
    pub author: MessageAuthor,
    pub body: String,
}

/// What happens on the network.
#[derive(Debug)]
pub enum NetworkEvent {
    InviteCreated(String),
    Connected(String),
    Incoming(String),
    Disconnected(String),
    Error(String),
}

/// How Tor is reached, and which port the onion service gets.
#[derive(Debug)]
pub struct TorConfig {
    pub control_addr: String,
    pub socks_addr: String,
    pub service_port: u16,
}

/// A chat to be hosted.
#[derive(Debug)]
pub struct HostRequest {
    pub name: String,
    pub bind: String,
    pub public_addr: String,
    pub tor_config: Option<TorConfig>,
}

/// A chat to be joined.
#[derive(Debug)]
pub struct JoinRequest {
    pub name: String,
    pub invite: String,
    pub tor_socks_addr: String,
}

/// What is to be done about a Tor that this program starts.
#[derive(Debug)]
pub enum TorStep {
    /// Start it, from the program at this path where one is given.
    Launch(Option<String>),
    /// Nothing: it is running.
    Running,
}

/// What is to be done about Tor before a chat.
#[derive(Debug)]
pub enum TorPlan {
    /// Start it, from the program at this path where one is given.
    Launch(Option<String>),
    /// Nothing: this is how it is reached, where it is to be used.
    Ready(Option<TorConfig>),
}

/// What is to be done to host a chat.
#[derive(Debug)]
pub enum HostStart {
    /// Start Tor, from the program at this path where one is given, and try again.
    Launch(Option<String>),
    /// Nothing: a field is missing.
    Refused,
    /// Host this chat.
    Host(HostRequest),
}

/// What is to be done to join a chat.
#[derive(Debug)]
pub enum JoinStart {
    /// Nothing: a field is missing.
    Refused,
    /// Start Tor, from the program at this path where one is given, and try again.
    Launch(Option<String>),
    /// Join this chat.
    Join(JoinRequest),
}

/// The state of the window.
#[derive(Debug)]
pub struct FaunaApp {
    pub display_name: String,
    pub bind_addr: String,
    pub public_addr: String,
    pub tor_enabled: bool,
    pub tor_auto_start: bool,
    pub tor_exe_path: String,
    pub tor_control_addr: String,
    pub tor_socks_addr: String,
    pub tor_service_port: String,
    pub join_invite: String,
    pub current_invite: String,
    pub draft_message: String,
    /// Whether a chat was started.
    pub connected: bool,
    /// Whether a Tor that this program started is running.
    pub tor_running: bool,
    pub messages: Vec<MessageLine>,
    pub status: String,
}

/// The state of the window, over mathematical text.
#[verifier::ext_equal]
pub struct AppState {
    pub display_name: Seq<char>,
    pub bind_addr: Seq<char>,
    pub public_addr: Seq<char>,
    pub tor_enabled: bool,
    pub tor_auto_start: bool,
    pub tor_exe_path: Seq<char>,
    pub tor_control_addr: Seq<char>,
    pub tor_socks_addr: Seq<char>,
    pub tor_service_port: Seq<char>,
    pub join_invite: Seq<char>,
    pub current_invite: Seq<char>,
    pub draft_message: Seq<char>,
    pub connected: bool,
    pub tor_running: bool,
    pub messages: Seq<(MessageAuthor, Seq<char>)>,
    pub status: Seq<char>,
}

/// The lines of a chat, over mathematical text.
pub open spec fn lines_of(messages: Seq<MessageLine>) -> Seq<(MessageAuthor, Seq<char>)> {
    Seq::new(messages.len(), |i: int| (messages[i].author, messages[i].body@))
}

impl View for FaunaApp {
    type V = AppState;

    open spec fn view(&self) -> AppState {
        AppState {
            display_name: self.display_name@,
            bind_addr: self.bind_addr@,
            public_addr: self.public_addr@,
            tor_enabled: self.tor_enabled,
            tor_auto_start: self.tor_auto_start,
            tor_exe_path: self.tor_exe_path@,
            tor_control_addr: self.tor_control_addr@,
            tor_socks_addr: self.tor_socks_addr@,
            tor_service_port: self.tor_service_port@,
            join_invite: self.join_invite@,
            current_invite: self.current_invite@,
            draft_message: self.draft_message@,
            connected: self.connected,
            tor_running: self.tor_running,
            messages: lines_of(self.messages@),
            status: self.status@,
        }
    }
}

/// What happens on the network, over mathematical text.
pub enum NetworkNews {
    InviteCreated(Seq<char>),
    Connected(Seq<char>),
    Incoming(Seq<char>),
    Disconnected(Seq<char>),
    Error(Seq<char>),
}

impl View for NetworkEvent {
    type V = NetworkNews;

    open spec fn view(&self) -> NetworkNews {
        match *self {
            NetworkEvent::InviteCreated(link) => NetworkNews::InviteCreated(link@),
            NetworkEvent::Connected(name) => NetworkNews::Connected(name@),
            NetworkEvent::Incoming(body) => NetworkNews::Incoming(body@),
            NetworkEvent::Disconnected(reason) => NetworkNews::Disconnected(reason@),
            NetworkEvent::Error(error) => NetworkNews::Error(error@),
        }
    }
}

/// The state with one more line of the chat.
pub open spec fn with_line(state: AppState, author: MessageAuthor, body: Seq<char>) -> AppState {
    AppState { messages: state.messages.push((author, body)), ..state }
}

/// The state with one more line of the program itself.
pub open spec fn with_notice(state: AppState, body: Seq<char>) -> AppState {
    with_line(state, MessageAuthor::System, body)
}

/// The state with another status.
pub open spec fn with_status(state: AppState, status: Seq<char>) -> AppState {
    AppState { status, ..state }
}

/// The state with a Tor that was started and is reached at these addresses.
pub open spec fn with_tor(
    state: AppState,
    control_addr: Seq<char>,
    socks_addr: Seq<char>,
) -> AppState {
    AppState {
        tor_control_addr: control_addr,
        tor_socks_addr: socks_addr,
        tor_running: true,
        ..state
    }
}

/// The state while Tor is being started.
pub open spec fn launching(state: AppState) -> AppState {
    with_status(state, "Tor baslatiliyor"@)
}

/// Tor is to be started before a chat: it is to be used, by a Tor that this program starts, and
/// that Tor is not running.
pub open spec fn awaits_tor(state: AppState) -> bool {
    state.tor_enabled && state.tor_auto_start && !state.tor_running
}

/// `hint` is the path of the Tor program in the fields, where one stands there.
pub open spec fn is_hint_of(hint: Option<String>, state: AppState) -> bool {
    let path = trimmed(state.tor_exe_path);
    match hint {
        Some(text) => path.len() != 0 && text@ == path,
        None => path.len() == 0,
    }
}

/// The state after something happened on the network.
pub open spec fn after_event(state: AppState, event: NetworkNews) -> AppState {
    match event {
        NetworkNews::InviteCreated(link) => AppState {
            current_invite: link,
            status: "Davet hazir, karsi tarafi bekliyor"@,
            ..state
        },
        NetworkNews::Connected(name) => {
            let status = name + " ile sifreli oturum kuruldu"@;
            with_notice(with_status(state, status), status)
        },
        NetworkNews::Incoming(body) => with_line(state, MessageAuthor::Remote, body),
        NetworkNews::Disconnected(reason) => with_notice(
            with_status(state, "Baglanti kapandi"@),
            reason,
        ),
        NetworkNews::Error(error) => with_notice(with_status(state, "Hata"@), error),
    }
}

/// The state after several things happened on the network, one after the other.
pub open spec fn after_events(state: AppState, events: Seq<NetworkNews>) -> AppState
    decreases events.len(),
{
    if events.len() == 0 {
        state
    } else {
        after_event(after_events(state, events.drop_last()), events.last())
    }
}

/// The views of a list of events.
pub open spec fn news(events: Seq<NetworkEvent>) -> Seq<NetworkNews> {
    Seq::new(events.len(), |i: int| events[i]@)
}

/// The port of the onion service: the one in the field, or 45123 where that is no port number.
pub open spec fn service_port_of(state: AppState) -> u16 {
    match port_value(trimmed(state.tor_service_port)) {
        Some(port) => port,
        None => 45123,
    }
}

/// The configuration says how Tor is reached in this state.
pub open spec fn is_config_of(config: Option<TorConfig>, state: AppState) -> bool {
    match config {
        Some(config) => {
            &&& state.tor_enabled
            &&& config.control_addr@ == trimmed(state.tor_control_addr)
            &&& config.socks_addr@ == trimmed(state.tor_socks_addr)
            &&& config.service_port == service_port_of(state)
        },
        None => !state.tor_enabled,
    }
}

/// What a host that listens does next.
#[derive(Debug)]
pub enum HostStep {
    /// Tell the window `notice`, and publish an onion service by `command` to Tor's control port.
    Publish { notice: NetworkEvent, control_addr: String, command: String },
    /// Invite the other side to this address.
    Advertise(String),
}

/// What a host that listens on the local address `local_addr` does next: with Tor it publishes an
/// onion service, and without it advertises its public address.
pub fn host_step(request: &HostRequest, local_addr: &str) -> (res: HostStep)
    ensures
        match (request.tor_config, res) {
            (Some(config), HostStep::Publish { notice, control_addr, command }) => {
                &&& notice@ == NetworkNews::Connected("Tor onion servisi hazirlaniyor"@)
                &&& control_addr@ == config.control_addr@
                &&& command@ == add_onion_text(config.service_port, local_addr@)
            },
            (None, HostStep::Advertise(address)) => address@ == request.public_addr@,
            _ => false,
        },
{
    match &request.tor_config {
        Some(config) => HostStep::Publish {
            notice: NetworkEvent::Connected("Tor onion servisi hazirlaniyor".to_owned()),
            control_addr: config.control_addr.clone(),
            command: add_onion_command(config.service_port, local_addr),
        },
        None => HostStep::Advertise(request.public_addr.clone()),
    }
}

/// The address that a host advertises for its onion service. It leads to that service.
pub fn published_address(config: &TorConfig, service: &OnionService) -> (res: String)
    ensures
        res@ == onion_address_text(service.service_id@, config.service_port),
        has_part(service.service_id@, ".onion"@) ==> destination(res@) == Ok::<
            Destination,
            AddressError,
        >(Destination::Onion(service.service_id@, config.service_port)),
{
    proof {
        if has_part(service.service_id@, ".onion"@) {
            onion_address_leads_to_service(service.service_id@, config.service_port);
        }
    }
    onion_address(service.service_id.as_str(), config.service_port)
}

/// Why a chat cannot be hosted with what stands in the fields, if it cannot.
pub open spec fn host_complaint(state: AppState) -> Option<Seq<char>> {
    if trimmed(state.display_name).len() == 0 || trimmed(state.bind_addr).len() == 0 {
        Some("Isim ve host adresi bos olamaz."@)
    } else if !state.tor_enabled && trimmed(state.public_addr).len() == 0 {
        Some("Tor kapaliyken paylasilan adres bos olamaz."@)
    } else {
        None
    }
}

/// There is enough in the fields to join a chat.
pub open spec fn can_join(state: AppState) -> bool {
    trimmed(state.display_name).len() != 0 && trimmed(state.join_invite).len() != 0
}

impl FaunaApp {
    /// The state of a new window.
    pub fn new() -> (res: FaunaApp)
        ensures
            res@ == (AppState {
                display_name: "Kivan"@,
                bind_addr: "127.0.0.1:0"@,
                public_addr: "127.0.0.1:45123"@,
                tor_enabled: true,
                tor_auto_start: true,
                tor_exe_path: seq![],
                tor_control_addr: "127.0.0.1:9151"@,
                tor_socks_addr: "127.0.0.1:9150"@,
                tor_service_port: "45123"@,
                join_invite: seq![],
                current_invite: seq![],
                draft_message: seq![],
                connected: false,
                tor_running: false,
                messages: seq![
                    (
                        MessageAuthor::System,
                        "Fauna hazir. Sohbet baslatabilir veya davet linkiyle katilabilirsin."@,
                    ),
                ],
                status: "Hazir"@,
            }),
    {
        let mut app = FaunaApp {
            display_name: "Kivan".to_owned(),
            bind_addr: "127.0.0.1:0".to_owned(),
            public_addr: "127.0.0.1:45123".to_owned(),
            tor_enabled: true,
            tor_auto_start: true,
            tor_exe_path: String::new(),
            tor_control_addr: "127.0.0.1:9151".to_owned(),
            tor_socks_addr: "127.0.0.1:9150".to_owned(),
            tor_service_port: "45123".to_owned(),
            join_invite: String::new(),
            current_invite: String::new(),
            draft_message: String::new(),
            connected: false,
            tor_running: false,
            messages: Vec::new(),
            status: "Hazir".to_owned(),
        };
        app.push_system("Fauna hazir. Sohbet baslatabilir veya davet linkiyle katilabilirsin.");
        app
    }

    /// Adds a line to the chat.
    fn push_line(&mut self, author: MessageAuthor, body: String)
        ensures
            final(self)@ == with_line(old(self)@, author, body@),
    {
        self.messages.push(MessageLine { author, body });
        proof {
            assert(lines_of(self.messages@) =~= lines_of(old(self).messages@).push(
                (author, body@),
            ));
        }
    }

    /// Adds a line of the program itself to the chat.
    pub fn push_system(&mut self, body: &str)
        ensures
            final(self)@ == with_notice(old(self)@, body@),
    {
        self.push_line(MessageAuthor::System, body.to_owned());
    }

    /// What is to be done about a Tor that this program starts.
    pub fn ensure_managed_tor(&mut self) -> (res: TorStep)
        ensures
            if old(self)@.tor_running {
                res is Running && final(self)@ == old(self)@
            } else {
                &&& res matches TorStep::Launch(hint)
                &&& is_hint_of(hint, old(self)@)
                &&& final(self)@ == launching(old(self)@)
            },
    {
        if self.tor_running {
            return TorStep::Running;
        }
        self.status = "Tor baslatiliyor".to_owned();
        let path: &str = trim(self.tor_exe_path.as_str());
        if path.unicode_len() == 0 {
            TorStep::Launch(None)
        } else {
            TorStep::Launch(Some(path.to_owned()))
        }
    }

    /// Takes note of a Tor that was started.
    pub fn tor_started(&mut self, control_addr: &str, socks_addr: &str)
        ensures
            final(self)@ == with_tor(old(self)@, control_addr@, socks_addr@),
    {
        self.tor_control_addr = control_addr.to_owned();
        self.tor_socks_addr = socks_addr.to_owned();
        self.tor_running = true;
    }

    /// Takes note of a Tor that could not be started.
    pub fn tor_failed(&mut self, error: &str)
        ensures
            final(self)@ == with_status(with_notice(old(self)@, error@), "Tor baslatilamadi"@),
    {
        self.push_system(error);
        self.status = "Tor baslatilamadi".to_owned();
    }

    /// What is to be done about Tor before a chat, and how it is reached.
    pub fn prepare_tor_config(&mut self) -> (res: TorPlan)
        ensures
            if awaits_tor(old(self)@) {
                &&& res matches TorPlan::Launch(hint)
                &&& is_hint_of(hint, old(self)@)
                &&& final(self)@ == launching(old(self)@)
            } else {
                &&& res matches TorPlan::Ready(config)
                &&& is_config_of(config, old(self)@)
                &&& final(self)@ == old(self)@
            },
    {
        if !self.tor_enabled {
            return TorPlan::Ready(None);
        }
        if self.tor_auto_start {
            match self.ensure_managed_tor() {
                TorStep::Launch(hint) => {
                    return TorPlan::Launch(hint);
                },
                TorStep::Running => {},
            }
        }
        let service_port: u16 = match parse_port(trim(self.tor_service_port.as_str())) {
            Some(port) => port,
            None => 45123,
        };
        TorPlan::Ready(
            Some(
                TorConfig {
                    control_addr: trim(self.tor_control_addr.as_str()).to_owned(),
                    socks_addr: trim(self.tor_socks_addr.as_str()).to_owned(),
                    service_port,
                },
            ),
        )
    }

    /// Hosts a chat: Tor is started first where it is awaited, and the fields are looked at once
    /// it is not.
    pub fn start_host(&mut self) -> (res: HostStart)
        ensures
            if awaits_tor(old(self)@) {
                &&& res matches HostStart::Launch(hint)
                &&& is_hint_of(hint, old(self)@)
                &&& final(self)@ == launching(old(self)@)
            } else {
                match host_complaint(old(self)@) {
                    Some(complaint) => {
                        &&& res is Refused
                        &&& final(self)@ == with_notice(old(self)@, complaint)
                    },
                    None => {
                        &&& res matches HostStart::Host(request)
                        &&& request.name@ == trimmed(old(self)@.display_name)
                        &&& request.bind@ == trimmed(old(self)@.bind_addr)
                        &&& request.public_addr@ == trimmed(old(self)@.public_addr)
                        &&& is_config_of(request.tor_config, old(self)@)
                        &&& final(self)@ == (AppState {
                            connected: true,
                            current_invite: seq![],
                            status: "Davet olusturuluyor"@,
                            ..old(self)@
                        })
                    },
                }
            },
    {
        let name: String = trim(self.display_name.as_str()).to_owned();
        let bind: String = trim(self.bind_addr.as_str()).to_owned();
        let public_addr: String = trim(self.public_addr.as_str()).to_owned();
        let tor_config = match self.prepare_tor_config() {
            TorPlan::Launch(hint) => {
                return HostStart::Launch(hint);
            },
            TorPlan::Ready(config) => config,
        };
        if name.as_str().unicode_len() == 0 || bind.as_str().unicode_len() == 0 {
            self.push_system("Isim ve host adresi bos olamaz.");
            return HostStart::Refused;
        }
        if tor_config.is_none() && public_addr.as_str().unicode_len() == 0 {
            self.push_system("Tor kapaliyken paylasilan adres bos olamaz.");
            return HostStart::Refused;
        }
        self.connected = true;
        self.current_invite = String::new();
        self.status = "Davet olusturuluyor".to_owned();
        HostStart::Host(HostRequest { name, bind, public_addr, tor_config })
    }

    /// Joins a chat: the fields are looked at first, and Tor is started where it is awaited.
    pub fn start_join(&mut self) -> (res: JoinStart)
        ensures
            if !can_join(old(self)@) {
                &&& res is Refused
                &&& final(self)@ == with_notice(old(self)@, "Isim ve davet linki bos olamaz."@)
            } else if awaits_tor(old(self)@) {
                &&& res matches JoinStart::Launch(hint)
                &&& is_hint_of(hint, old(self)@)
                &&& final(self)@ == launching(old(self)@)
            } else {
                &&& res matches JoinStart::Join(request)
                &&& request.name@ == trimmed(old(self)@.display_name)
                &&& request.invite@ == trimmed(old(self)@.join_invite)
                &&& request.tor_socks_addr@ == trimmed(old(self)@.tor_socks_addr)
                &&& final(self)@ == (AppState {
                    connected: true,
                    status: "Baglaniyor"@,
                    ..old(self)@
                })
            },
    {
        let name: String = trim(self.display_name.as_str()).to_owned();
        let invite: String = trim(self.join_invite.as_str()).to_owned();
        if name.as_str().unicode_len() == 0 || invite.as_str().unicode_len() == 0 {
            self.push_system("Isim ve davet linki bos olamaz.");
            return JoinStart::Refused;
        }
        let tor_socks_addr: String = match self.prepare_tor_config() {
            TorPlan::Launch(hint) => {
                return JoinStart::Launch(hint);
            },
            TorPlan::Ready(Some(config)) => config.socks_addr,
            TorPlan::Ready(None) => trim(self.tor_socks_addr.as_str()).to_owned(),
        };
        self.connected = true;
        self.status = "Baglaniyor".to_owned();
        JoinStart::Join(JoinRequest { name, invite, tor_socks_addr })
    }

    /// The message to be sent, if there is one and a chat that it can go to.
    pub fn send_message(&mut self) -> (res: Option<String>)
        ensures
            ({
                let body = trimmed(old(self)@.draft_message);
                if body.len() == 0 {
                    res is None && final(self)@ == old(self)@
                } else if !old(self)@.connected {
                    res is None && final(self)@ == with_notice(
                        old(self)@,
                        "Once bir sohbet baslat veya davete katil."@,
                    )
                } else {
                    &&& res matches Some(text)
                    &&& text@ == body
                    &&& final(self)@ == old(self)@
                }
            }),
    {
        let body: String = trim(self.draft_message.as_str()).to_owned();
        if body.as_str().unicode_len() == 0 {
            return None;
        }
        if !self.connected {
            self.push_system("Once bir sohbet baslat veya davete katil.");
            return None;
        }
        Some(body)
    }

    /// Takes note of a message that was handed over to the network, or could not be.
    pub fn message_sent(&mut self, body: String, delivered: bool)
        ensures
            final(self)@ == if delivered {
                AppState {
                    draft_message: seq![],
                    ..with_line(old(self)@, MessageAuthor::Local, body@)
                }
            } else {
                with_notice(old(self)@, "Mesaj gonderilemedi; baglanti kapanmis olabilir."@)
            },
    {
        if delivered {
            self.push_line(MessageAuthor::Local, body);
            self.draft_message = String::new();
        } else {
            self.push_system("Mesaj gonderilemedi; baglanti kapanmis olabilir.");
        }
    }

    /// Takes note of one thing that happened on the network.
    fn take_event(&mut self, event: &NetworkEvent)
        ensures
            final(self)@ == after_event(old(self)@, event@),
    {
        match event {
            NetworkEvent::InviteCreated(link) => {
                self.current_invite = link.clone();
                self.status = "Davet hazir, karsi tarafi bekliyor".to_owned();
            },
            NetworkEvent::Connected(name) => {
                let mut status: String = name.clone();
                status.append(" ile sifreli oturum kuruldu");
                self.status = status.clone();
                self.push_system(status.as_str());
            },
            NetworkEvent::Incoming(body) => {
                self.push_line(MessageAuthor::Remote, body.clone());
            },
            NetworkEvent::Disconnected(reason) => {
                self.status = "Baglanti kapandi".to_owned();
                self.push_system(reason.as_str());
            },
            NetworkEvent::Error(error) => {
                self.status = "Hata".to_owned();
                self.push_system(error.as_str());
            },
        }
    }

    /// Takes note of what happened on the network since the last time, in its order; nothing
    /// happens where no chat was started.
    pub fn drain_network_events(&mut self, events: &Vec<NetworkEvent>)
        ensures
            final(self)@ == if old(self)@.connected {
                after_events(old(self)@, news(events@))
            } else {
                old(self)@
            },
    {
        if !self.connected {
            return;
        }
        let mut i: usize = 0;
        while i < events.len()
            invariant
                i <= events.len(),
                self@ == after_events(old(self)@, news(events@).take(i as int)),
            decreases events.len() - i,
        {
            proof {
                assert(news(events@).take(i + 1).drop_last() =~= news(events@).take(i as int));
                assert(news(events@).take(i + 1).last() == events@[i as int]@);
            }
            self.take_event(&events[i]);
            i += 1;
        }
        proof {
            assert(news(events@).take(i as int) =~= news(events@));
        }
    }
}

/// A Tor that was started is awaited no more, and what stands in the other fields is as it was: the
/// next try to host or to join a chat goes on where the first one stopped.
pub proof fn a_started_tor_is_not_awaited(
    state: AppState,
    control_addr: Seq<char>,
    socks_addr: Seq<char>,
)
    ensures
        !awaits_tor(with_tor(launching(state), control_addr, socks_addr)),
        host_complaint(with_tor(launching(state), control_addr, socks_addr)) == host_complaint(
            state,
        ),
        can_join(with_tor(launching(state), control_addr, socks_addr)) == can_join(state),
{
}

/// The lines of the other side in a chat.
pub open spec fn remote_lines(lines: Seq<(MessageAuthor, Seq<char>)>) -> Seq<Seq<char>>
    decreases lines.len(),
{
    if lines.len() == 0 {
        seq![]
    } else if lines.last().0 == MessageAuthor::Remote {
        remote_lines(lines.drop_last()).push(lines.last().1)
    } else {
        remote_lines(lines.drop_last())
    }
}

/// The messages that came in among several things that happened on the network.
pub open spec fn incoming(events: Seq<NetworkNews>) -> Seq<Seq<char>>
    decreases events.len(),
{
    if events.len() == 0 {
        seq![]
    } else {
        match events.last() {
            NetworkNews::Incoming(body) => incoming(events.drop_last()).push(body),
            _ => incoming(events.drop_last()),
        }
    }
}

/// Whatever happens on the network, the chat keeps its lines, and the messages that come in are
/// shown as the other side's, each once and in their order.
pub proof fn incoming_messages_are_shown(state: AppState, events: Seq<NetworkNews>)
    ensures
        state.messages.is_prefix_of(after_events(state, events).messages),
        remote_lines(after_events(state, events).messages) == remote_lines(state.messages)
            + incoming(events),
    decreases events.len(),
{
    if events.len() == 0 {
        assert(remote_lines(state.messages) + incoming(events) =~= remote_lines(state.messages));
    } else {
        incoming_messages_are_shown(state, events.drop_last());
        let before = after_events(state, events.drop_last());
        let after = after_events(state, events);
        if after.messages.len() > before.messages.len() {
            assert(after.messages.drop_last() =~= before.messages);
        }
        assert(remote_lines(after.messages) =~= remote_lines(state.messages) + incoming(events));
    }
}

/// It makes no difference whether things that happened are taken note of all at once or in several
/// rounds.
pub proof fn events_may_come_in_rounds(
    state: AppState,
    first: Seq<NetworkNews>,
    second: Seq<NetworkNews>,
)
    ensures
        after_events(state, first + second) == after_events(after_events(state, first), second),
    decreases second.len(),
{
    if second.len() == 0 {
        assert(first + second =~= first);
    } else {
        let all = first + second;
        assert(all.drop_last() =~= first + second.drop_last());
        assert(all.last() == second.last());
        events_may_come_in_rounds(state, first, second.drop_last());
    }
}

/// The last thing that happened decides the status and adds its own line, whatever happened before:
/// its text is shown whole.
pub proof fn the_last_event_is_shown_whole(
    state: AppState,
    before: Seq<NetworkNews>,
    text: Seq<char>,
)
    ensures
        ({
            let old_state = after_events(state, before);
            let created = after_events(state, before.push(NetworkNews::InviteCreated(text)));
            let connected = after_events(state, before.push(NetworkNews::Connected(text)));
            let came_in = after_events(state, before.push(NetworkNews::Incoming(text)));
            let closed = after_events(state, before.push(NetworkNews::Disconnected(text)));
            let failed = after_events(state, before.push(NetworkNews::Error(text)));
            &&& created.current_invite == text
            &&& created.status == "Davet hazir, karsi tarafi bekliyor"@
            &&& created.messages == old_state.messages
            &&& connected.status == text + " ile sifreli oturum kuruldu"@
            &&& connected.messages == old_state.messages.push(
                (MessageAuthor::System, text + " ile sifreli oturum kuruldu"@),
            )
            &&& came_in.status == old_state.status
            &&& came_in.messages == old_state.messages.push((MessageAuthor::Remote, text))
            &&& closed.status == "Baglanti kapandi"@
            &&& closed.messages == old_state.messages.push((MessageAuthor::System, text))
            &&& failed.status == "Hata"@
            &&& failed.messages == old_state.messages.push((MessageAuthor::System, text))
        }),
{
    assert(before.push(NetworkNews::InviteCreated(text)).drop_last() =~= before);
    assert(before.push(NetworkNews::Connected(text)).drop_last() =~= before);
    assert(before.push(NetworkNews::Incoming(text)).drop_last() =~= before);
    assert(before.push(NetworkNews::Disconnected(text)).drop_last() =~= before);
    assert(before.push(NetworkNews::Error(text)).drop_last() =~= before);
}

/// The link that the window shows is the last one that was made, whole, whatever happened before
/// and behind it: the other side reads from it the payload that the host put in. Where no link was
/// made, the one that was shown stays.
pub proof fn the_last_link_is_shown_whole(
    state: AppState,
    before: Seq<NetworkNews>,
    link: Seq<char>,
    after: Seq<NetworkNews>,
    payload: Seq<u8>,
)
    requires
        forall|i: int| 0 <= i < after.len() ==> !(#[trigger] after[i] is InviteCreated),
    ensures
        after_events(
            state,
            before + seq![NetworkNews::InviteCreated(link)] + after,
        ).current_invite == link,
        link == link_text(payload) ==> payload_in(
            after_events(
                state,
                before + seq![NetworkNews::InviteCreated(link)] + after,
            ).current_invite,
        ) == Ok::<Seq<u8>, FaunaError>(payload),
        after_events(state, after).current_invite == state.current_invite,
    decreases after.len(),
{
    let all = before + seq![NetworkNews::InviteCreated(link)] + after;
    link_round_trips(payload);
    if after.len() == 0 {
        assert(all =~= before.push(NetworkNews::InviteCreated(link)));
        the_last_event_is_shown_whole(state, before, link);
    } else {
        assert(all.drop_last() =~= before + seq![NetworkNews::InviteCreated(link)]
            + after.drop_last());
        assert(all.last() == after.last());
        assert(!(after[after.len() - 1] is InviteCreated));
        the_last_link_is_shown_whole(state, before, link, after.drop_last(), payload);
    }
}

/// Whatever happens on the network, what the user has typed stays as it is, and so does the chat and
/// the Tor that were started.
pub proof fn events_leave_the_fields_alone(state: AppState, events: Seq<NetworkNews>)
    ensures
        ({
            let after = after_events(state, events);
            &&& after.display_name == state.display_name
            &&& after.bind_addr == state.bind_addr
            &&& after.public_addr == state.public_addr
            &&& after.tor_enabled == state.tor_enabled
            &&& after.tor_auto_start == state.tor_auto_start
            &&& after.tor_exe_path == state.tor_exe_path
            &&& after.tor_control_addr == state.tor_control_addr
            &&& after.tor_socks_addr == state.tor_socks_addr
            &&& after.tor_service_port == state.tor_service_port
            &&& after.join_invite == state.join_invite
            &&& after.draft_message == state.draft_message
            &&& after.connected == state.connected
            &&& after.tor_running == state.tor_running
        }),
    decreases events.len(),
{
    if events.len() > 0 {
        events_leave_the_fields_alone(state, events.drop_last());
    }
}

/// A line that is added to the chat is added whole, behind the others, and changes nothing else.
pub proof fn a_line_is_added_whole(state: AppState, author: MessageAuthor, body: Seq<char>)
    ensures
        with_line(state, author, body).messages == state.messages.push((author, body)),
        with_line(state, author, body) == (AppState {
            messages: with_line(state, author, body).messages,
            ..state
        }),
        with_notice(state, body).messages == state.messages.push((MessageAuthor::System, body)),
        with_notice(state, body) == (AppState {
            messages: with_notice(state, body).messages,
            ..state
        }),
        with_status(state, body).status == body,
        with_status(state, body) == (AppState { status: body, ..state }),
{
}

/// A chat can be hosted exactly where neither the name nor the host address is blank, nor, without
/// Tor, the shared address.
pub proof fn hosting_needs_what_is_not_blank(state: AppState)
    ensures
        host_complaint(state) is None <==> !is_blank(state.display_name) && !is_blank(
            state.bind_addr,
        ) && (state.tor_enabled || !is_blank(state.public_addr)),
        is_blank(state.display_name) || is_blank(state.bind_addr) ==> host_complaint(state) == Some(
            "Isim ve host adresi bos olamaz."@,
        ),
        !is_blank(state.display_name) && !is_blank(state.bind_addr) && !state.tor_enabled
            && is_blank(state.public_addr) ==> host_complaint(state) == Some(
            "Tor kapaliyken paylasilan adres bos olamaz."@,
        ),
{
    trimming_leaves_the_core(state.display_name);
    trimming_leaves_the_core(state.bind_addr);
    trimming_leaves_the_core(state.public_addr);
}

/// A chat can be joined exactly where neither the name nor the link is blank.
pub proof fn joining_needs_what_is_not_blank(state: AppState)
    ensures
        can_join(state) <==> !is_blank(state.display_name) && !is_blank(state.join_invite),
{
    trimming_leaves_the_core(state.display_name);
    trimming_leaves_the_core(state.join_invite);
}

/// The onion service gets the port in the field, whatever whitespace stands round it, and port
/// 45123 where the field holds none.
pub proof fn the_service_gets_the_port_in_the_field(
    state: AppState,
    left: Seq<char>,
    text: Seq<char>,
    right: Seq<char>,
    port: u16,
)
    requires
        is_blank(left),
        is_core(text),
        is_blank(right),
        state.tor_service_port == left + text + right,
    ensures
        text == decimal(port as nat) ==> service_port_of(state) == port,
        port_value(text) matches Some(number) ==> service_port_of(state) == number,
        port_value(text) is None ==> service_port_of(state) == 45123,
{
    trimming_keeps_the_core(left, text, right);
    decimal_round_trips(port as nat);
}

/// Tor is used exactly where the user asks for it, and then by the addresses in the fields, without
/// the whitespace round them.
pub proof fn tor_is_reached_by_the_fields(
    config: Option<TorConfig>,
    state: AppState,
    control: Seq<char>,
    socks: Seq<char>,
)
    requires
        is_config_of(config, state),
        is_core(control),
        is_core(socks),
    ensures
        config is Some <==> state.tor_enabled,
        config matches Some(found) ==> {
            &&& state.tor_control_addr == control ==> found.control_addr@ == control
            &&& state.tor_socks_addr == socks ==> found.socks_addr@ == socks
            &&& is_core(found.control_addr@)
            &&& is_core(found.socks_addr@)
            &&& found.service_port == service_port_of(state)
        },
{
    trimming_keeps_the_core(seq![], control, seq![]);
    assert(seq![] + control + seq![] =~= control);
    trimming_keeps_the_core(seq![], socks, seq![]);
    assert(seq![] + socks + seq![] =~= socks);
    trimming_leaves_the_core(state.tor_control_addr);
    trimming_leaves_the_core(state.tor_socks_addr);
}

/// The Tor program is started from the path in the field, whole, where that is not blank.
pub proof fn tor_is_started_from_the_field(
    hint: Option<String>,
    state: AppState,
    left: Seq<char>,
    path: Seq<char>,
    right: Seq<char>,
)
    requires
        is_hint_of(hint, state),
        is_blank(left),
        is_core(path),
        is_blank(right),
        state.tor_exe_path == left + path + right,
    ensures
        hint is None <==> path.len() == 0,
        hint matches Some(text) ==> text@ == path,
{
    trimming_keeps_the_core(left, path, right);
}

/// Tor is awaited only where the user has asked for a Tor that the program starts, and until it
/// runs.
pub proof fn tor_is_awaited_until_it_runs(state: AppState)
    ensures
        state.tor_running ==> !awaits_tor(state),
        !state.tor_enabled ==> !awaits_tor(state),
        !state.tor_auto_start ==> !awaits_tor(state),
        state.tor_enabled && state.tor_auto_start ==> (awaits_tor(state) <==> !state.tor_running),
        launching(state).status == "Tor baslatiliyor"@,
        launching(state) == (AppState { status: launching(state).status, ..state }),
{
}

/// A Tor that was started is reached at its own addresses from then on, and nothing else changes.
pub proof fn a_started_tor_is_used(
    state: AppState,
    control_addr: Seq<char>,
    socks_addr: Seq<char>,
)
    ensures
        ({
            let after = with_tor(state, control_addr, socks_addr);
            &&& after.tor_control_addr == control_addr
            &&& after.tor_socks_addr == socks_addr
            &&& after.tor_running
            &&& after == (AppState {
                tor_control_addr: control_addr,
                tor_socks_addr: socks_addr,
                tor_running: true,
                ..state
            })
        }),
{
}

/// The views of events hold their texts whole.
pub proof fn views_hold_events_whole(events: Seq<NetworkEvent>, text: String)
    ensures
        NetworkEvent::InviteCreated(text)@ == NetworkNews::InviteCreated(text@),
        NetworkEvent::Connected(text)@ == NetworkNews::Connected(text@),
        NetworkEvent::Incoming(text)@ == NetworkNews::Incoming(text@),
        NetworkEvent::Disconnected(text)@ == NetworkNews::Disconnected(text@),
        NetworkEvent::Error(text)@ == NetworkNews::Error(text@),
        news(events).len() == events.len(),
        forall|i: int| 0 <= i < events.len() ==> #[trigger] news(events)[i] == events[i]@,
{
}

/// The view of the window holds every field and every line of the chat whole.
pub proof fn the_view_holds_the_window_whole(app: FaunaApp)
    ensures
        app@.display_name == app.display_name@,
        app@.bind_addr == app.bind_addr@,
        app@.public_addr == app.public_addr@,
        app@.tor_enabled == app.tor_enabled,
        app@.tor_auto_start == app.tor_auto_start,
        app@.tor_exe_path == app.tor_exe_path@,
        app@.tor_control_addr == app.tor_control_addr@,
        app@.tor_socks_addr == app.tor_socks_addr@,
        app@.tor_service_port == app.tor_service_port@,
        app@.join_invite == app.join_invite@,
        app@.current_invite == app.current_invite@,
        app@.draft_message == app.draft_message@,
        app@.connected == app.connected,
        app@.tor_running == app.tor_running,
        app@.status == app.status@,
        app@.messages.len() == app.messages@.len(),
        forall|i: int|
            0 <= i < app.messages@.len() ==> #[trigger] app@.messages[i] == (
                app.messages@[i].author,
                app.messages@[i].body@,
            ),
{
}

} // verus!
