//! The addresses in invites, and how to reach them.

use vstd::prelude::*;

use crate::digits::{decimal, decimal_round_trips, decimal_text, is_digit, parse_port, port_value};
use crate::invite::Invite;
use crate::language::Language;
use crate::text::{
    a_part_is_found, contains, has_part, is_first, is_last, lemma_split_first, lemma_split_last,
    occurs_at, rsplit_once, split_first, split_last, split_once, strip_prefix, stripped,
    stripping_undoes_the_prefix, text_of, texts, the_last_separator_splits,
};

verus! {

/// Why an address cannot be used.
#[derive(Debug, Clone, Copy, PartialEq, Eq, Structural)]
pub enum AddressError {
    /// It has a format that is not known.
    Unsupported,
    /// It is an onion address without a port.
    NoOnionPort,
    /// It is an onion address with something else in place of a port number.
    BadOnionPort,
}

/// A port of an onion service.
#[derive(Debug)]
pub struct OnionTarget {
    pub host: String,
    pub port: u16,
}

/// How an address is reached.
#[derive(Debug)]
pub enum Route {
    /// Through Tor.
    Onion(OnionTarget),
    /// By a connection to the address.
    Direct(String),
}

/// The `host:port` that an address stands for: `/ip4/host/tcp/port`, or anything with a colon.
pub open spec fn normalized(address: Seq<char>) -> Result<Seq<char>, AddressError> {
    match stripped(address, "/ip4/"@) {
        Some(rest) => match split_first(rest, "/tcp/"@) {
            Some((host, port)) => Ok(host + ":"@ + port),
            None => Err(AddressError::Unsupported),
        },
        None => if has_part(address, ":"@) {
            Ok(address)
        } else {
            Err(AddressError::Unsupported)
        },
    }
}

/// The `host:port` that an address stands for.
pub fn normalize_address(address: &str) -> (res: Result<String, AddressError>)
    ensures
        match res {
            Ok(text) => normalized(address@) == Ok::<Seq<char>, AddressError>(text@),
            Err(e) => normalized(address@) == Err::<Seq<char>, AddressError>(e),
        },
{
    if let Some(rest) = strip_prefix(address, "/ip4/") {
        return match split_once(rest, "/tcp/") {
            Some((host, port)) => {
                let mut text: String = host.to_owned();
                text.append(":");
                text.append(port);
                Ok(text)
            },
            None => Err(AddressError::Unsupported),
        };
    }
    if contains(address, ":") {
        return Ok(address.to_owned());
    }
    Err(AddressError::Unsupported)
}

/// An address without the scheme of onion addresses.
pub open spec fn without_scheme(address: Seq<char>) -> Seq<char> {
    match stripped(address, "onion://"@) {
        Some(rest) => rest,
        None => address,
    }
}

/// The host and port of an onion address; `None` where an address is no onion address.
pub open spec fn onion_parts(address: Seq<char>) -> Result<
    Option<(Seq<char>, u16)>,
    AddressError,
> {
    let target = without_scheme(address);
    if !has_part(target, ".onion"@) {
        Ok(None)
    } else {
        match split_last(target, ":"@) {
            None => Err(AddressError::NoOnionPort),
            Some((host, port)) => match port_value(port) {
                None => Err(AddressError::BadOnionPort),
                Some(number) => Ok(Some((host, number))),
            },
        }
    }
}

/// An address without the scheme of onion addresses.
fn strip_scheme<'a>(address: &'a str) -> (res: &'a str)
    ensures
        res@ == without_scheme(address@),
{
    match strip_prefix(address, "onion://") {
        Some(rest) => rest,
        None => address,
    }
}

/// The host and port of an onion address, with or without its scheme.
pub fn parse_onion_address(address: &str) -> (res: Result<Option<OnionTarget>, AddressError>)
    ensures
        match res {
            Ok(None) => onion_parts(address@) == Ok::<Option<(Seq<char>, u16)>, AddressError>(None),
            Ok(Some(target)) => onion_parts(address@) == Ok::<
                Option<(Seq<char>, u16)>,
                AddressError,
            >(Some((target.host@, target.port))),
            Err(e) => onion_parts(address@) == Err::<Option<(Seq<char>, u16)>, AddressError>(e),
        },
{
    let target: &str = strip_scheme(address);
    if !contains(target, ".onion") {
        return Ok(None);
    }
    let (host, port) = match rsplit_once(target, ":") {
        Some(parts) => parts,
        None => {
            return Err(AddressError::NoOnionPort);
        },
    };
    match parse_port(port) {
        Some(number) => Ok(Some(OnionTarget { host: host.to_owned(), port: number })),
        None => Err(AddressError::BadOnionPort),
    }
}

/// Where an address leads: through Tor to a host and port, or directly to a `host:port`.
pub enum Destination {
    Onion(Seq<char>, u16),
    Direct(Seq<char>),
}

/// Where an address leads.
pub open spec fn destination(address: Seq<char>) -> Result<Destination, AddressError> {
    match onion_parts(address) {
        Err(e) => Err(e),
        Ok(Some((host, port))) => Ok(Destination::Onion(host, port)),
        Ok(None) => match normalized(address) {
            Ok(text) => Ok(Destination::Direct(text)),
            Err(e) => Err(e),
        },
    }
}

impl View for Route {
    type V = Destination;

    open spec fn view(&self) -> Destination {
        match *self {
            Route::Onion(target) => Destination::Onion(target.host@, target.port),
            Route::Direct(address) => Destination::Direct(address@),
        }
    }
}

/// How the address of an invite is reached.
pub fn route(address: &str) -> (res: Result<Route, AddressError>)
    ensures
        match res {
            Ok(found) => destination(address@) == Ok::<Destination, AddressError>(found@),
            Err(e) => destination(address@) == Err::<Destination, AddressError>(e),
        },
{
    match parse_onion_address(address) {
        Ok(Some(target)) => Ok(Route::Onion(target)),
        Ok(None) => match normalize_address(address) {
            Ok(text) => Ok(Route::Direct(text)),
            Err(e) => Err(e),
        },
        Err(e) => Err(e),
    }
}

/// The text that tells the user why an address cannot be used.
pub open spec fn address_error_text(
    error: AddressError,
    address: Seq<char>,
    language: Language,
) -> Seq<char> {
    match error {
        AddressError::Unsupported => match language {
            Language::English => "unsupported address format: "@ + address,
            Language::Turkish => "desteklenmeyen adres formati: "@ + address,
        },
        AddressError::NoOnionPort => "onion adresinde port yok: "@ + without_scheme(address),
        AddressError::BadOnionPort => "onion port okunamadi: "@ + without_scheme(address),
    }
}

impl AddressError {
    /// The text that tells the user why `address` cannot be used. Onion addresses are opened from
    /// the window only, so their errors are told in its language.
    pub fn message(&self, address: &str, language: Language) -> (res: String)
        ensures
            res@ == address_error_text(*self, address@, language),
    {
        let mut text: String = match self {
            AddressError::Unsupported => match language {
                Language::English => "unsupported address format: ".to_owned(),
                Language::Turkish => "desteklenmeyen adres formati: ".to_owned(),
            },
            AddressError::NoOnionPort => "onion adresinde port yok: ".to_owned(),
            AddressError::BadOnionPort => "onion port okunamadi: ".to_owned(),
        };
        match self {
            AddressError::Unsupported => text.append(address),
            _ => text.append(strip_scheme(address)),
        }
        text
    }
}

/// The address of a port of an onion service.
pub open spec fn onion_address_text(host: Seq<char>, port: u16) -> Seq<char> {
    "onion://"@ + host + ":"@ + decimal(port as nat)
}

/// The address of a port of an onion service.
pub fn onion_address(host: &str, port: u16) -> (res: String)
    ensures
        res@ == onion_address_text(host@, port),
{
    let mut text: String = "onion://".to_owned();
    text.append(host);
    text.append(":");
    text.append(decimal_text(port as u64).as_str());
    text
}

/// The address that a host puts in its invite: the public one where one is given, the one that it
/// listens on otherwise.
pub fn advertised_address(public_addr: Option<String>, bind: &str) -> (res: String)
    ensures
        res@ == match public_addr {
            Some(address) => address@,
            None => bind@,
        },
{
    match public_addr {
        Some(address) => address,
        None => bind.to_owned(),
    }
}

impl Invite {
    /// The address that a joining side tries: the first.
    pub fn first_address<'a>(&'a self) -> (res: Option<&'a str>)
        ensures
            text_of(res) == if self.addresses@.len() == 0 {
                None
            } else {
                Some(texts(self.addresses@)[0])
            },
    {
        if self.addresses.len() == 0 {
            None
        } else {
            Some(self.addresses[0].as_str())
        }
    }
}

/// Why an invite leads nowhere.
#[derive(Debug, Clone, Copy, PartialEq, Eq, Structural)]
pub enum JoinError {
    /// It names no address.
    NoAddress,
    /// Its first address cannot be used.
    Address(AddressError),
}

/// The `host:port` that an invite leads to without Tor.
pub fn direct_address(invite: &Invite) -> (res: Result<String, JoinError>)
    ensures
        invite.addresses@.len() == 0 ==> (res matches Err(e) && e
            == JoinError::NoAddress),
        invite.addresses@.len() > 0 ==> match res {
            Ok(text) => normalized(texts(invite.addresses@)[0]) == Ok::<Seq<char>, AddressError>(
                text@,
            ),
            Err(JoinError::Address(e)) => normalized(texts(invite.addresses@)[0]) == Err::<
                Seq<char>,
                AddressError,
            >(e),
            Err(JoinError::NoAddress) => false,
        },
{
    match invite.first_address() {
        None => Err(JoinError::NoAddress),
        Some(address) => match normalize_address(address) {
            Ok(text) => Ok(text),
            Err(e) => Err(JoinError::Address(e)),
        },
    }
}

/// Where an invite leads, by way of Tor or without.
pub fn invite_route(invite: &Invite) -> (res: Result<Route, JoinError>)
    ensures
        invite.addresses@.len() == 0 ==> (res matches Err(e) && e
            == JoinError::NoAddress),
        invite.addresses@.len() > 0 ==> match res {
            Ok(found) => destination(texts(invite.addresses@)[0]) == Ok::<
                Destination,
                AddressError,
            >(found@),
            Err(JoinError::Address(e)) => destination(texts(invite.addresses@)[0]) == Err::<
                Destination,
                AddressError,
            >(e),
            Err(JoinError::NoAddress) => false,
        },
{
    match invite.first_address() {
        None => Err(JoinError::NoAddress),
        Some(address) => match route(address) {
            Ok(found) => Ok(found),
            Err(e) => Err(JoinError::Address(e)),
        },
    }
}

/// The text that tells the user why an invite leads nowhere.
pub open spec fn join_error_text(
    error: JoinError,
    addresses: Seq<Seq<char>>,
    language: Language,
) -> Seq<char> {
    match error {
        JoinError::NoAddress => match language {
            Language::English => "invite does not contain a direct address"@,
            Language::Turkish => "davet linkinde adres yok"@,
        },
        JoinError::Address(e) => address_error_text(
            e,
            if addresses.len() == 0 {
                seq![]
            } else {
                addresses[0]
            },
            language,
        ),
    }
}

impl JoinError {
    /// The text that tells the user why `invite` leads nowhere.
    pub fn message(&self, invite: &Invite, language: Language) -> (res: String)
        ensures
            res@ == join_error_text(*self, texts(invite.addresses@), language),
    {
        match self {
            JoinError::NoAddress => match language {
                Language::English => "invite does not contain a direct address".to_owned(),
                Language::Turkish => "davet linkinde adres yok".to_owned(),
            },
            JoinError::Address(e) => {
                let address: &str = match invite.first_address() {
                    Some(address) => address,
                    None => "",
                };
                proof {
                    reveal_strlit("");
                    assert(""@ =~= seq![]);
                }
                e.message(address, language)
            },
        }
    }
}

/// The address that a host advertises for its onion service leads to that service and port.
pub proof fn onion_address_leads_to_service(host: Seq<char>, port: u16)
    requires
        has_part(host, ".onion"@),
    ensures
        destination(onion_address_text(host, port)) == Ok::<Destination, AddressError>(
            Destination::Onion(host, port),
        ),
{
    reveal_strlit("onion://");
    reveal_strlit(":");
    let number = decimal(port as nat);
    let address = onion_address_text(host, port);
    let target = host + ":"@ + number;
    assert("onion://"@.is_prefix_of(address));
    assert(address.skip(8) =~= target);
    assert(without_scheme(address) == target);
    let part = ".onion"@;
    let at = choose|at: int| occurs_at(host, part, at);
    assert(target.subrange(at, at + part.len()) =~= host.subrange(at, at + part.len()));
    assert(occurs_at(target, part, at));
    decimal_round_trips(port as nat);
    let colon = host.len() as int;
    assert(target.subrange(colon, colon + 1) =~= ":"@);
    assert forall|j: int| j > colon implies !occurs_at(target, ":"@, j) by {
        if occurs_at(target, ":"@, j) {
            assert(target.subrange(j, j + 1)[0] == ':');
            assert(is_digit(number[j - colon - 1]));
            assert(target[j] == number[j - colon - 1]);
        }
    }
    assert(is_last(target, ":"@, colon));
    lemma_split_last(target, ":"@, colon);
    assert(target.take(colon) =~= host);
    assert(target.skip(colon + 1) =~= number);
}

/// A direct destination always has a colon between host and port.
pub proof fn normalized_has_colon(address: Seq<char>)
    requires
        normalized(address) is Ok,
    ensures
        has_part(normalized(address)->Ok_0, ":"@),
{
    if stripped(address, "/ip4/"@) is Some {
        let (host, port) = split_first(stripped(address, "/ip4/"@)->0, "/tcp/"@)->0;
        let text = host + ":"@ + port;
        let at = host.len() as int;
        assert(text.subrange(at, at + ":"@.len()) =~= ":"@);
        assert(occurs_at(text, ":"@, at));
    }
}

/// `/ip4/host/tcp/port` stands for `host:port`.
pub proof fn multiaddress_is_normalized(host: Seq<char>, port: Seq<char>)
    requires
        is_first(host + "/tcp/"@ + port, "/tcp/"@, host.len() as int),
    ensures
        normalized("/ip4/"@ + host + "/tcp/"@ + port) == Ok::<Seq<char>, AddressError>(
            host + ":"@ + port,
        ),
{
    let rest = host + "/tcp/"@ + port;
    let address = "/ip4/"@ + host + "/tcp/"@ + port;
    assert("/ip4/"@.is_prefix_of(address));
    assert(address.skip("/ip4/"@.len() as int) =~= rest);
    lemma_split_first(rest, "/tcp/"@, host.len() as int);
    assert(rest.take(host.len() as int) =~= host);
    assert(rest.skip((host.len() + "/tcp/"@.len()) as int) =~= port);
}

/// An address that does not begin with `/ip4/` stands for itself where it has a colon, whatever
/// stands on either side of it, and for nothing where it has none.
pub proof fn an_address_with_a_colon_stands_for_itself(host: Seq<char>, rest: Seq<char>)
    ensures
        !"/ip4/"@.is_prefix_of(host + seq![':'] + rest) ==> normalized(host + seq![':'] + rest)
            == Ok::<Seq<char>, AddressError>(host + seq![':'] + rest),
        !"/ip4/"@.is_prefix_of(host) && !host.contains(':') ==> normalized(host) == Err::<
            Seq<char>,
            AddressError,
        >(AddressError::Unsupported),
{
    reveal_strlit(":");
    assert(":"@ =~= seq![':']);
    a_part_is_found(host, ":"@, rest);
    if !host.contains(':') && has_part(host, ":"@) {
        let at = choose|at: int| occurs_at(host, ":"@, at);
        assert(host.subrange(at, at + 1)[0] == ':');
        assert(host[at] == ':');
    }
}

/// `host:port` stands for itself, for every port number and every host that does not begin with
/// `/ip4/`.
pub proof fn host_and_port_stand_for_themselves(host: Seq<char>, port: u16)
    requires
        !"/ip4/"@.is_prefix_of(host),
    ensures
        normalized(host + seq![':'] + decimal(port as nat)) == Ok::<Seq<char>, AddressError>(
            host + seq![':'] + decimal(port as nat),
        ),
{
    reveal_strlit("/ip4/");
    let start = "/ip4/"@;
    let all = host + seq![':'] + decimal(port as nat);
    if start.is_prefix_of(all) {
        assert(forall|i: int| 0 <= i < 5 ==> start[i] == #[trigger] all[i]);
        if host.len() < 5 {
            assert(all[host.len() as int] == ':');
        } else {
            assert forall|i: int| 0 <= i < 5 implies start[i] == #[trigger] host[i] by {
                assert(start[i] == all[i]);
            }
            assert(host.take(5) =~= start);
            assert(start.is_prefix_of(host));
        }
    }
    an_address_with_a_colon_stands_for_itself(host, decimal(port as nat));
}

/// `/ip4/` without `/tcp/` behind it stands for nothing.
pub proof fn an_ip4_address_needs_a_tcp_part(rest: Seq<char>)
    requires
        !has_part(rest, "/tcp/"@),
    ensures
        normalized("/ip4/"@ + rest) == Err::<Seq<char>, AddressError>(AddressError::Unsupported),
{
    stripping_undoes_the_prefix("/ip4/"@ + rest, "/ip4/"@, rest);
}

/// An address with `.onion` in it leads through Tor, with the scheme or without: to what stands
/// before its last colon, at the port behind it. Where that is no port number, or there is no colon,
/// it leads nowhere.
pub proof fn an_onion_address_leads_through_tor(host: Seq<char>, port: Seq<char>, target: Seq<char>)
    requires
        target == host + seq![':'] + port || !target.contains(':'),
        !port.contains(':'),
        has_part(target, ".onion"@),
    ensures
        ({
            let expected = if !target.contains(':') {
                Err::<Destination, AddressError>(AddressError::NoOnionPort)
            } else {
                match port_value(port) {
                    Some(number) => Ok::<Destination, AddressError>(
                        Destination::Onion(host, number),
                    ),
                    None => Err::<Destination, AddressError>(AddressError::BadOnionPort),
                }
            };
            &&& destination("onion://"@ + target) == expected
            &&& !"onion://"@.is_prefix_of(target) ==> destination(target) == expected
        }),
{
    reveal_strlit(":");
    let colon = ":"@;
    assert(colon =~= seq![':']);
    stripping_undoes_the_prefix("onion://"@ + target, "onion://"@, target);
    if target.contains(':') {
        assert(target == host + colon + port);
        let tail = (colon + port).drop_first();
        assert(tail =~= port);
        if has_part(tail, colon) {
            let at = choose|at: int| occurs_at(tail, colon, at);
            assert(port.subrange(at, at + 1)[0] == ':');
            assert(port[at] == ':');
        }
        the_last_separator_splits(host, colon, port);
    } else if has_part(target, colon) {
        let at = choose|at: int| occurs_at(target, colon, at);
        assert(target.subrange(at, at + 1)[0] == ':');
        assert(target[at] == ':');
    }
}

/// An address without `.onion` behind its scheme is reached without Tor.
pub proof fn other_addresses_are_reached_directly(address: Seq<char>, rest: Seq<char>)
    requires
        !has_part(rest, ".onion"@),
        address == rest && !"onion://"@.is_prefix_of(rest) || address == "onion://"@ + rest,
    ensures
        match normalized(address) {
            Ok(text) => destination(address) == Ok::<Destination, AddressError>(
                Destination::Direct(text),
            ),
            Err(e) => destination(address) == Err::<Destination, AddressError>(e),
        },
{
    stripping_undoes_the_prefix(address, "onion://"@, rest);
}

/// The view of a route holds its host and address whole.
pub proof fn the_view_holds_the_route_whole(target: OnionTarget, address: String)
    ensures
        Route::Onion(target)@ == Destination::Onion(target.host@, target.port),
        Route::Direct(address)@ == Destination::Direct(address@),
{
}

/// The address of an onion service starts with its scheme, and names host and port whole.
pub proof fn an_onion_address_starts_with_its_scheme(host: Seq<char>, port: u16)
    ensures
        onion_address_text(host, port) == seq!['o', 'n', 'i', 'o', 'n', ':', '/', '/'] + host + seq![
            ':',
        ] + decimal(port as nat),
{
    reveal_strlit("onion://");
    reveal_strlit(":");
    assert("onion://"@ =~= seq!['o', 'n', 'i', 'o', 'n', ':', '/', '/']);
    assert(":"@ =~= seq![':']);
}

/// What is told of an address that cannot be used names it whole; of an onion address, without its
/// scheme.
pub proof fn an_address_error_names_the_address(rest: Seq<char>, language: Language)
    ensures
        address_error_text(AddressError::Unsupported, rest, Language::English)
            == "unsupported address format: "@ + rest,
        address_error_text(AddressError::Unsupported, rest, Language::Turkish)
            == "desteklenmeyen adres formati: "@ + rest,
        address_error_text(AddressError::NoOnionPort, "onion://"@ + rest, language)
            == "onion adresinde port yok: "@ + rest,
        address_error_text(AddressError::BadOnionPort, "onion://"@ + rest, language)
            == "onion port okunamadi: "@ + rest,
        !"onion://"@.is_prefix_of(rest) ==> {
            &&& address_error_text(AddressError::NoOnionPort, rest, language)
                == "onion adresinde port yok: "@ + rest
            &&& address_error_text(AddressError::BadOnionPort, rest, language)
                == "onion port okunamadi: "@ + rest
        },
{
    stripping_undoes_the_prefix("onion://"@ + rest, "onion://"@, rest);
}

/// What is told of an invite that leads nowhere is about its first address.
pub proof fn a_join_error_is_about_the_first_address(
    error: AddressError,
    first: Seq<char>,
    others: Seq<Seq<char>>,
    language: Language,
)
    ensures
        join_error_text(JoinError::Address(error), seq![first] + others, language)
            == address_error_text(error, first, language),
{
    assert((seq![first] + others)[0] == first);
}

} // verus!
