//! Invites: what a host tells the other side, and the links they travel in.

use vstd::prelude::*;
use vstd::utf8::encode_utf8;

use crate::digits::{decimal, decimal_round_trips, decimal_text};
use crate::encoding::{base64_bits, base64_bytes, base64_round_trips, base64_symbol, base64_text};
use crate::error::FaunaError;
use crate::identity::{peer_id_text, DeviceIdentity, PeerId};
use crate::json::{
    json_array, json_array_reads_one_way, json_string, json_string_reads_one_way, lemma_labelled,
    lemma_regroup, lemma_same_rest, push_array, push_string,
};
use crate::primitives::{base64_decode, base64_encode, base64_fault, ed25519_public};
use crate::text::{has_part, strip_prefix, stripped, texts};

verus! {

/// What a host tells the other side: who it is, and where it can be reached.
#[derive(Debug)]
pub struct Invite {
    pub version: u8,
    pub peer_id: PeerId,
    pub display_name: String,
    pub public_key: String,
    pub addresses: Vec<String>,
}

/// Two invites say the same.
pub open spec fn same_invite(a: Invite, b: Invite) -> bool {
    &&& a.version == b.version
    &&& a.peer_id@ == b.peer_id@
    &&& a.display_name@ == b.display_name@
    &&& a.public_key@ == b.public_key@
    &&& texts(a.addresses@) == texts(b.addresses@)
}

/// The JSON object that holds an invite with the given contents.
pub open spec fn invite_json_text(
    version: u8,
    peer_id: Seq<char>,
    display_name: Seq<char>,
    public_key: Seq<char>,
    addresses: Seq<Seq<char>>,
) -> Seq<char> {
    "{\"version\":"@ + decimal(version as nat) + ",\"peer_id\":"@ + json_string(peer_id)
        + ",\"display_name\":"@ + json_string(display_name) + ",\"public_key\":"@ + json_string(
        public_key,
    ) + ",\"addresses\":"@ + json_array(addresses) + "}"@
}

/// The JSON object that holds an invite.
pub open spec fn invite_json(invite: Invite) -> Seq<char> {
    invite_json_text(
        invite.version,
        invite.peer_id@,
        invite.display_name@,
        invite.public_key@,
        texts(invite.addresses@),
    )
}

/// The link that carries a payload.
pub open spec fn link_text(payload: Seq<u8>) -> Seq<char> {
    "fauna://join/"@ + base64_text(payload)
}

/// The base64 part of a link, which may stand without the start of the link.
pub open spec fn link_body(link: Seq<char>) -> Seq<char> {
    match stripped(link, "fauna://join/"@) {
        Some(rest) => rest,
        None => link,
    }
}

/// The payload that a link carries.
pub open spec fn payload_in(link: Seq<char>) -> Result<Seq<u8>, FaunaError> {
    match base64_bytes(link_body(link)) {
        None => Err(FaunaError::Base64(base64_fault(link_body(link)))),
        Some(payload) => Ok(payload),
    }
}

impl Invite {
    /// An invite of this device, without addresses.
    pub fn new(identity: &DeviceIdentity, display_name: &str) -> (res: Invite)
        ensures
            res.version == 1,
            res.peer_id@ == peer_id_text(ed25519_public(identity@)),
            res.display_name@ == display_name@,
            res.public_key@ == base64_text(ed25519_public(identity@)),
            res.addresses@.len() == 0,
    {
        Invite {
            version: 1,
            peer_id: identity.peer_id(),
            display_name: display_name.to_owned(),
            public_key: identity.public_key_base64(),
            addresses: Vec::new(),
        }
    }

    /// This invite with one more address, behind the others.
    pub fn with_address(self, address: &str) -> (res: Invite)
        ensures
            res.version == self.version,
            res.peer_id@ == self.peer_id@,
            res.display_name@ == self.display_name@,
            res.public_key@ == self.public_key@,
            texts(res.addresses@) == texts(self.addresses@).push(address@),
    {
        let mut invite = self;
        invite.addresses.push(address.to_owned());
        proof {
            assert(texts(invite.addresses@) =~= texts(self.addresses@).push(address@));
        }
        invite
    }

    /// This invite with more addresses, behind the others and in their order.
    pub fn with_addresses(self, addresses: &Vec<String>) -> (res: Invite)
        ensures
            res.version == self.version,
            res.peer_id@ == self.peer_id@,
            res.display_name@ == self.display_name@,
            res.public_key@ == self.public_key@,
            texts(res.addresses@) == texts(self.addresses@) + texts(addresses@),
    {
        let mut invite = self;
        let mut i: usize = 0;
        proof {
            assert(texts(invite.addresses@) =~= texts(self.addresses@) + texts(addresses@).take(0));
        }
        while i < addresses.len()
            invariant
                i <= addresses.len(),
                invite.version == self.version,
                invite.peer_id@ == self.peer_id@,
                invite.display_name@ == self.display_name@,
                invite.public_key@ == self.public_key@,
                texts(invite.addresses@) == texts(self.addresses@) + texts(addresses@).take(
                    i as int,
                ),
            decreases addresses.len() - i,
        {
            invite = invite.with_address(addresses[i].as_str());
            i += 1;
            proof {
                assert(texts(invite.addresses@) =~= texts(self.addresses@) + texts(
                    addresses@,
                ).take(i as int));
            }
        }
        proof {
            assert(texts(addresses@).take(i as int) =~= texts(addresses@));
        }
        invite
    }

    /// The JSON object that holds this invite.
    fn json(&self) -> (res: Result<String, FaunaError>)
        ensures
            res is Ok,
            res->Ok_0@ == invite_json(*self),
    {
        let mut json: String = "{\"version\":".to_owned();
        json.append(decimal_text(self.version as u64).as_str());
        push_string(&mut json, ",\"peer_id\":", self.peer_id.as_str())?;
        push_string(&mut json, ",\"display_name\":", self.display_name.as_str())?;
        push_string(&mut json, ",\"public_key\":", self.public_key.as_str())?;
        push_array(&mut json, ",\"addresses\":", &self.addresses)?;
        json.append("}");
        Ok(json)
    }

    /// The link of this invite. `decode` gives back the JSON object that it carries.
    pub fn encode(&self) -> (res: Result<String, FaunaError>)
        ensures
            res is Ok,
            res->Ok_0@ == link_text(encode_utf8(invite_json(*self))),
            payload_in(res->Ok_0@) == Ok::<Seq<u8>, FaunaError>(encode_utf8(invite_json(*self))),
    {
        let json = self.json()?;
        proof {
            link_round_trips(encode_utf8(invite_json(*self)));
        }
        let mut link: String = "fauna://join/".to_owned();
        link.append(base64_encode(json.as_str().as_bytes()).as_str());
        Ok(link)
    }

    /// The payload of a link, which is the JSON object of an invite where `encode` wrote it.
    pub fn decode(input: &str) -> (res: Result<Vec<u8>, FaunaError>)
        ensures
            match res {
                Ok(payload) => payload_in(input@) == Ok::<Seq<u8>, FaunaError>(payload@),
                Err(e) => payload_in(input@) == Err::<Seq<u8>, FaunaError>(e),
            },
    {
        let body: &str = match strip_prefix(input, "fauna://join/") {
            Some(rest) => rest,
            None => input,
        };
        match base64_decode(body) {
            Ok(payload) => {
                proof {
                    base64_round_trips(payload@);
                }
                Ok(payload)
            },
            Err(e) => Err(FaunaError::from(e)),
        }
    }
}

/// The link of an invite of this device, with the given addresses.
pub fn invite_link(identity: &DeviceIdentity, display_name: &str, addresses: &Vec<String>) -> (res:
    Result<String, FaunaError>)
    ensures
        res is Ok,
        res->Ok_0@ == link_text(
            encode_utf8(
                invite_json_text(
                    1,
                    peer_id_text(ed25519_public(identity@)),
                    display_name@,
                    base64_text(ed25519_public(identity@)),
                    texts(addresses@),
                ),
            ),
        ),
{
    let invite = Invite::new(identity, display_name).with_addresses(addresses);
    proof {
        assert(texts(invite.addresses@) =~= texts(addresses@));
    }
    invite.encode()
}

impl Clone for Invite {
    fn clone(&self) -> (res: Invite)
        ensures
            same_invite(res, *self),
    {
        let mut addresses: Vec<String> = Vec::new();
        let mut i: usize = 0;
        while i < self.addresses.len()
            invariant
                i <= self.addresses.len(),
                texts(addresses@) == texts(self.addresses@).take(i as int),
            decreases self.addresses.len() - i,
        {
            let ghost before = texts(addresses@);
            addresses.push(self.addresses[i].clone());
            i += 1;
            proof {
                assert(texts(addresses@) =~= before.push(self.addresses@[i - 1]@));
                assert(texts(self.addresses@).take(i as int) =~= texts(self.addresses@).take(
                    i - 1,
                ).push(self.addresses@[i - 1]@));
            }
        }
        proof {
            assert(texts(self.addresses@).take(i as int) =~= texts(self.addresses@));
        }
        Invite {
            version: self.version,
            peer_id: self.peer_id.clone(),
            display_name: self.display_name.clone(),
            public_key: self.public_key.clone(),
            addresses,
        }
    }
}

/// A link gives back the payload that it was made of, with its start or without.
pub proof fn link_round_trips(payload: Seq<u8>)
    ensures
        payload_in(link_text(payload)) == Ok::<Seq<u8>, FaunaError>(payload),
        payload_in(base64_text(payload)) == Ok::<Seq<u8>, FaunaError>(payload),
{
    base64_round_trips(payload);
    reveal_strlit("fauna://join/");
    let start = "fauna://join/"@;
    let body = base64_text(payload);
    assert(link_text(payload).skip(start.len() as int) =~= body);
    assert(start.is_prefix_of(link_text(payload)));
    if start.is_prefix_of(body) {
        assert(body[5] == start[5]);
        assert(body[5] == base64_symbol(base64_bits(payload, 5)));
        assert(start[5] == ':');
    }
}

/// What follows the label of the version in the JSON of an invite.
spec fn json_rest(invite: Invite) -> Seq<char> {
    let list = json_array(texts(invite.addresses@)) + "}"@;
    let key = json_string(invite.public_key@) + (",\"addresses\":"@ + list);
    let name = json_string(invite.display_name@) + (",\"public_key\":"@ + key);
    let peer = json_string(invite.peer_id@) + (",\"display_name\":"@ + name);
    decimal(invite.version as nat) + (",\"peer_id\":"@ + peer)
}

proof fn lemma_json_rest(invite: Invite)
    ensures
        invite_json(invite) == "{\"version\":"@ + json_rest(invite),
{
    let start = "{\"version\":"@;
    let s1 = start + decimal(invite.version as nat);
    let s2 = s1 + ",\"peer_id\":"@;
    let s3 = s2 + json_string(invite.peer_id@);
    let s4 = s3 + ",\"display_name\":"@;
    let s5 = s4 + json_string(invite.display_name@);
    let s6 = s5 + ",\"public_key\":"@;
    let s7 = s6 + json_string(invite.public_key@);
    let s8 = s7 + ",\"addresses\":"@;
    let list = json_array(texts(invite.addresses@)) + "}"@;
    let key = json_string(invite.public_key@) + (",\"addresses\":"@ + list);
    let name = json_string(invite.display_name@) + (",\"public_key\":"@ + key);
    let peer = json_string(invite.peer_id@) + (",\"display_name\":"@ + name);
    lemma_regroup(s8, json_array(texts(invite.addresses@)), "}"@);
    lemma_regroup(s7, ",\"addresses\":"@, list);
    lemma_regroup(s6, json_string(invite.public_key@), ",\"addresses\":"@ + list);
    lemma_regroup(s5, ",\"public_key\":"@, key);
    lemma_regroup(s4, json_string(invite.display_name@), ",\"public_key\":"@ + key);
    lemma_regroup(s3, ",\"display_name\":"@, name);
    lemma_regroup(s2, json_string(invite.peer_id@), ",\"display_name\":"@ + name);
    lemma_regroup(s1, ",\"peer_id\":"@, peer);
    lemma_regroup(start, decimal(invite.version as nat), ",\"peer_id\":"@ + peer);
}

/// A number in front of a comma can be read in one way only.
pub(crate) proof fn lemma_number_prefix(m: nat, x: Seq<char>, n: nat, y: Seq<char>)
    requires
        x.len() > 0,
        y.len() > 0,
        x[0] == ',',
        y[0] == ',',
        decimal(m) + x == decimal(n) + y,
    ensures
        m == n,
        x == y,
{
    let left = decimal(m) + x;
    let right = decimal(n) + y;
    decimal_round_trips(m);
    decimal_round_trips(n);
    let k = decimal(m).len() as int;
    let l = decimal(n).len() as int;
    assert(left[k] == ',');
    assert(right[l] == ',');
    if k < l {
        assert(right[k] == decimal(n)[k]);
    }
    if l < k {
        assert(left[l] == decimal(m)[l]);
    }
    assert(left.take(k) =~= decimal(m));
    assert(right.take(l) =~= decimal(n));
    lemma_same_rest(decimal(m), x, y);
}

/// The JSON of an invite tells invites apart: two invites with the same JSON say the same.
pub proof fn json_tells_invites_apart(a: Invite, b: Invite)
    requires
        invite_json(a) == invite_json(b),
    ensures
        same_invite(a, b),
{
    lemma_json_rest(a);
    lemma_json_rest(b);
    lemma_same_rest("{\"version\":"@, json_rest(a), json_rest(b));
    let peer = ",\"peer_id\":"@;
    let name = ",\"display_name\":"@;
    let key = ",\"public_key\":"@;
    let list = ",\"addresses\":"@;
    let a4 = json_array(texts(a.addresses@)) + "}"@;
    let b4 = json_array(texts(b.addresses@)) + "}"@;
    let a3 = json_string(a.public_key@) + (list + a4);
    let b3 = json_string(b.public_key@) + (list + b4);
    let a2 = json_string(a.display_name@) + (key + a3);
    let b2 = json_string(b.display_name@) + (key + b3);
    let a1 = json_string(a.peer_id@) + (name + a2);
    let b1 = json_string(b.peer_id@) + (name + b2);
    assert((peer + a1).len() > 0 && (peer + b1).len() > 0 && (peer + a1)[0] == ',' && (peer
        + b1)[0] == ',') by {
        reveal_strlit(",\"peer_id\":");
    }
    lemma_number_prefix(a.version as nat, peer + a1, b.version as nat, peer + b1);
    lemma_same_rest(peer, a1, b1);
    json_string_reads_one_way(a.peer_id@, name + a2, b.peer_id@, name + b2);
    lemma_same_rest(name, a2, b2);
    json_string_reads_one_way(a.display_name@, key + a3, b.display_name@, key + b3);
    lemma_same_rest(key, a3, b3);
    json_string_reads_one_way(a.public_key@, list + a4, b.public_key@, list + b4);
    lemma_same_rest(list, a4, b4);
    json_array_reads_one_way(texts(a.addresses@), "}"@, texts(b.addresses@), "}"@);
}

/// A link tells invites apart: `encode` gives two invites the same link only where they say the
/// same.
pub proof fn link_tells_invites_apart(a: Invite, b: Invite)
    requires
        link_text(encode_utf8(invite_json(a))) == link_text(encode_utf8(invite_json(b))),
    ensures
        same_invite(a, b),
{
    link_round_trips(encode_utf8(invite_json(a)));
    link_round_trips(encode_utf8(invite_json(b)));
    vstd::utf8::encode_utf8_decode_utf8(invite_json(a));
    vstd::utf8::encode_utf8_decode_utf8(invite_json(b));
    json_tells_invites_apart(a, b);
}

/// A link starts with `fauna://join/`, and the payload in base64 follows whole.
pub proof fn a_link_starts_with_its_scheme(payload: Seq<u8>)
    ensures
        link_text(payload) == seq![
            'f',
            'a',
            'u',
            'n',
            'a',
            ':',
            '/',
            '/',
            'j',
            'o',
            'i',
            'n',
            '/',
        ] + base64_text(payload),
{
    reveal_strlit("fauna://join/");
    assert("fauna://join/"@ =~= seq![
        'f',
        'a',
        'u',
        'n',
        'a',
        ':',
        '/',
        '/',
        'j',
        'o',
        'i',
        'n',
        '/',
    ]);
}

/// Only a link, or the base64 of one without its start, carries a payload, and the payload is the
/// one that it was made of.
pub proof fn nothing_else_is_a_link(text: Seq<char>, payload: Seq<u8>)
    ensures
        payload_in(text) == Ok::<Seq<u8>, FaunaError>(payload) <==> text == link_text(payload)
            || text == base64_text(payload),
{
    link_round_trips(payload);
    if payload_in(text) == Ok::<Seq<u8>, FaunaError>(payload) {
        assert(base64_text(payload) == link_body(text));
        match stripped(text, "fauna://join/"@) {
            Some(rest) => {
                crate::text::stripping_undoes_the_prefix(text, "fauna://join/"@, rest);
            },
            None => {},
        }
    }
}

/// Invites that say the same have the same JSON, and so the same link.
pub proof fn invites_that_say_the_same_have_the_same_json(a: Invite, b: Invite)
    ensures
        same_invite(a, b) <==> invite_json(a) == invite_json(b),
{
    if invite_json(a) == invite_json(b) {
        json_tells_invites_apart(a, b);
    }
}

/// The JSON of an invite is one object, in which the version and each field stand whole under their
/// names.
pub proof fn an_invite_holds_each_field(invite: Invite)
    ensures
        invite_json(invite)[0] == '{',
        invite_json(invite).last() == '}',
        has_part(invite_json(invite), "{\"version\":"@ + decimal(invite.version as nat)),
        has_part(invite_json(invite), ",\"peer_id\":"@ + json_string(invite.peer_id@)),
        has_part(invite_json(invite), ",\"display_name\":"@ + json_string(invite.display_name@)),
        has_part(invite_json(invite), ",\"public_key\":"@ + json_string(invite.public_key@)),
        has_part(
            invite_json(invite),
            ",\"addresses\":"@ + json_array(texts(invite.addresses@)),
        ),
{
    let start = "{\"version\":"@;
    let version = decimal(invite.version as nat);
    let s1 = start + version;
    let s2 = s1 + ",\"peer_id\":"@;
    let s3 = s2 + json_string(invite.peer_id@);
    let s4 = s3 + ",\"display_name\":"@;
    let s5 = s4 + json_string(invite.display_name@);
    let s6 = s5 + ",\"public_key\":"@;
    let s7 = s6 + json_string(invite.public_key@);
    let s8 = s7 + ",\"addresses\":"@;
    let list = json_array(texts(invite.addresses@)) + "}"@;
    let key = json_string(invite.public_key@) + (",\"addresses\":"@ + list);
    let name = json_string(invite.display_name@) + (",\"public_key\":"@ + key);
    let peer = json_string(invite.peer_id@) + (",\"display_name\":"@ + name);
    lemma_regroup(s8, json_array(texts(invite.addresses@)), "}"@);
    lemma_labelled(s7, ",\"addresses\":"@, json_array(texts(invite.addresses@)), "}"@);
    lemma_regroup(s7, ",\"addresses\":"@, list);
    lemma_regroup(s6, json_string(invite.public_key@), ",\"addresses\":"@ + list);
    lemma_labelled(
        s5,
        ",\"public_key\":"@,
        json_string(invite.public_key@),
        ",\"addresses\":"@ + list,
    );
    lemma_regroup(s5, ",\"public_key\":"@, key);
    lemma_regroup(s4, json_string(invite.display_name@), ",\"public_key\":"@ + key);
    lemma_labelled(
        s3,
        ",\"display_name\":"@,
        json_string(invite.display_name@),
        ",\"public_key\":"@ + key,
    );
    lemma_regroup(s3, ",\"display_name\":"@, name);
    lemma_regroup(s2, json_string(invite.peer_id@), ",\"display_name\":"@ + name);
    lemma_labelled(
        s1,
        ",\"peer_id\":"@,
        json_string(invite.peer_id@),
        ",\"display_name\":"@ + name,
    );
    lemma_regroup(s1, ",\"peer_id\":"@, peer);
    lemma_regroup(start, version, ",\"peer_id\":"@ + peer);
    lemma_labelled(seq![], start, version, ",\"peer_id\":"@ + peer);
    assert(seq![] + start =~= start);
    assert(invite_json(invite)[0] == '{' && invite_json(invite).last() == '}') by {
        reveal_strlit("{\"version\":");
        reveal_strlit("}");
        assert(invite_json(invite) == start + (version + (",\"peer_id\":"@ + peer)));
        assert(invite_json(invite)[0] == start[0]);
        assert(invite_json(invite).last() == "}"@.last());
    }
}

} // verus!
