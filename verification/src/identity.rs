//! Device identities: Ed25519 keys, and the peer ids derived from them.

use vstd::prelude::*;
use vstd::slice::slice_to_vec;

use crate::bytes::{array_of_32, Secret};
use crate::digits::{digit_value, hex_is_read_in_either_case, hex_lower};
use crate::encoding::{base64_bytes, base64_round_trips, base64_text};
use crate::error::FaunaError;
use crate::primitives::{
    base64_decode, base64_encode, base64_fault, check_public, ed25519_is_key, ed25519_public,
    ed25519_signature, ed25519_verifies, hex_text, random_signing_secret, sha256, sha256_digest,
    signing_public, signing_sign, signing_verify,
};

verus! {

/// An Ed25519 public key.
#[derive(Debug, Clone, Copy)]
pub struct VerifyingKey {
    bytes: [u8; 32],
}

impl View for VerifyingKey {
    type V = Seq<u8>;

    closed spec fn view(&self) -> Seq<u8> {
        self.bytes@
    }
}

impl VerifyingKey {
    #[verifier::type_invariant]
    spec fn wf(self) -> bool {
        ed25519_is_key(self.bytes@)
    }

    /// The bytes of the key.
    pub fn as_bytes(&self) -> (res: &[u8; 32])
        ensures
            res@ == self@,
            ed25519_is_key(self@),
    {
        proof {
            use_type_invariant(self);
        }
        &self.bytes
    }
}

/// The name of a device: the start of the hash of its public key.
#[derive(Debug, Eq)]
pub struct PeerId(String);

impl View for PeerId {
    type V = Seq<char>;

    closed spec fn view(&self) -> Seq<char> {
        self.0@
    }
}

/// The text of the peer id that belongs to a public key.
pub open spec fn peer_id_text(public: Seq<u8>) -> Seq<char> {
    "fauna-"@ + hex_lower(sha256(public).take(16))
}

impl PartialEq for PeerId {
    fn eq(&self, other: &PeerId) -> (res: bool) {
        self.0 == other.0
    }
}

impl vstd::std_specs::cmp::PartialEqSpecImpl for PeerId {
    open spec fn obeys_eq_spec() -> bool {
        true
    }

    open spec fn eq_spec(&self, other: &PeerId) -> bool {
        self@ == other@
    }
}

impl Clone for PeerId {
    fn clone(&self) -> (res: PeerId)
        ensures
            res@ == self@,
    {
        PeerId(self.0.clone())
    }
}

impl PeerId {
    /// The peer id of the device with this public key.
    pub fn from_public_key(public_key: &VerifyingKey) -> (res: PeerId)
        ensures
            res@ == peer_id_text(public_key@),
            res@.len() == 38,
    {
        proof {
            reveal_strlit("fauna-");
        }
        let digest: [u8; 32] = sha256_digest(public_key.as_bytes().as_slice());
        let whole: &[u8] = digest.as_slice();
        let start: &[u8] = vstd::slice::slice_subrange(whole, 0, 16);
        proof {
            assert(start@ =~= sha256(public_key@).take(16));
        }
        let mut text: String = "fauna-".to_owned();
        text.append(hex_text(start).as_str());
        PeerId(text)
    }

    /// The peer id with the given text, whatever it is.
    pub fn from_text(text: String) -> (res: PeerId)
        ensures
            res@ == text@,
    {
        PeerId(text)
    }

    /// The text of the peer id.
    pub fn as_str(&self) -> (res: &str)
        ensures
            res@ == self@,
    {
        self.0.as_str()
    }

    /// The text of the peer id, for display.
    pub fn to_string(&self) -> (res: String)
        ensures
            res@ == self@,
    {
        self.0.as_str().to_owned()
    }
}

/// A device's signing key. It is overwritten when it is dropped.
pub struct DeviceIdentity {
    secret_key: Secret,
}

impl View for DeviceIdentity {
    type V = Seq<u8>;

    closed spec fn view(&self) -> Seq<u8> {
        self.secret_key@
    }
}

/// An identity in texts that can be stored.
#[derive(Debug)]
pub struct ExportedIdentity {
    pub peer_id: PeerId,
    pub secret_key: String,
    pub public_key: String,
}

/// The secret key that an exported identity restores.
pub open spec fn restored(secret_key: Seq<char>) -> Result<Seq<u8>, FaunaError> {
    match base64_bytes(secret_key) {
        None => Err(FaunaError::Base64(base64_fault(secret_key))),
        Some(bytes) => if bytes.len() != 32 {
            Err(FaunaError::InvalidKey)
        } else {
            Ok(bytes)
        },
    }
}

/// The public key that a text in base64 holds.
pub open spec fn public_key_in(text: Seq<char>) -> Result<Seq<u8>, FaunaError> {
    match base64_bytes(text) {
        None => Err(FaunaError::Base64(base64_fault(text))),
        Some(bytes) => if bytes.len() != 32 || !ed25519_is_key(bytes) {
            Err(FaunaError::InvalidKey)
        } else {
            Ok(bytes)
        },
    }
}

impl DeviceIdentity {
    /// A new identity from the operating system's random source.
    pub fn generate() -> (res: DeviceIdentity)
        ensures
            res@.len() == 32,
    {
        DeviceIdentity { secret_key: Secret::new(random_signing_secret()) }
    }

    /// The identity with the given secret key.
    pub fn from_secret_key_bytes(secret_key: [u8; 32]) -> (res: DeviceIdentity)
        ensures
            res@ == secret_key@,
    {
        DeviceIdentity { secret_key: Secret::new(secret_key) }
    }

    /// The identity that `export` wrote.
    pub fn from_export(export: &ExportedIdentity) -> (res: Result<DeviceIdentity, FaunaError>)
        ensures
            match res {
                Ok(identity) => restored(export.secret_key@) == Ok::<Seq<u8>, FaunaError>(
                    identity@,
                ),
                Err(e) => restored(export.secret_key@) == Err::<Seq<u8>, FaunaError>(e),
            },
    {
        let bytes: Vec<u8> = match base64_decode(export.secret_key.as_str()) {
            Ok(bytes) => bytes,
            Err(e) => {
                return Err(FaunaError::from(e));
            },
        };
        proof {
            base64_round_trips(bytes@);
        }
        match array_of_32(&bytes) {
            Some(secret_key) => Ok(DeviceIdentity::from_secret_key_bytes(secret_key)),
            None => Err(FaunaError::InvalidKey),
        }
    }

    /// The peer id of this device.
    pub fn peer_id(&self) -> (res: PeerId)
        ensures
            res@ == peer_id_text(ed25519_public(self@)),
    {
        PeerId::from_public_key(&self.public_key())
    }

    /// The public key of this device.
    pub fn public_key(&self) -> (res: VerifyingKey)
        ensures
            res@ == ed25519_public(self@),
    {
        VerifyingKey { bytes: signing_public(self.secret_key.bytes()) }
    }

    /// The public key of this device in base64. `public_key_from_base64` reads it back.
    pub fn public_key_base64(&self) -> (res: String)
        ensures
            res@ == base64_text(ed25519_public(self@)),
            public_key_in(res@) == Ok::<Seq<u8>, FaunaError>(ed25519_public(self@)),
    {
        let key = self.public_key();
        proof {
            base64_round_trips(ed25519_public(self@));
        }
        base64_encode(key.as_bytes().as_slice())
    }

    /// The public key that `input` holds in base64.
    pub fn public_key_from_base64(input: &str) -> (res: Result<VerifyingKey, FaunaError>)
        ensures
            match res {
                Ok(key) => public_key_in(input@) == Ok::<Seq<u8>, FaunaError>(key@),
                Err(e) => public_key_in(input@) == Err::<Seq<u8>, FaunaError>(e),
            },
    {
        let bytes: Vec<u8> = match base64_decode(input) {
            Ok(bytes) => bytes,
            Err(e) => {
                return Err(FaunaError::from(e));
            },
        };
        proof {
            base64_round_trips(bytes@);
        }
        let bytes: [u8; 32] = match array_of_32(&bytes) {
            Some(bytes) => bytes,
            None => {
                return Err(FaunaError::InvalidKey);
            },
        };
        match check_public(&bytes) {
            Ok(_) => Ok(VerifyingKey { bytes }),
            Err(_) => Err(FaunaError::InvalidKey),
        }
    }

    /// Signs a message. `verify` with this device's public key accepts the signature.
    pub fn sign(&self, message: &[u8]) -> (res: Vec<u8>)
        ensures
            res@ == ed25519_signature(self@, message@),
            res@.len() == 64,
            ed25519_verifies(ed25519_public(self@), message@, res@),
    {
        let signature: [u8; 64] = signing_sign(self.secret_key.bytes(), message);
        slice_to_vec(signature.as_slice())
    }

    /// Checks a signature.
    pub fn verify(public_key: &VerifyingKey, message: &[u8], signature: &[u8]) -> (res: Result<
        (),
        FaunaError,
    >)
        ensures
            res == if ed25519_verifies(public_key@, message@, signature@) {
                Ok::<(), FaunaError>(())
            } else {
                Err(FaunaError::Signature)
            },
            signature@.len() != 64 ==> res is Err,
    {
        match signing_verify(public_key.as_bytes(), message, signature) {
            Ok(_) => Ok(()),
            Err(_) => Err(FaunaError::Signature),
        }
    }

    /// This identity in texts. `from_export` restores it from them.
    pub fn export(&self) -> (res: ExportedIdentity)
        ensures
            res.peer_id@ == peer_id_text(ed25519_public(self@)),
            res.secret_key@ == base64_text(self@),
            res.public_key@ == base64_text(ed25519_public(self@)),
            restored(res.secret_key@) == Ok::<Seq<u8>, FaunaError>(self@),
    {
        proof {
            base64_round_trips(self@);
        }
        ExportedIdentity {
            peer_id: self.peer_id(),
            secret_key: base64_encode(self.secret_key.bytes().as_slice()),
            public_key: self.public_key_base64(),
        }
    }
}

impl Clone for DeviceIdentity {
    fn clone(&self) -> (res: DeviceIdentity)
        ensures
            res@ == self@,
    {
        DeviceIdentity { secret_key: Secret::new(*self.secret_key.bytes()) }
    }
}

/// The peer ids of two keys are the same exactly where the first 16 bytes of the keys' hashes are.
pub proof fn peer_id_is_the_start_of_the_hash(a: Seq<u8>, b: Seq<u8>)
    requires
        sha256(a).len() == 32,
        sha256(b).len() == 32,
    ensures
        peer_id_text(a) == peer_id_text(b) <==> sha256(a).take(16) == sha256(b).take(16),
        peer_id_text(a).len() == 38,
        peer_id_text(a).take(6) == seq!['f', 'a', 'u', 'n', 'a', '-'],
        forall|i: int|
            0 <= i < 16 ==> {
                &&& digit_value(#[trigger] peer_id_text(a)[6 + 2 * i] as u8) == Some(
                    sha256(a)[i] as int / 16,
                )
                &&& digit_value(peer_id_text(a)[7 + 2 * i] as u8) == Some(sha256(a)[i] as int % 16)
            },
{
    reveal_strlit("fauna-");
    let x = sha256(a).take(16);
    let y = sha256(b).take(16);
    assert(peer_id_text(a).take(6) =~= "fauna-"@);
    assert("fauna-"@ =~= seq!['f', 'a', 'u', 'n', 'a', '-']);
    assert forall|i: int| 0 <= i < 16 implies {
        &&& digit_value(#[trigger] peer_id_text(a)[6 + 2 * i] as u8) == Some(
            sha256(a)[i] as int / 16,
        )
        &&& digit_value(peer_id_text(a)[7 + 2 * i] as u8) == Some(sha256(a)[i] as int % 16)
    } by {
        assert(peer_id_text(a)[6 + 2 * i] == hex_lower(x)[2 * i]);
        assert(peer_id_text(a)[7 + 2 * i] == hex_lower(x)[2 * i + 1]);
        assert(x[i] == sha256(a)[i]);
    }
    if peer_id_text(a) == peer_id_text(b) {
        assert(hex_lower(x) =~= peer_id_text(a).skip(6));
        assert(hex_lower(y) =~= peer_id_text(b).skip(6));
        hex_is_read_in_either_case(x);
        hex_is_read_in_either_case(y);
    }
}

/// A secret key of 32 bytes in base64 restores exactly that key, and any other number of bytes
/// none.
pub proof fn an_export_restores_its_key(secret: Seq<u8>)
    ensures
        secret.len() == 32 ==> restored(base64_text(secret)) == Ok::<Seq<u8>, FaunaError>(secret),
        secret.len() != 32 ==> restored(base64_text(secret)) == Err::<Seq<u8>, FaunaError>(
            FaunaError::InvalidKey,
        ),
{
    base64_round_trips(secret);
}

/// A public key in base64 is read as exactly that key, and what is no key is refused.
pub proof fn a_public_key_is_read_whole(bytes: Seq<u8>)
    ensures
        bytes.len() == 32 && ed25519_is_key(bytes) ==> public_key_in(base64_text(bytes)) == Ok::<
            Seq<u8>,
            FaunaError,
        >(bytes),
        !(bytes.len() == 32 && ed25519_is_key(bytes)) ==> public_key_in(base64_text(bytes)) == Err::<
            Seq<u8>,
            FaunaError,
        >(FaunaError::InvalidKey),
{
    base64_round_trips(bytes);
}

} // verus!
