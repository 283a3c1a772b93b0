//! X25519 key agreement.

use vstd::prelude::*;

use crate::bytes::{array_of_32, Secret};
use crate::crypto::SessionKey;
use crate::encoding::{base64_bytes, base64_round_trips, base64_text};
use crate::error::FaunaError;
use crate::primitives::{
    base64_decode, base64_encode, base64_fault, exchange_public, exchange_shared,
    random_exchange_secret, sha256, sha256_digest, x25519_public, x25519_shared,
};

verus! {

/// A key pair for one key agreement. The secret is overwritten when it is dropped.
pub struct ExchangeKeypair {
    secret_key: Secret,
    public_key: [u8; 32],
}

impl View for ExchangeKeypair {
    type V = Seq<u8>;

    /// The secret key.
    closed spec fn view(&self) -> Seq<u8> {
        self.secret_key@
    }
}

/// The session key that a secret key derives from the other side's public key.
pub open spec fn agreed_key(secret: Seq<u8>, public: Seq<u8>) -> Seq<u8> {
    sha256(x25519_shared(secret, public))
}

/// The session key that a secret key derives from the text of the other side's public key.
pub open spec fn derived_key(secret: Seq<u8>, remote: Seq<char>) -> Result<Seq<u8>, FaunaError> {
    match base64_bytes(remote) {
        None => Err(FaunaError::Base64(base64_fault(remote))),
        Some(bytes) => if bytes.len() != 32 {
            Err(FaunaError::InvalidKey)
        } else {
            Ok(agreed_key(secret, bytes))
        },
    }
}

/// Whether `bytes` are a secret key with a public key.
pub open spec fn is_secret(bytes: Seq<u8>) -> bool {
    bytes.len() == 32 && x25519_public(bytes).len() == 32
}

impl ExchangeKeypair {
    /// The public key is the one of the secret key.
    #[verifier::type_invariant]
    spec fn wf(&self) -> bool {
        &&& self.secret_key@.len() == 32
        &&& self.public_key@ == x25519_public(self.secret_key@)
    }

    /// A new key pair from the operating system's random source.
    pub fn generate() -> (res: ExchangeKeypair)
        ensures
            is_secret(res@),
    {
        ExchangeKeypair::from_secret_key_bytes(random_exchange_secret())
    }

    /// The key pair with the given secret key.
    pub fn from_secret_key_bytes(secret_key: [u8; 32]) -> (res: ExchangeKeypair)
        ensures
            res@ == secret_key@,
            is_secret(res@),
    {
        let public_key: [u8; 32] = exchange_public(&secret_key);
        ExchangeKeypair { secret_key: Secret::new(secret_key), public_key }
    }

    /// The public key in base64.
    pub fn public_key_base64(&self) -> (res: String)
        ensures
            res@ == base64_text(x25519_public(self@)),
            is_secret(self@),
    {
        proof {
            use_type_invariant(self);
        }
        base64_encode(self.public_key.as_slice())
    }

    /// The session key that this side derives from the other side's public key.
    ///
    /// The other side derives the same one: where `remote_public_key` is the text of the public
    /// key of `other`, the result is also what `other` derives from this side's public key.
    pub fn derive_session_key(&self, remote_public_key: &str) -> (res: Result<
        SessionKey,
        FaunaError,
    >)
        ensures
            match res {
                Ok(key) => derived_key(self@, remote_public_key@) == Ok::<Seq<u8>, FaunaError>(
                    key@,
                ),
                Err(e) => derived_key(self@, remote_public_key@) == Err::<Seq<u8>, FaunaError>(e),
            },
            forall|other: Seq<u8>|
                is_secret(other) && remote_public_key@ == #[trigger] base64_text(
                    x25519_public(other),
                ) ==> {
                    &&& res matches Ok(key)
                    &&& derived_key(other, base64_text(x25519_public(self@))) == Ok::<
                        Seq<u8>,
                        FaunaError,
                    >(key@)
                },
    {
        proof {
            use_type_invariant(self);
            base64_round_trips(x25519_public(self@));
            assert forall|other: Seq<u8>|
                is_secret(other) && remote_public_key@ == #[trigger] base64_text(
                    x25519_public(other),
                ) implies base64_bytes(remote_public_key@) == Some(x25519_public(other)) by {
                base64_round_trips(x25519_public(other));
            }
        }
        let bytes: Vec<u8> = match base64_decode(remote_public_key) {
            Ok(bytes) => bytes,
            Err(e) => {
                return Err(FaunaError::from(e));
            },
        };
        proof {
            base64_round_trips(bytes@);
        }
        let public_key: [u8; 32] = match array_of_32(&bytes) {
            Some(public_key) => public_key,
            None => {
                return Err(FaunaError::InvalidKey);
            },
        };
        let shared: [u8; 32] = exchange_shared(self.secret_key.bytes(), &public_key);
        let digest: [u8; 32] = sha256_digest(shared.as_slice());
        Ok(SessionKey::from_bytes(digest))
    }
}

/// The session key is the hash of the secret that the two keys share, for every public key of 32
/// bytes; any other number of bytes is no key.
pub proof fn session_key_is_the_hash_of_the_shared_secret(secret: Seq<u8>, public: Seq<u8>)
    ensures
        public.len() == 32 ==> derived_key(secret, base64_text(public)) == Ok::<
            Seq<u8>,
            FaunaError,
        >(sha256(x25519_shared(secret, public))),
        public.len() != 32 ==> derived_key(secret, base64_text(public)) == Err::<
            Seq<u8>,
            FaunaError,
        >(FaunaError::InvalidKey),
{
    base64_round_trips(public);
}

} // verus!
