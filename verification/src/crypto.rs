//! Session keys and the messages sealed with them.

use vstd::prelude::*;

use crate::bytes::{array_of_24, wipe};
use crate::encoding::{base64_bytes, base64_round_trips, base64_text};
use crate::error::FaunaError;
use crate::primitives::{
    base64_decode, base64_encode, base64_fault, overruns_cipher, random_bytes, xchacha_open,
    xchacha_opened, xchacha_seal, xchacha_sealed,
};

verus! {

/// A key for XChaCha20-Poly1305. It is overwritten when it is dropped.
pub struct SessionKey([u8; 32]);

/// A sealed message, with nonce and ciphertext in unpadded URL-safe base64.
#[derive(Debug)]
pub struct EncryptedMessage {
    pub nonce: String,
    pub ciphertext: String,
}

impl View for SessionKey {
    type V = Seq<u8>;

    closed spec fn view(&self) -> Seq<u8> {
        self.0@
    }
}

/// The view of a result that holds bytes.
pub open spec fn bytes_result(res: Result<Vec<u8>, FaunaError>) -> Result<Seq<u8>, FaunaError> {
    match res {
        Ok(bytes) => Ok(bytes@),
        Err(e) => Err(e),
    }
}

/// What the key `key` opens the message with the texts `nonce` and `ciphertext` to.
pub open spec fn opened(key: Seq<u8>, nonce: Seq<char>, ciphertext: Seq<char>) -> Result<
    Seq<u8>,
    FaunaError,
> {
    match base64_bytes(nonce) {
        None => Err(FaunaError::Base64(base64_fault(nonce))),
        Some(nonce_bytes) => if nonce_bytes.len() != 24 {
            Err(FaunaError::InvalidKey)
        } else {
            match base64_bytes(ciphertext) {
                None => Err(FaunaError::Base64(base64_fault(ciphertext))),
                Some(sealed) => match xchacha_opened(key, nonce_bytes, sealed) {
                    None => Err(FaunaError::Crypto),
                    Some(plaintext) => Ok(plaintext),
                },
            }
        },
    }
}

/// The message is `plaintext` sealed with `key` and `nonce`. The sealed bytes are 16 more than those
/// of the plaintext.
pub open spec fn seals(
    message: EncryptedMessage,
    key: Seq<u8>,
    nonce: Seq<u8>,
    plaintext: Seq<u8>,
) -> bool {
    &&& message.nonce@ == base64_text(nonce)
    &&& message.ciphertext@ == base64_text(xchacha_sealed(key, nonce, plaintext))
    &&& xchacha_sealed(key, nonce, plaintext).len() == plaintext.len() + 16
}

/// A plaintext of `size` bytes is small enough for the cipher.
pub open spec fn fits_cipher(size: int) -> bool {
    size < 64 * 0xffff_ffff
}

/// The cipher can try to open a message with these texts, where it comes to that.
pub open spec fn can_open(nonce: Seq<char>, ciphertext: Seq<char>) -> bool {
    match (base64_bytes(nonce), base64_bytes(ciphertext)) {
        (Some(nonce_bytes), Some(sealed)) => nonce_bytes.len() == 24 ==> !overruns_cipher(
            sealed.len() - 16,
        ),
        _ => true,
    }
}

impl SessionKey {
    /// A new key from the operating system's random source.
    pub fn generate() -> (res: SessionKey)
        ensures
            res@.len() == 32,
    {
        SessionKey(random_bytes::<32>())
    }

    /// The key with the given bytes.
    pub fn from_bytes(bytes: [u8; 32]) -> (res: SessionKey)
        ensures
            res@ == bytes@,
    {
        SessionKey(bytes)
    }

    /// The bytes of the key.
    pub fn expose_for_dev_only(&self) -> (res: [u8; 32])
        ensures
            res@ == self@,
    {
        self.0
    }

    /// Whether the cipher can be asked to seal a plaintext of `size` bytes.
    pub fn can_seal(size: usize) -> (res: bool)
        ensures
            res == !overruns_cipher(size as int),
    {
        let size: u128 = size as u128;
        size <= 64 * (0xffff_ffff - 1) || size >= 64 * 0xffff_ffff
    }

    /// Seals `plaintext` with a given nonce.
    pub fn encrypt_with_nonce(&self, nonce: &[u8; 24], plaintext: &[u8]) -> (res: Result<
        EncryptedMessage,
        FaunaError,
    >)
        requires
            !overruns_cipher(plaintext@.len() as int),
        ensures
            match res {
                Ok(message) => {
                    &&& fits_cipher(plaintext@.len() as int)
                    &&& seals(message, self@, nonce@, plaintext@)
                    &&& can_open(message.nonce@, message.ciphertext@)
                    &&& opened(self@, message.nonce@, message.ciphertext@) == Ok::<
                        Seq<u8>,
                        FaunaError,
                    >(plaintext@)
                },
                Err(e) => !fits_cipher(plaintext@.len() as int) && e == FaunaError::Crypto,
            },
    {
        let sealed: Vec<u8> = match xchacha_seal(&self.0, nonce, plaintext) {
            Ok(sealed) => sealed,
            Err(_) => {
                return Err(FaunaError::Crypto);
            },
        };
        proof {
            base64_round_trips(nonce@);
            base64_round_trips(sealed@);
        }
        Ok(
            EncryptedMessage {
                nonce: base64_encode(nonce.as_slice()),
                ciphertext: base64_encode(sealed.as_slice()),
            },
        )
    }

    /// Seals `plaintext` with a nonce from the operating system's random source.
    ///
    /// Whatever the nonce is, `decrypt` with the same key opens the message to `plaintext`.
    pub fn encrypt(&self, plaintext: &[u8]) -> (res: Result<EncryptedMessage, FaunaError>)
        requires
            !overruns_cipher(plaintext@.len() as int),
        ensures
            match res {
                Ok(message) => {
                    &&& fits_cipher(plaintext@.len() as int)
                    &&& exists|nonce: Seq<u8>|
                        nonce.len() == 24 && #[trigger] seals(message, self@, nonce, plaintext@)
                    &&& can_open(message.nonce@, message.ciphertext@)
                    &&& opened(self@, message.nonce@, message.ciphertext@) == Ok::<
                        Seq<u8>,
                        FaunaError,
                    >(plaintext@)
                },
                Err(e) => !fits_cipher(plaintext@.len() as int) && e == FaunaError::Crypto,
            },
    {
        let nonce: [u8; 24] = random_bytes::<24>();
        self.encrypt_with_nonce(&nonce, plaintext)
    }

    /// Opens a message.
    pub fn decrypt(&self, message: &EncryptedMessage) -> (res: Result<Vec<u8>, FaunaError>)
        requires
            can_open(message.nonce@, message.ciphertext@),
        ensures
            bytes_result(res) == opened(self@, message.nonce@, message.ciphertext@),
            res matches Ok(plaintext) ==> {
                &&& base64_bytes(message.ciphertext@) matches Some(sealed)
                &&& sealed.len() == plaintext@.len() + 16
            },
            base64_bytes(message.ciphertext@) matches Some(sealed) ==> sealed.len() < 16 ==> res
                is Err,
    {
        let nonce_bytes: Vec<u8> = match base64_decode(message.nonce.as_str()) {
            Ok(bytes) => bytes,
            Err(e) => {
                return Err(FaunaError::from(e));
            },
        };
        proof {
            base64_round_trips(nonce_bytes@);
        }
        let nonce: [u8; 24] = match array_of_24(&nonce_bytes) {
            Some(nonce) => nonce,
            None => {
                return Err(FaunaError::InvalidKey);
            },
        };
        let sealed: Vec<u8> = match base64_decode(message.ciphertext.as_str()) {
            Ok(bytes) => bytes,
            Err(e) => {
                return Err(FaunaError::from(e));
            },
        };
        proof {
            base64_round_trips(sealed@);
        }
        match xchacha_open(&self.0, &nonce, sealed.as_slice()) {
            Ok(plaintext) => Ok(plaintext),
            Err(_) => Err(FaunaError::Crypto),
        }
    }
}

impl EncryptedMessage {
    /// Whether `SessionKey::decrypt` can be asked to open this message.
    pub fn can_be_opened(&self) -> (res: bool)
        ensures
            res == can_open(self.nonce@, self.ciphertext@),
    {
        let nonce: Vec<u8> = match base64_decode(self.nonce.as_str()) {
            Ok(bytes) => bytes,
            Err(_) => {
                return true;
            },
        };
        let sealed: Vec<u8> = match base64_decode(self.ciphertext.as_str()) {
            Ok(bytes) => bytes,
            Err(_) => {
                return true;
            },
        };
        proof {
            base64_round_trips(nonce@);
            base64_round_trips(sealed@);
        }
        let size: u128 = sealed.len() as u128;
        nonce.len() != 24 || size <= 64 * (0xffff_ffff - 1) + 16 || size >= 64 * 0xffff_ffff + 16
    }
}

impl Clone for EncryptedMessage {
    fn clone(&self) -> (res: EncryptedMessage)
        ensures
            res.nonce@ == self.nonce@,
            res.ciphertext@ == self.ciphertext@,
    {
        EncryptedMessage { nonce: self.nonce.clone(), ciphertext: self.ciphertext.clone() }
    }
}

impl Clone for SessionKey {
    fn clone(&self) -> (res: SessionKey)
        ensures
            res@ == self@,
    {
        SessionKey(self.0)
    }
}

impl Drop for SessionKey {
    fn drop(&mut self)
        ensures
            final(self)@ == Seq::new(32, |i: int| 0u8),
        opens_invariants none
        no_unwind
    {
        wipe(&mut self.0);
    }
}

/// Every plaintext of fewer than 274877906880 bytes is small enough for the cipher, and no other.
pub proof fn sealing_has_room(size: int)
    ensures
        fits_cipher(size) <==> size < 274_877_906_880,
{
}

/// Opening a message is what the cipher does with its nonce and ciphertext, whatever they hold: its
/// plaintext comes out whole, and where the tag is wrong the message is refused.
pub proof fn opening_is_up_to_the_cipher(key: Seq<u8>, nonce: Seq<u8>, sealed: Seq<u8>)
    ensures
        nonce.len() == 24 ==> match xchacha_opened(key, nonce, sealed) {
            Some(plaintext) => opened(key, base64_text(nonce), base64_text(sealed)) == Ok::<
                Seq<u8>,
                FaunaError,
            >(plaintext),
            None => opened(key, base64_text(nonce), base64_text(sealed)) == Err::<
                Seq<u8>,
                FaunaError,
            >(FaunaError::Crypto),
        },
        nonce.len() != 24 ==> opened(key, base64_text(nonce), base64_text(sealed)) == Err::<
            Seq<u8>,
            FaunaError,
        >(FaunaError::InvalidKey),
{
    base64_round_trips(nonce);
    base64_round_trips(sealed);
}

/// What opens is a message of the cipher in base64: nothing else is ever opened.
pub proof fn only_sealed_bytes_open(key: Seq<u8>, nonce: Seq<char>, ciphertext: Seq<char>)
    requires
        opened(key, nonce, ciphertext) is Ok,
    ensures
        exists|nonce_bytes: Seq<u8>, sealed: Seq<u8>| #[trigger]
            base64_text(nonce_bytes) == nonce && nonce_bytes.len() == 24 && #[trigger] base64_text(
                sealed,
            ) == ciphertext && xchacha_opened(key, nonce_bytes, sealed) == Some(
                opened(key, nonce, ciphertext)->Ok_0,
            ),
{
    let nonce_bytes = base64_bytes(nonce)->0;
    let sealed = base64_bytes(ciphertext)->0;
    assert(base64_text(nonce_bytes) == nonce);
    assert(base64_text(sealed) == ciphertext);
}

/// A sealed message holds exactly its nonce and what the cipher makes of the plaintext with it.
pub proof fn a_message_holds_nonce_and_ciphertext(
    message: EncryptedMessage,
    key: Seq<u8>,
    nonce: Seq<u8>,
    plaintext: Seq<u8>,
    bytes: Vec<u8>,
)
    ensures
        seals(message, key, nonce, plaintext) ==> {
            &&& base64_bytes(message.nonce@) == Some(nonce)
            &&& base64_bytes(message.ciphertext@) == Some(xchacha_sealed(key, nonce, plaintext))
        },
        bytes_result(Ok(bytes)) == Ok::<Seq<u8>, FaunaError>(bytes@),
{
    base64_round_trips(nonce);
    base64_round_trips(xchacha_sealed(key, nonce, plaintext));
}

} // verus!
