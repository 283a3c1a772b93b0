//! The outside functions that the library calls, each with what it is trusted to do.
//!
//! Keys, nonces, digests and signatures cross this border as bytes. A function whose result only
//! the outside crate can compute gets a name here (a specification function without a body), and
//! the contracts of the library speak of that name.

use base64::engine::general_purpose::URL_SAFE_NO_PAD;
use base64::Engine;
use chacha20poly1305::aead::{Aead, KeyInit};
use chacha20poly1305::{XChaCha20Poly1305, XNonce};
use ed25519_dalek::{Signature, Signer, SigningKey, Verifier};
use hmac::{Hmac, Mac};
use rand_core::{OsRng, RngCore};
use sha2::{Digest, Sha256};
use vstd::prelude::*;
use vstd::utf8::{decode_utf8, valid_utf8};
use x25519_dalek::{PublicKey, StaticSecret};

use crate::digits::hex_lower;
use crate::encoding::{base64_bytes, base64_text};
use crate::json::json_string;

verus! {

/// The error of base64 decoding.
#[verifier::external_type_specification]
#[verifier::external_body]
pub struct ExBase64Error(base64::DecodeError);

/// The error of JSON reading and writing.
#[verifier::external_type_specification]
#[verifier::external_body]
pub struct ExJsonError(serde_json::Error);

/// The error of sealing and opening messages.
#[verifier::external_type_specification]
#[verifier::external_body]
pub struct ExCipherError(chacha20poly1305::aead::Error);

/// The error of signature keys and signature checks.
#[verifier::external_type_specification]
#[verifier::external_body]
pub struct ExSignatureError(ed25519_dalek::SignatureError);

/// The error of a message authentication key of an unusable length.
#[verifier::external_type_specification]
#[verifier::external_body]
pub struct ExKeyLengthError(hmac::digest::InvalidLength);

/// What `base64` reports of a text that is no unpadded URL-safe base64.
pub uninterp spec fn base64_fault(text: Seq<char>) -> base64::DecodeError;

/// The SHA-256 digest of `data`.
pub uninterp spec fn sha256(data: Seq<u8>) -> Seq<u8>;

/// The HMAC-SHA256 of `message` under `key`.
pub uninterp spec fn hmac_sha256(key: Seq<u8>, message: Seq<u8>) -> Seq<u8>;

/// The XChaCha20-Poly1305 ciphertext of `plaintext`, with its tag behind it.
pub uninterp spec fn xchacha_sealed(key: Seq<u8>, nonce: Seq<u8>, plaintext: Seq<u8>) -> Seq<u8>;

/// What XChaCha20-Poly1305 opens `ciphertext` to, if its tag is right.
pub uninterp spec fn xchacha_opened(key: Seq<u8>, nonce: Seq<u8>, ciphertext: Seq<u8>) -> Option<
    Seq<u8>,
>;

/// The Ed25519 public key that belongs to a secret key.
pub uninterp spec fn ed25519_public(secret: Seq<u8>) -> Seq<u8>;

/// Whether 32 bytes are an Ed25519 public key.
pub uninterp spec fn ed25519_is_key(bytes: Seq<u8>) -> bool;

/// The Ed25519 signature of `message` under a secret key.
pub uninterp spec fn ed25519_signature(secret: Seq<u8>, message: Seq<u8>) -> Seq<u8>;

/// Whether `signature` is a signature of `message` that belongs to a public key.
pub uninterp spec fn ed25519_verifies(
    public: Seq<u8>,
    message: Seq<u8>,
    signature: Seq<u8>,
) -> bool;

/// The X25519 public key that belongs to a secret key.
pub uninterp spec fn x25519_public(secret: Seq<u8>) -> Seq<u8>;

/// The X25519 secret that a secret key and another side's public key share.
pub uninterp spec fn x25519_shared(secret: Seq<u8>, public: Seq<u8>) -> Seq<u8>;

/// The text of `bytes` with replacement characters where they are no UTF-8.
pub uninterp spec fn utf8_lossy(bytes: Seq<u8>) -> Seq<char>;

/// `base64`'s `Engine::encode` of the engine `URL_SAFE_NO_PAD` writes unpadded URL-safe base64.
#[verifier::external_body]
pub(crate) fn base64_encode(bytes: &[u8]) -> (res: String)
    ensures
        res@ == base64_text(bytes@),
{
    URL_SAFE_NO_PAD.encode(bytes)
}

/// `base64`'s `Engine::decode` of the engine `URL_SAFE_NO_PAD` reads exactly the texts that
/// `encode` writes, and gives back their bytes; the error for another text depends on that text
/// alone.
#[verifier::external_body]
pub(crate) fn base64_decode(text: &str) -> (res: Result<Vec<u8>, base64::DecodeError>)
    ensures
        match res {
            Ok(bytes) => base64_text(bytes@) == text@,
            Err(e) => base64_bytes(text@) is None && e == base64_fault(text@),
        },
{
    URL_SAFE_NO_PAD.decode(text)
}

/// `hex::encode` writes two lower-case digits for every byte.
#[verifier::external_body]
pub(crate) fn hex_text(bytes: &[u8]) -> (res: String)
    ensures
        res@ == hex_lower(bytes@),
{
    hex::encode(bytes)
}

/// `serde_json::to_string` of a `str` writes a JSON string and does not fail.
#[verifier::external_body]
pub(crate) fn json_text(text: &str) -> (res: Result<String, serde_json::Error>)
    ensures
        res is Ok,
        res->Ok_0@ == json_string(text@),
{
    serde_json::to_string(text)
}

/// `String::from_utf8_lossy` keeps the text of valid UTF-8.
#[verifier::external_body]
pub(crate) fn lossy_text(bytes: &[u8]) -> (res: String)
    ensures
        res@ == utf8_lossy(bytes@),
        valid_utf8(bytes@) ==> res@ == decode_utf8(bytes@),
{
    String::from_utf8_lossy(bytes).into_owned()
}

/// `OsRng::fill_bytes` fills the array with bytes of the operating system's random source, any
/// bytes at all. It panics where that source fails.
#[verifier::external_body]
pub(crate) fn random_bytes<const N: usize>() -> (res: [u8; N]) {
    let mut bytes = [0u8; N];
    OsRng.fill_bytes(&mut bytes);
    bytes
}

/// `SigningKey::generate` draws a secret key from the operating system's random source, any 32
/// bytes at all. It panics where that source fails.
#[verifier::external_body]
pub(crate) fn random_signing_secret() -> (res: [u8; 32]) {
    SigningKey::generate(&mut OsRng).to_bytes()
}

/// `StaticSecret::random_from_rng` draws a secret key from the operating system's random source,
/// any 32 bytes at all. It panics where that source fails.
#[verifier::external_body]
pub(crate) fn random_exchange_secret() -> (res: [u8; 32]) {
    StaticSecret::random_from_rng(OsRng).to_bytes()
}

/// `Sha256::digest` is a function of the data.
#[verifier::external_body]
pub(crate) fn sha256_digest(data: &[u8]) -> (res: [u8; 32])
    ensures
        res@ == sha256(data@),
{
    Sha256::digest(data).into()
}

/// `Hmac::<Sha256>` takes a key of any length, and its code is a function of key and message.
#[verifier::external_body]
pub(crate) fn hmac_code(key: &[u8], message: &[u8]) -> (res: Result<
    [u8; 32],
    hmac::digest::InvalidLength,
>)
    ensures
        res is Ok,
        res->Ok_0@ == hmac_sha256(key@, message@),
{
    let mut mac = <Hmac<Sha256> as Mac>::new_from_slice(key)?;
    mac.update(message);
    Ok(mac.finalize().into_bytes().into())
}

/// The sizes of plaintext that reach into the last 64-byte block that the 32-bit block counter of
/// XChaCha20-Poly1305 has room for, without filling it. The cipher does not refuse these, and
/// panics for want of keystream.
pub open spec fn overruns_cipher(len: int) -> bool {
    64 * (0xffff_ffff - 1) < len < 64 * 0xffff_ffff
}

/// `XChaCha20Poly1305::encrypt` refuses a plaintext only where the block counter has no room for
/// it. The ciphertext is a function of key, nonce and plaintext, is 16 bytes longer than the
/// plaintext, and `decrypt` opens it again.
#[verifier::external_body]
pub(crate) fn xchacha_seal(key: &[u8; 32], nonce: &[u8; 24], plaintext: &[u8]) -> (res: Result<
    Vec<u8>,
    chacha20poly1305::aead::Error,
>)
    requires
        !overruns_cipher(plaintext@.len() as int),
    ensures
        res is Ok <==> plaintext@.len() < 64 * 0xffff_ffff,
        res matches Ok(sealed) ==> {
            &&& sealed@ == xchacha_sealed(key@, nonce@, plaintext@)
            &&& sealed@.len() == plaintext@.len() + 16
            &&& xchacha_opened(key@, nonce@, sealed@) == Some(plaintext@)
        },
{
    XChaCha20Poly1305::new(key.into()).encrypt(XNonce::from_slice(nonce), plaintext)
}

/// `XChaCha20Poly1305::decrypt` gives the plaintext where the tag is right, and an error
/// otherwise; which of the two, and the plaintext, depend on key, nonce and ciphertext alone. The
/// plaintext is 16 bytes shorter than the ciphertext, and fewer than 16 bytes are refused. A
/// ciphertext of a size at which a right tag makes it panic is left out, whatever its tag.
#[verifier::external_body]
pub(crate) fn xchacha_open(key: &[u8; 32], nonce: &[u8; 24], ciphertext: &[u8]) -> (res: Result<
    Vec<u8>,
    chacha20poly1305::aead::Error,
>)
    requires
        !overruns_cipher(ciphertext@.len() - 16),
    ensures
        match res {
            Ok(plaintext) => xchacha_opened(key@, nonce@, ciphertext@) == Some(plaintext@),
            Err(_) => xchacha_opened(key@, nonce@, ciphertext@) is None,
        },
        res matches Ok(plaintext) ==> ciphertext@.len() == plaintext@.len() + 16,
        ciphertext@.len() < 16 ==> res is Err,
{
    XChaCha20Poly1305::new(key.into()).decrypt(XNonce::from_slice(nonce), ciphertext)
}

/// `SigningKey::verifying_key` is a function of the secret key, and its bytes are a public key.
#[verifier::external_body]
pub(crate) fn signing_public(secret: &[u8; 32]) -> (res: [u8; 32])
    ensures
        res@ == ed25519_public(secret@),
        ed25519_is_key(res@),
{
    SigningKey::from_bytes(secret).verifying_key().to_bytes()
}

/// `VerifyingKey::from_bytes` takes or refuses 32 bytes, and that depends on them alone.
#[verifier::external_body]
pub(crate) fn check_public(bytes: &[u8; 32]) -> (res: Result<(), ed25519_dalek::SignatureError>)
    ensures
        res is Ok <==> ed25519_is_key(bytes@),
{
    ed25519_dalek::VerifyingKey::from_bytes(bytes)?;
    Ok(())
}

/// `SigningKey::sign` is a function of secret key and message, and its signature belongs to the
/// public key of that secret key.
#[verifier::external_body]
pub(crate) fn signing_sign(secret: &[u8; 32], message: &[u8]) -> (res: [u8; 64])
    ensures
        res@ == ed25519_signature(secret@, message@),
        ed25519_verifies(ed25519_public(secret@), message@, res@),
{
    SigningKey::from_bytes(secret).sign(message).to_bytes()
}

/// `VerifyingKey::verify` takes or refuses a signature, and that depends on key, message and
/// signature alone; a signature that is not 64 bytes long is refused.
#[verifier::external_body]
pub(crate) fn signing_verify(public: &[u8; 32], message: &[u8], signature: &[u8]) -> (res: Result<
    (),
    ed25519_dalek::SignatureError,
>)
    requires
        ed25519_is_key(public@),
    ensures
        res is Ok <==> ed25519_verifies(public@, message@, signature@),
        signature@.len() != 64 ==> res is Err,
{
    let key = ed25519_dalek::VerifyingKey::from_bytes(public)?;
    key.verify(message, &Signature::from_slice(signature)?)
}

/// `PublicKey::from` of a `StaticSecret` is a function of the secret key.
#[verifier::external_body]
pub(crate) fn exchange_public(secret: &[u8; 32]) -> (res: [u8; 32])
    ensures
        res@ == x25519_public(secret@),
{
    PublicKey::from(&StaticSecret::from(*secret)).to_bytes()
}

/// `StaticSecret::diffie_hellman` is a function of the secret key and the other side's public key,
/// and the other side arrives at the same bytes.
#[verifier::external_body]
pub(crate) fn exchange_shared(secret: &[u8; 32], public: &[u8; 32]) -> (res: [u8; 32])
    ensures
        res@ == x25519_shared(secret@, public@),
        forall|other: Seq<u8>|
            other.len() == 32 && public@ == x25519_public(other) ==> res@
                == #[trigger] x25519_shared(other, x25519_public(secret@)),
{
    StaticSecret::from(*secret).diffie_hellman(&PublicKey::from(*public)).to_bytes()
}

} // verus!
