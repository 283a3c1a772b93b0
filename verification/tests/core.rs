use base64::engine::general_purpose::URL_SAFE_NO_PAD;
use base64::Engine;
use chacha20poly1305::aead::{Aead, KeyInit};
use chacha20poly1305::{XChaCha20Poly1305, XNonce};
use fauna::identity::ExportedIdentity;
use fauna::invite::invite_link;
use fauna::{
    DeviceIdentity, EncryptedMessage, ExchangeKeypair, FaunaError, Invite, PeerId, SessionKey,
};
use sha2::{Digest, Sha256};

fn text_at(value: &serde_json::Value, name: &str) -> String {
    value[name].as_str().unwrap().to_owned()
}

fn read_invite(payload: &[u8]) -> Invite {
    let value: serde_json::Value = serde_json::from_slice(payload).unwrap();
    let mut addresses: Vec<String> = Vec::new();
    for address in value["addresses"].as_array().unwrap() {
        addresses.push(address.as_str().unwrap().to_owned());
    }
    Invite {
        version: value["version"].as_u64().unwrap() as u8,
        peer_id: PeerId::from_text(text_at(&value, "peer_id")),
        display_name: text_at(&value, "display_name"),
        public_key: text_at(&value, "public_key"),
        addresses,
    }
}

fn fixed_identity() -> DeviceIdentity {
    let bytes = hex::decode("9d61b19deffd5a60ba844af492ec2cc44449c5697b326919703bac031cae7f60")
        .unwrap();
    DeviceIdentity::from_secret_key_bytes(bytes.try_into().unwrap())
}

#[test]
fn session_key_encrypts_and_decrypts() {
    let key = SessionKey::generate();
    let encrypted = key.encrypt(b"secret message").unwrap();
    let decrypted = key.decrypt(&encrypted).unwrap();

    assert_eq!(decrypted, b"secret message");
}

#[test]
fn identity_can_sign_and_verify() {
    let identity = DeviceIdentity::generate();
    let message = b"hello fauna";
    let signature = identity.sign(message);

    DeviceIdentity::verify(&identity.public_key(), message, &signature).unwrap();
}

#[test]
fn exported_identity_round_trips() {
    let identity = DeviceIdentity::generate();
    let restored = DeviceIdentity::from_export(&identity.export()).unwrap();

    assert_eq!(identity.peer_id(), restored.peer_id());
}

#[test]
fn public_key_decodes_from_base64() {
    let identity = DeviceIdentity::generate();
    let public_key =
        DeviceIdentity::public_key_from_base64(&identity.public_key_base64()).unwrap();

    assert_eq!(PeerId::from_public_key(&public_key), identity.peer_id());
}

#[test]
fn invite_round_trips() {
    let identity = DeviceIdentity::generate();
    let invite = Invite::new(&identity, "Ada").with_address("/ip4/127.0.0.1/tcp/45123");
    let encoded = invite.encode().unwrap();
    let decoded = read_invite(&Invite::decode(&encoded).unwrap());

    assert_eq!(decoded.peer_id, identity.peer_id());
    assert_eq!(decoded.display_name, "Ada");
    assert_eq!(decoded.addresses, vec!["/ip4/127.0.0.1/tcp/45123"]);
}

#[test]
fn peers_derive_the_same_session_key() {
    let alice = ExchangeKeypair::generate();
    let bob = ExchangeKeypair::generate();

    let alice_key = alice
        .derive_session_key(&bob.public_key_base64())
        .unwrap()
        .expose_for_dev_only();
    let bob_key = bob
        .derive_session_key(&alice.public_key_base64())
        .unwrap()
        .expose_for_dev_only();

    assert_eq!(alice_key, bob_key);
}

#[test]
fn signing_keys_match_a_published_vector() {
    let identity = fixed_identity();
    assert_eq!(
        hex::encode(identity.public_key().as_bytes()),
        "d75a980182b10ab7d54bfed3c964073a0ee172f3daa62325af021a68f707511a"
    );
    assert_eq!(
        hex::encode(identity.sign(b"")),
        "e5564300c360ac729086e2cc806e828a84877f1eb8e5d974d873e065224901555fb8821590a33bacc61e39701cf9b46bd25bf5f0595bbe24655141438e7a100b"
    );
}

#[test]
fn peer_id_is_the_start_of_the_hash_of_the_key() {
    let identity = fixed_identity();
    let digest = Sha256::digest(identity.public_key().as_bytes());
    let expected = format!("fauna-{}", hex::encode(&digest[..16]));
    assert_eq!(identity.peer_id().as_str(), expected);
    assert_eq!(identity.peer_id().to_string(), expected);
    assert_eq!(identity.peer_id().as_str().len(), 38);
    assert_ne!(identity.peer_id(), DeviceIdentity::generate().peer_id());
}

#[test]
fn a_forged_signature_is_refused() {
    let identity = fixed_identity();
    let mut signature = identity.sign(b"message");
    assert!(DeviceIdentity::verify(&identity.public_key(), b"message", &signature).is_ok());
    assert!(matches!(
        DeviceIdentity::verify(&identity.public_key(), b"messagf", &signature),
        Err(FaunaError::Signature)
    ));
    assert!(matches!(
        DeviceIdentity::verify(&identity.public_key(), b"message", &signature[..63]),
        Err(FaunaError::Signature)
    ));
    signature[0] ^= 1;
    assert!(matches!(
        DeviceIdentity::verify(&identity.public_key(), b"message", &signature),
        Err(FaunaError::Signature)
    ));
}

#[test]
fn export_holds_the_keys_in_base64() {
    let identity = fixed_identity();
    let export = identity.export();
    assert_eq!(export.peer_id, identity.peer_id());
    assert_eq!(export.public_key, identity.public_key_base64());
    assert_eq!(export.secret_key, "nWGxne_9WmC6hEr0kuwsxERJxWl7MmkZcDusAxyuf2A");
    let restored = DeviceIdentity::from_export(&export).unwrap();
    assert_eq!(restored.sign(b"x"), identity.sign(b"x"));
    assert_eq!(identity.clone().sign(b"x"), identity.sign(b"x"));
}

#[test]
fn unusable_exports_are_refused() {
    let identity = fixed_identity();
    let not_base64 = ExportedIdentity {
        peer_id: identity.peer_id(),
        secret_key: "not base64!".to_owned(),
        public_key: String::new(),
    };
    match DeviceIdentity::from_export(&not_base64) {
        Err(FaunaError::Base64(e)) => {
            assert_eq!(e, URL_SAFE_NO_PAD.decode("not base64!").unwrap_err())
        }
        _ => panic!("expected a base64 error"),
    }
    let short = ExportedIdentity {
        peer_id: identity.peer_id(),
        secret_key: "AAAA".to_owned(),
        public_key: String::new(),
    };
    assert!(matches!(DeviceIdentity::from_export(&short), Err(FaunaError::InvalidKey)));
}

#[test]
fn unusable_public_keys_are_refused() {
    assert!(matches!(
        DeviceIdentity::public_key_from_base64("?"),
        Err(FaunaError::Base64(_))
    ));
    assert!(matches!(
        DeviceIdentity::public_key_from_base64("AAAA"),
        Err(FaunaError::InvalidKey)
    ));
    let mut no_point = [0u8; 32];
    no_point[0] = 2;
    assert!(ed25519_dalek::VerifyingKey::from_bytes(&no_point).is_err());
    assert!(matches!(
        DeviceIdentity::public_key_from_base64(&URL_SAFE_NO_PAD.encode(no_point)),
        Err(FaunaError::InvalidKey)
    ));
}

#[test]
fn sealing_is_what_the_cipher_does() {
    let key = SessionKey::from_bytes([7u8; 32]);
    let nonce = [9u8; 24];
    let message = key.encrypt_with_nonce(&nonce, b"attack at dawn").unwrap();
    let cipher = XChaCha20Poly1305::new((&[7u8; 32]).into());
    let expected = cipher
        .encrypt(XNonce::from_slice(&nonce), b"attack at dawn".as_ref())
        .unwrap();
    assert_eq!(message.nonce, URL_SAFE_NO_PAD.encode(nonce));
    assert_eq!(expected.len(), b"attack at dawn".len() + 16);
    assert_eq!(message.ciphertext, URL_SAFE_NO_PAD.encode(expected));
    assert_eq!(message.nonce.len(), 32);
    assert_eq!(key.decrypt(&message).unwrap(), b"attack at dawn");
    assert_eq!(key.clone().decrypt(&message.clone()).unwrap(), b"attack at dawn");
    assert!(message.can_be_opened());
    assert!(SessionKey::can_seal(14));
}

#[test]
fn sizes_at_the_end_of_the_keystream_are_known() {
    let limit: u64 = 64 * 0xffff_ffff;
    assert!(SessionKey::can_seal((limit - 64) as usize));
    assert!(!SessionKey::can_seal((limit - 63) as usize));
    assert!(!SessionKey::can_seal((limit - 1) as usize));
    assert!(SessionKey::can_seal(limit as usize));
}

#[test]
fn a_changed_message_is_refused() {
    let key = SessionKey::from_bytes([1u8; 32]);
    let good = key.encrypt(b"text").unwrap();
    let other = SessionKey::from_bytes([2u8; 32]);
    assert!(matches!(other.decrypt(&good), Err(FaunaError::Crypto)));

    let bad_nonce = EncryptedMessage { nonce: "*".to_owned(), ciphertext: good.ciphertext.clone() };
    assert!(matches!(key.decrypt(&bad_nonce), Err(FaunaError::Base64(_))));
    let short_nonce =
        EncryptedMessage { nonce: "AAAA".to_owned(), ciphertext: good.ciphertext.clone() };
    assert!(matches!(key.decrypt(&short_nonce), Err(FaunaError::InvalidKey)));
    let bad_text = EncryptedMessage { nonce: good.nonce.clone(), ciphertext: "a b".to_owned() };
    assert!(matches!(key.decrypt(&bad_text), Err(FaunaError::Base64(_))));
    let short_text = EncryptedMessage { nonce: good.nonce.clone(), ciphertext: "AAAA".to_owned() };
    assert!(matches!(key.decrypt(&short_text), Err(FaunaError::Crypto)));
    let no_text = EncryptedMessage { nonce: good.nonce.clone(), ciphertext: String::new() };
    assert!(matches!(key.decrypt(&no_text), Err(FaunaError::Crypto)));
    assert_eq!(key.decrypt(&key.encrypt(b"").unwrap()).unwrap(), b"");
}

#[test]
fn two_sealings_differ() {
    let key = SessionKey::generate();
    let first = key.encrypt(b"same").unwrap();
    let second = key.encrypt(b"same").unwrap();
    assert_ne!(first.nonce, second.nonce);
    assert_ne!(first.ciphertext, second.ciphertext);
    assert_ne!(
        SessionKey::generate().expose_for_dev_only(),
        SessionKey::generate().expose_for_dev_only()
    );
}

#[test]
fn session_key_is_the_hash_of_the_shared_secret() {
    let ours = ExchangeKeypair::from_secret_key_bytes([3u8; 32]);
    let theirs = x25519_dalek::StaticSecret::from([4u8; 32]);
    let their_public = x25519_dalek::PublicKey::from(&theirs);
    let our_public = x25519_dalek::PublicKey::from(&x25519_dalek::StaticSecret::from([3u8; 32]));
    assert_eq!(ours.public_key_base64(), URL_SAFE_NO_PAD.encode(our_public.as_bytes()));

    let shared = theirs.diffie_hellman(&our_public);
    let expected = Sha256::digest(shared.as_bytes());
    let key = ours
        .derive_session_key(&URL_SAFE_NO_PAD.encode(their_public.as_bytes()))
        .unwrap();
    assert_eq!(key.expose_for_dev_only().as_slice(), expected.as_slice());
}

#[test]
fn unusable_exchange_keys_are_refused() {
    let ours = ExchangeKeypair::generate();
    assert!(matches!(ours.derive_session_key("="), Err(FaunaError::Base64(_))));
    assert!(matches!(ours.derive_session_key("AAAA"), Err(FaunaError::InvalidKey)));
}

#[test]
fn links_carry_their_payload() {
    assert_eq!(Invite::decode("aGVsbG8").unwrap(), b"hello");
    assert_eq!(Invite::decode("fauna://join/aGVsbG8").unwrap(), b"hello");
    assert_eq!(Invite::decode("").unwrap(), b"");
    for text in ["aGVsbG9", "aGVsbG8=", "fauna://joim/aGVsbG8", "aGVs bG8", "ü"] {
        match Invite::decode(text) {
            Err(FaunaError::Base64(e)) => {
                assert_eq!(e, URL_SAFE_NO_PAD.decode(text).unwrap_err())
            }
            _ => panic!("expected a base64 error"),
        }
    }
}

#[test]
fn invite_is_written_as_json() {
    let identity = fixed_identity();
    let invite = Invite::new(&identity, "A\"d\\a\n\u{1}ü").with_address("one").with_address("two");
    let payload = Invite::decode(&invite.encode().unwrap()).unwrap();
    let expected = format!(
        "{{\"version\":1,\"peer_id\":\"{}\",\"display_name\":\"A\\\"d\\\\a\\n\\u0001ü\",\"public_key\":\"{}\",\"addresses\":[\"one\",\"two\"]}}",
        identity.peer_id().as_str(),
        identity.public_key_base64()
    );
    assert_eq!(String::from_utf8(payload.clone()).unwrap(), expected);
    let read = read_invite(&payload);
    assert_eq!(read.version, 1);
    assert_eq!(read.display_name, "A\"d\\a\n\u{1}ü");
    assert_eq!(read.public_key, identity.public_key_base64());
    assert_eq!(read.addresses, vec!["one", "two"]);
    let bare = Invite::new(&identity, "").encode().unwrap();
    assert!(String::from_utf8(Invite::decode(&bare).unwrap()).unwrap().ends_with("\"addresses\":[]}"));
}

#[test]
fn other_invites_have_other_links() {
    let identity = fixed_identity();
    let first = Invite::new(&identity, "Ada").with_address("a\",\"b");
    let second = Invite::new(&identity, "Ada").with_address("a").with_address("b");
    assert_ne!(first.encode().unwrap(), second.encode().unwrap());
    assert_eq!(first.clone().encode().unwrap(), first.encode().unwrap());
}

#[test]
fn a_link_can_be_made_in_one_step() {
    let identity = fixed_identity();
    let addresses = vec!["a:1".to_owned(), "b:2".to_owned()];
    let expected = Invite::new(&identity, "Ada").with_address("a:1").with_address("b:2");
    assert_eq!(
        invite_link(&identity, "Ada", &addresses).unwrap(),
        expected.encode().unwrap()
    );
    let more = Invite::new(&identity, "Ada").with_addresses(&addresses);
    assert_eq!(more.addresses, addresses);
}

#[test]
fn errors_describe_themselves() {
    let fault = URL_SAFE_NO_PAD.decode("?").unwrap_err();
    assert_eq!(FaunaError::from(fault).message(), "base64 decode failed");
    assert_eq!(FaunaError::Crypto.message(), "crypto operation failed");
    assert_eq!(FaunaError::InvalidKey.message(), "invalid key material");
    let json = serde_json::from_str::<serde_json::Value>("{").unwrap_err();
    assert_eq!(FaunaError::from(json).message(), "json serialization failed");
    assert_eq!(FaunaError::Signature.message(), "signature verification failed");
}
