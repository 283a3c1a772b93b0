use base64::engine::general_purpose::URL_SAFE_NO_PAD;
use base64::Engine;
use fauna::language::Language;
use fauna::session::{
    create_hello, establish, open_text, received_json, seal_line, seal_text, verify_hello,
    ChatFrame, Disconnected, HelloError, HelloFrame, SessionError,
};
use fauna::{DeviceIdentity, ExchangeKeypair, FaunaError, PeerId, SessionKey};

fn hello(name: &str) -> (DeviceIdentity, ExchangeKeypair, HelloFrame) {
    let identity = DeviceIdentity::generate();
    let exchange = ExchangeKeypair::generate();
    let frame = create_hello(&identity, name, &exchange);
    (identity, exchange, frame)
}

#[test]
fn an_honest_greeting_is_accepted() {
    let (identity, exchange, frame) = hello("Ada");
    assert!(verify_hello(&frame, None).is_ok());
    assert!(verify_hello(&frame, Some(&identity.public_key_base64())).is_ok());
    assert_eq!(frame.peer_id, identity.peer_id());
    assert_eq!(frame.display_name, "Ada");
    assert_eq!(frame.identity_public_key, identity.public_key_base64());
    assert_eq!(frame.exchange_public_key, exchange.public_key_base64());
    assert_eq!(
        frame.signature,
        URL_SAFE_NO_PAD.encode(identity.sign(exchange.public_key_base64().as_bytes()))
    );
}

#[test]
fn an_uninvited_device_is_refused() {
    let (_, _, frame) = hello("Eve");
    let invited = DeviceIdentity::generate().public_key_base64();
    assert!(matches!(verify_hello(&frame, Some(&invited)), Err(HelloError::WrongIdentity)));
}

#[test]
fn a_greeting_without_a_key_is_refused() {
    let (_, _, mut frame) = hello("Ada");
    frame.identity_public_key = "AAAA".to_owned();
    assert!(matches!(
        verify_hello(&frame, None),
        Err(HelloError::PublicKey(FaunaError::InvalidKey))
    ));
    frame.identity_public_key = "!".to_owned();
    assert!(matches!(
        verify_hello(&frame, None),
        Err(HelloError::PublicKey(FaunaError::Base64(_)))
    ));
}

#[test]
fn a_greeting_under_a_wrong_name_is_refused() {
    let (_, _, mut frame) = hello("Ada");
    frame.peer_id = PeerId::from_text("fauna-0".to_owned());
    assert!(matches!(verify_hello(&frame, None), Err(HelloError::PeerIdMismatch)));
}

#[test]
fn a_greeting_with_a_bad_signature_is_refused() {
    let (_, _, mut frame) = hello("Ada");
    frame.exchange_public_key = ExchangeKeypair::generate().public_key_base64();
    assert!(matches!(
        verify_hello(&frame, None),
        Err(HelloError::Signature(FaunaError::Signature))
    ));
    frame.signature = "AAAA".to_owned();
    assert!(matches!(
        verify_hello(&frame, None),
        Err(HelloError::Signature(FaunaError::Signature))
    ));
    frame.signature = "~".to_owned();
    assert!(matches!(verify_hello(&frame, None), Err(HelloError::SignatureEncoding(_))));
}

#[test]
fn both_sides_establish_the_same_session() {
    let (alice, alice_exchange, alice_hello) = hello("Alice");
    let (_, bob_exchange, bob_hello) = hello("Bob");
    let alice_key = establish(&alice_exchange, &bob_hello, None).unwrap();
    let bob_key =
        establish(&bob_exchange, &alice_hello, Some(&alice.public_key_base64())).unwrap();
    assert_eq!(alice_key.expose_for_dev_only(), bob_key.expose_for_dev_only());

    let frame = seal_text(&alice_key, "merhaba ğ").unwrap();
    assert!(frame.can_be_opened());
    assert_eq!(open_text(&bob_key, &frame).unwrap(), "merhaba ğ");
}

#[test]
fn a_session_with_a_refused_greeting_is_not_established() {
    let (_, exchange, _) = hello("Alice");
    let (identity, _, mut frame) = hello("Bob");
    match establish(&exchange, &frame, Some("somebody")) {
        Err(SessionError::Hello(HelloError::WrongIdentity)) => {}
        _ => panic!("expected a wrong identity"),
    }
    frame.exchange_public_key = "AAAA".to_owned();
    frame.signature = URL_SAFE_NO_PAD.encode(identity.sign(b"AAAA"));
    match establish(&exchange, &frame, None) {
        Err(SessionError::ExchangeKey(FaunaError::InvalidKey)) => {}
        _ => panic!("expected an invalid key"),
    }
}

#[test]
fn blank_lines_are_not_sent() {
    let key = SessionKey::generate();
    assert!(seal_line(&key, "").unwrap().is_none());
    assert!(seal_line(&key, " \t\u{3000}").unwrap().is_none());
    let frame = seal_line(&key, "  hi  ").unwrap().unwrap();
    assert_eq!(open_text(&key, &frame).unwrap(), "  hi  ");
}

#[test]
fn bytes_that_are_no_text_are_replaced() {
    let key = SessionKey::generate();
    let message = key.encrypt(&[104, 105, 255]).unwrap();
    let frame = ChatFrame { nonce: message.nonce, ciphertext: message.ciphertext };
    assert_eq!(open_text(&key, &frame).unwrap(), "hi\u{fffd}");
}

#[test]
fn a_frame_of_another_key_is_not_opened() {
    let frame = seal_text(&SessionKey::generate(), "hi").unwrap();
    assert!(matches!(open_text(&SessionKey::generate(), &frame), Err(FaunaError::Crypto)));
}

#[test]
fn frames_travel_as_lines_of_json() {
    let frame = ChatFrame { nonce: "n".to_owned(), ciphertext: "c\nd".to_owned() };
    let line = frame.json_line().unwrap();
    assert_eq!(line, "{\"nonce\":\"n\",\"ciphertext\":\"c\\nd\"}\n");
    assert_eq!(received_json(line.len(), &line).unwrap(), line.trim_end());

    let greeting = HelloFrame {
        peer_id: PeerId::from_text("p".to_owned()),
        display_name: "\u{1f}\u{7f}\u{8}\u{c}\r\t/\u{2028}".to_owned(),
        identity_public_key: "i".to_owned(),
        exchange_public_key: "e".to_owned(),
        signature: "s".to_owned(),
    };
    let line = greeting.json_line().unwrap();
    assert_eq!(
        line,
        "{\"peer_id\":\"p\",\"display_name\":\"\\u001f\u{7f}\\b\\f\\r\\t/\u{2028}\",\"identity_public_key\":\"i\",\"exchange_public_key\":\"e\",\"signature\":\"s\"}\n"
    );
    assert_eq!(line.matches('\n').count(), 1);
    let value: serde_json::Value =
        serde_json::from_str(received_json(line.len(), &line).unwrap()).unwrap();
    assert_eq!(value["display_name"].as_str().unwrap(), greeting.display_name);
}

#[test]
fn other_frames_have_other_lines() {
    let frame = |nonce: &str, ciphertext: &str| {
        ChatFrame { nonce: nonce.to_owned(), ciphertext: ciphertext.to_owned() }.json_line().unwrap()
    };
    assert_ne!(frame("a", "b"), frame("a\",\"ciphertext\":\"b", ""));
    assert_ne!(frame("\n", ""), frame("\\n", ""));
    let greeting = |peer: &str, name: &str| {
        let frame = HelloFrame {
            peer_id: PeerId::from_text(peer.to_owned()),
            display_name: name.to_owned(),
            identity_public_key: String::new(),
            exchange_public_key: String::new(),
            signature: String::new(),
        };
        frame.json_line().unwrap()
    };
    assert_ne!(greeting("a", "b"), greeting("a\",\"display_name\":\"b", ""));
    assert_eq!(greeting("a", "b"), greeting("a", "b"));
}

#[test]
fn every_character_survives_the_json() {
    for code in 0..0x3000u32 {
        if let Some(c) = char::from_u32(code) {
            let text = c.to_string();
            let frame = ChatFrame { nonce: text.clone(), ciphertext: String::new() };
            let expected =
                format!("{{\"nonce\":{},\"ciphertext\":\"\"}}\n", serde_json::to_string(&text).unwrap());
            assert_eq!(frame.json_line().unwrap(), expected);
        }
    }
}

#[test]
fn the_end_of_the_stream_is_noticed() {
    assert_eq!(received_json(0, ""), Err(Disconnected));
    assert_eq!(received_json(4, "{} \n"), Ok("{}"));
    assert_eq!(received_json(1, "\n"), Ok(""));
}

#[test]
fn session_errors_are_told_in_both_languages() {
    let wrong = HelloError::WrongIdentity;
    assert_eq!(wrong.message(Language::English), "remote identity does not match invite");
    assert_eq!(wrong.message(Language::Turkish), "baglanan cihaz davet kimligiyle eslesmedi");
    let id = HelloError::PeerIdMismatch;
    assert_eq!(id.message(Language::English), "remote peer id does not match public key");
    assert_eq!(id.message(Language::Turkish), "peer id public key ile eslesmedi");
    let encoding = HelloError::SignatureEncoding(URL_SAFE_NO_PAD.decode("?").unwrap_err());
    assert_eq!(encoding.message(Language::English), "invalid hello signature encoding");
    assert_eq!(encoding.message(Language::Turkish), "imza okunamadi");
    let key = SessionError::Hello(HelloError::PublicKey(FaunaError::InvalidKey));
    assert_eq!(key.message(Language::English), "invalid key material");
    let signature = HelloError::Signature(FaunaError::Signature);
    assert_eq!(signature.message(Language::Turkish), "signature verification failed");
    let exchange = SessionError::ExchangeKey(FaunaError::InvalidKey);
    assert_eq!(exchange.message(Language::Turkish), "invalid key material");
    assert_eq!(Disconnected.message(Language::English), "peer disconnected");
    assert_eq!(Disconnected.message(Language::Turkish), "karsi taraf baglantiyi kapatti");
}
