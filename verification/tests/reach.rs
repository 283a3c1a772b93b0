use fauna::address::{
    advertised_address, direct_address, invite_route, normalize_address, onion_address,
    parse_onion_address, route, AddressError, JoinError, Route,
};
use fauna::control::{
    answer_challenge, command_line, is_answerable, read_field, safe_cookie_hmac, AuthAction,
    AuthError, AuthStage, Authentication, ControlError, ControlReply, ReplyState,
};
use fauna::cookie::{candidate_cookie_paths, no_cookie_message};
use fauna::digits::{hex_encode, HexError};
use fauna::language::Language;
use fauna::socks::{socks_reply_message, SocksAction, SocksClient, SocksError, SocksStage};
use fauna::tor::{
    add_onion_command, bootstrap_command, bootstrap_done, bundled_tor_candidates,
    data_directory_name, find_tor_executable, first_existing, local_address,
    onion_unreached_message, publish_onion_service, tor_arguments, tor_candidates, LaunchStage,
    RetryAction, RetryEvent, RetryPlan, TorArgument, TorError, TorPath,
};
use fauna::{DeviceIdentity, Invite};

fn lines(texts: &[&str]) -> Vec<String> {
    let mut list = Vec::new();
    for text in texts {
        list.push(text.to_string());
    }
    list
}

#[test]
fn addresses_are_normalized() {
    assert_eq!(
        normalize_address("/ip4/192.168.1.10/tcp/45123").unwrap(),
        "192.168.1.10:45123"
    );
    assert_eq!(normalize_address("/ip4/a/tcp/b/tcp/c").unwrap(), "a:b/tcp/c");
    assert_eq!(normalize_address("192.168.1.10:45123").unwrap(), "192.168.1.10:45123");
    assert_eq!(normalize_address("[::1]:1").unwrap(), "[::1]:1");
    assert_eq!(normalize_address("/ip4//tcp/").unwrap(), ":");
    assert_eq!(normalize_address("/ip4/1.2.3.4:5"), Err(AddressError::Unsupported));
    assert_eq!(normalize_address("localhost"), Err(AddressError::Unsupported));
    assert_eq!(normalize_address(""), Err(AddressError::Unsupported));
}

#[test]
fn onion_addresses_are_taken_apart() {
    let target = parse_onion_address("onion://abc.onion:45123").unwrap().unwrap();
    assert_eq!(target.host, "abc.onion");
    assert_eq!(target.port, 45123);
    let target = parse_onion_address("x:y.onion:7").unwrap().unwrap();
    assert_eq!(target.host, "x:y.onion");
    assert_eq!(target.port, 7);
    assert!(parse_onion_address("192.168.1.1:80").unwrap().is_none());
    assert!(parse_onion_address("onion://abc:80").unwrap().is_none());
    assert_eq!(parse_onion_address("abc.onion").unwrap_err(), AddressError::NoOnionPort);
    assert_eq!(parse_onion_address("abc.onion:x").unwrap_err(), AddressError::BadOnionPort);
    assert_eq!(parse_onion_address("abc:1.onion").unwrap_err(), AddressError::BadOnionPort);
    assert_eq!(parse_onion_address("abc.onion:65536").unwrap_err(), AddressError::BadOnionPort);
}

#[test]
fn an_onion_address_leads_back_to_its_service() {
    for port in [0u16, 80, 45123, 65535] {
        let text = onion_address("abc.onion", port);
        match route(&text).unwrap() {
            Route::Onion(target) => {
                assert_eq!(target.host, "abc.onion");
                assert_eq!(target.port, port);
            }
            Route::Direct(_) => panic!("expected an onion service"),
        }
    }
    assert_eq!(onion_address("abc.onion", 80), "onion://abc.onion:80");
}

#[test]
fn other_addresses_are_reached_directly() {
    match route("/ip4/10.0.0.1/tcp/9").unwrap() {
        Route::Direct(address) => assert_eq!(address, "10.0.0.1:9"),
        Route::Onion(_) => panic!("expected a direct route"),
    }
    assert_eq!(route("nowhere").unwrap_err(), AddressError::Unsupported);
    assert_eq!(route("onion://a.onion").unwrap_err(), AddressError::NoOnionPort);
}

#[test]
fn address_errors_name_the_address() {
    let error = AddressError::Unsupported;
    assert_eq!(error.message("x", Language::English), "unsupported address format: x");
    assert_eq!(error.message("onion://x", Language::Turkish), "desteklenmeyen adres formati: onion://x");
    assert_eq!(
        AddressError::NoOnionPort.message("onion://a.onion", Language::Turkish),
        "onion adresinde port yok: a.onion"
    );
    assert_eq!(
        AddressError::BadOnionPort.message("a.onion:x", Language::Turkish),
        "onion port okunamadi: a.onion:x"
    );
}

#[test]
fn the_first_address_of_an_invite_counts() {
    let identity = DeviceIdentity::generate();
    let empty = Invite::new(&identity, "Ada");
    assert_eq!(empty.first_address(), None);
    assert_eq!(direct_address(&empty).unwrap_err(), JoinError::NoAddress);
    assert_eq!(invite_route(&empty).unwrap_err(), JoinError::NoAddress);
    assert_eq!(
        JoinError::NoAddress.message(&empty, Language::English),
        "invite does not contain a direct address"
    );
    assert_eq!(
        JoinError::NoAddress.message(&empty, Language::Turkish),
        "davet linkinde adres yok"
    );

    let invite = Invite::new(&identity, "Ada").with_address("/ip4/1.2.3.4/tcp/5").with_address("b");
    assert_eq!(invite.first_address(), Some("/ip4/1.2.3.4/tcp/5"));
    assert_eq!(direct_address(&invite).unwrap(), "1.2.3.4:5");
    assert!(matches!(invite_route(&invite), Ok(Route::Direct(_))));

    let bad = Invite::new(&identity, "Ada").with_address("b");
    let error = direct_address(&bad).unwrap_err();
    assert_eq!(error, JoinError::Address(AddressError::Unsupported));
    assert_eq!(error.message(&bad, Language::English), "unsupported address format: b");
    assert_eq!(
        invite_route(&bad).unwrap_err(),
        JoinError::Address(AddressError::Unsupported)
    );
}

#[test]
fn the_public_address_goes_first() {
    assert_eq!(advertised_address(Some("1.2.3.4:5".to_owned()), "0.0.0.0:5"), "1.2.3.4:5");
    assert_eq!(advertised_address(None, "0.0.0.0:5"), "0.0.0.0:5");
}

fn run_socks(host: &str, port: u16, incoming: &[u8]) -> (Result<(), SocksError>, usize, Vec<u8>) {
    let mut sent: Vec<u8> = Vec::new();
    let mut taken: usize = 0;
    let (mut client, mut action) = SocksClient::start(host, port);
    loop {
        match action {
            SocksAction::Exchange(bytes, count) => {
                sent.extend_from_slice(&bytes);
                let answer = &incoming[taken..taken + count];
                taken += count;
                action = client.step(answer);
            }
            SocksAction::Connected => {
                assert_eq!(client.stage, SocksStage::Finished);
                return (Ok(()), taken, sent);
            }
            SocksAction::Failed(error) => return (Err(error), taken, sent),
        }
    }
}

#[test]
fn an_agreeing_proxy_connects() {
    let request = [5, 1, 0, 5, 1, 0, 3, 7, b'a', b'.', b'o', b'n', b'i', b'o', b'n', 0xb0, 0x43];
    let (result, taken, sent) =
        run_socks("a.onion", 45123, &[5, 0, 5, 0, 0, 1, 1, 2, 3, 4, 5, 6, 99]);
    assert_eq!((result, taken), (Ok(()), 12));
    assert_eq!(sent, request);

    let mut long = vec![5, 0, 5, 0, 0, 4];
    long.extend_from_slice(&[7; 20]);
    let (result, taken, _) = run_socks("a.onion", 45123, &long);
    assert_eq!((result, taken), (Ok(()), 24));

    let (result, taken, _) =
        run_socks("a.onion", 1, &[5, 0, 5, 0, 0, 3, 2, b'x', b'y', 0, 1, 42, 42]);
    assert_eq!((result, taken), (Ok(()), 11));
    let (result, taken, _) = run_socks("a.onion", 1, &[5, 0, 5, 0, 0, 3, 0, 0, 1, 42]);
    assert_eq!((result, taken), (Ok(()), 9));
}

#[test]
fn a_refusing_proxy_does_not_connect() {
    assert_eq!(run_socks("h", 1, &[5, 255]).0, Err(SocksError::AuthRefused));
    assert_eq!(run_socks("h", 1, &[4, 0]).0, Err(SocksError::AuthRefused));
    assert_eq!(run_socks("h", 1, &[5, 0, 5, 4, 0, 1]).0, Err(SocksError::Rejected(4)));
    assert_eq!(run_socks("h", 1, &[5, 0, 4, 0, 0, 1]).0, Err(SocksError::Rejected(0)));
    assert_eq!(run_socks("h", 1, &[5, 0, 5, 0, 0, 2]).0, Err(SocksError::UnknownAddressType));
    let long = "x".repeat(256);
    assert_eq!(run_socks(&long, 1, &[5, 0]).0, Err(SocksError::HostTooLong));
    let (result, _, sent) =
        run_socks(&"x".repeat(255), 258, &[5, 0, 5, 0, 0, 1, 0, 0, 0, 0, 0, 0]);
    assert_eq!(result, Ok(()));
    assert_eq!(sent.len(), 3 + 5 + 255 + 2);
    assert_eq!(sent[7], 255);
    assert_eq!(&sent[263..], &[1, 2]);
}

#[test]
fn proxy_errors_describe_themselves() {
    assert_eq!(socks_reply_message(1), "genel SOCKS sunucu hatasi");
    assert_eq!(socks_reply_message(2), "kurallar baglantiya izin vermedi");
    assert_eq!(socks_reply_message(3), "ag erisilemiyor");
    assert_eq!(
        socks_reply_message(4),
        "hedef erisilemiyor; onion servisi henuz yayilmamis olabilir"
    );
    assert_eq!(
        socks_reply_message(5),
        "baglanti reddedildi; host tarafinda sohbet henuz dinlemiyor olabilir"
    );
    assert_eq!(socks_reply_message(6), "TTL suresi doldu");
    assert_eq!(socks_reply_message(7), "komut desteklenmiyor");
    assert_eq!(socks_reply_message(8), "adres tipi desteklenmiyor");
    assert_eq!(socks_reply_message(0), "bilinmeyen SOCKS hatasi");
    assert_eq!(
        SocksError::Rejected(6).message(),
        "Tor SOCKS baglantisi reddedildi: TTL suresi doldu"
    );
    assert_eq!(
        SocksError::AuthRefused.message(),
        "Tor SOCKS kimliksiz baglantiyi kabul etmedi"
    );
    assert_eq!(SocksError::HostTooLong.message(), "onion host cok uzun");
    assert_eq!(
        SocksError::UnknownAddressType.message(),
        "Tor SOCKS bilinmeyen adres tipi dondu"
    );
}

#[test]
fn replies_are_read_to_their_end() {
    assert_eq!(command_line("GETINFO x"), "GETINFO x\r\n");
    let mut reply = ControlReply::new();
    assert!(matches!(reply.push_line(8, "250-A=1\r\n"), ReplyState::Open));
    assert!(matches!(reply.push_line(8, "250 OK\r\n"), ReplyState::Complete));
    assert_eq!(reply.lines, vec!["250-A=1", "250 OK"]);

    let mut reply = ControlReply::new();
    assert!(matches!(reply.push_line(5, "250\r\n"), ReplyState::Open));
    match reply.push_line(9, "515 Bad\r\n") {
        ReplyState::Failed(error) => {
            assert_eq!(error.message(), "Tor control komutu basarisiz: 250 | 515 Bad")
        }
        _ => panic!("expected a failure"),
    }
    assert!(matches!(
        reply.push_line(0, ""),
        ReplyState::Failed(ControlError::Closed)
    ));
    assert_eq!(reply.lines.len(), 2);
    assert!(matches!(
        ControlReply::new().push_line(3, "4\r\n"),
        ReplyState::Failed(ControlError::Rejected(_))
    ));
    assert_eq!(ControlError::Closed.message(), "Tor control port kapandi");
}

fn run_reply(incoming: &[&str]) -> (usize, ControlReply, ReplyState) {
    let mut reply = ControlReply::new();
    let mut taken: usize = 0;
    for line in incoming {
        taken += 1;
        let state = reply.push_line(line.len(), line);
        if !matches!(state, ReplyState::Open) {
            return (taken, reply, state);
        }
    }
    let state = reply.push_line(0, "");
    (taken, reply, state)
}

#[test]
fn a_reply_ends_with_its_first_last_line() {
    let (taken, reply, state) = run_reply(&["250-a\r\n", "250 OK\r\n", "515 later\r\n"]);
    assert_eq!(taken, 2);
    assert!(matches!(state, ReplyState::Complete));
    assert_eq!(reply.lines, vec!["250-a", "250 OK"]);

    let (taken, reply, state) = run_reply(&["650 x\n", "451 no\n", "250 OK\n"]);
    assert_eq!(taken, 2);
    assert!(matches!(state,
        ReplyState::Failed(ControlError::Rejected(report)) if report == "650 x | 451 no"));
    assert_eq!(reply.lines, vec!["650 x", "451 no"]);

    let (taken, reply, state) = run_reply(&["250-a\n", "250 \n"]);
    assert_eq!(taken, 2);
    assert!(matches!(state, ReplyState::Failed(ControlError::Closed)));
    assert_eq!(reply.lines, vec!["250-a", "250"]);
}

#[test]
fn codes_match_a_published_vector() {
    let code =
        safe_cookie_hmac(b"key", b"The quick ", b"brown fox jumps ", b"over the lazy dog").unwrap();
    assert_eq!(
        hex::encode(code),
        "f7bc83f430538424b13298e6aa6fb143ef4d59a14946175997479dbc2d1a3cd8"
    );
}

fn challenge(cookie: &[u8], client: &[u8], server: &[u8]) -> String {
    let hash = safe_cookie_hmac(
        b"Tor safe cookie authentication server-to-controller hash",
        cookie,
        client,
        server,
    )
    .unwrap();
    format!(
        "250 AUTHCHALLENGE SERVERHASH={} SERVERNONCE={}",
        hex_encode(&hash),
        hex_encode(server)
    )
}

#[test]
fn an_honest_challenge_is_answered() {
    let line = challenge(&[1; 32], &[2; 32], &[3; 32]);
    let code = safe_cookie_hmac(
        b"Tor safe cookie authentication controller-to-server hash",
        &[1; 32],
        &[2; 32],
        &[3; 32],
    )
    .unwrap();
    let expected = format!("AUTHENTICATE {}", hex_encode(&code));
    let reply = vec![line.clone()];
    assert!(is_answerable(&reply));
    assert_eq!(answer_challenge(&reply, &[1; 32], &[2; 32]).unwrap(), expected);
    let lower = vec![
        "250-AUTHCHALLENGE".to_owned(),
        line.to_lowercase().replace("authchallenge serverhash", "AUTHCHALLENGE SERVERHASH")
            .replace("servernonce", "SERVERNONCE"),
    ];
    assert_eq!(answer_challenge(&lower, &[1; 32], &[2; 32]).unwrap(), expected);
    let dashed = vec![line.replace("250 ", "250-"), "250 OK".to_owned()];
    assert_eq!(answer_challenge(&dashed, &[1; 32], &[2; 32]).unwrap(), expected);
}

#[test]
fn a_dishonest_challenge_is_not_answered() {
    let line = challenge(&[1; 32], &[2; 32], &[3; 32]);
    assert!(matches!(
        answer_challenge(&vec![line], &[9; 32], &[2; 32]),
        Err(AuthError::ServerHash)
    ));
    assert!(matches!(
        answer_challenge(&lines(&["250 OK"]), &[], &[]),
        Err(AuthError::NoChallenge)
    ));
    assert!(matches!(
        answer_challenge(&lines(&["250 AUTHCHALLENGE SERVERNONCE=00"]), &[], &[]),
        Err(AuthError::MissingField("SERVERHASH="))
    ));
    assert!(matches!(
        answer_challenge(&lines(&["250 AUTHCHALLENGE SERVERHASH=00"]), &[], &[]),
        Err(AuthError::MissingField("SERVERNONCE="))
    ));
    assert!(matches!(
        answer_challenge(&lines(&["250 AUTHCHALLENGE SERVERHASH=0 SERVERNONCE=0"]), &[], &[]),
        Err(AuthError::ServerNonce(HexError::OddLength))
    ));
    assert!(matches!(
        answer_challenge(&lines(&["250 AUTHCHALLENGE SERVERHASH=0 SERVERNONCE=0x"]), &[], &[]),
        Err(AuthError::ServerNonce(HexError::InvalidDigit))
    ));
    assert!(!is_answerable(&lines(&["250 AUTHCHALLENGE SERVERHASH=0 SERVERNONCE=aüb"])));
    assert!(is_answerable(&lines(&["250 AUTHCHALLENGE SERVERNONCE=aüb"])));
}

#[test]
fn authentication_errors_describe_themselves() {
    assert_eq!(AuthError::NoChallenge.message(), "Tor SAFECOOKIE challenge donmedi");
    let missing = read_field("250 OK", "SERVERHASH=").unwrap_err();
    assert_eq!(missing.message(), "Tor yanitinda SERVERHASH= alani yok");
    assert_eq!(read_field("250 A=b", "A=").unwrap(), "b");
    assert_eq!(AuthError::ServerNonce(HexError::OddLength).message(), "hex veri tek uzunlukta");
    assert_eq!(AuthError::ServerNonce(HexError::InvalidDigit).message(), "hex okunamadi");
    assert_eq!(
        AuthError::ServerHash.message(),
        "Tor SAFECOOKIE server hash dogrulanamadi"
    );
    assert_eq!(AuthError::Code.message(), hmac::digest::InvalidLength.to_string());
}

#[test]
fn authentication_without_a_cookie() {
    let (mut state, first) = Authentication::start();
    assert!(matches!(first, AuthAction::Send(command) if command == "AUTHENTICATE"));
    let reply = lines(&["250 OK"]);
    assert_eq!(state.current_stage(), AuthStage::Plain);
    assert!(matches!(state.replied(Some(&reply)), AuthAction::Authenticated));
    assert_eq!(state.current_stage(), AuthStage::Finished);
}

#[test]
fn authentication_with_a_cookie() {
    let (mut state, _) = Authentication::start();
    assert!(matches!(state.replied(None), AuthAction::ReadCookie));
    match state.take_cookie_with_nonce(vec![1; 32], &[2; 32]) {
        AuthAction::Send(command) => {
            assert_eq!(command, format!("AUTHCHALLENGE SAFECOOKIE {}", "02".repeat(32)))
        }
        _ => panic!("expected a command"),
    }
    let reply = vec![challenge(&[1; 32], &[2; 32], &[3; 32])];
    match state.replied(Some(&reply)) {
        AuthAction::Send(command) => {
            assert_eq!(command, answer_challenge(&reply, &[1; 32], &[2; 32]).unwrap())
        }
        _ => panic!("expected a command"),
    }
    assert!(matches!(state.replied(Some(&lines(&["250 OK"]))), AuthAction::Authenticated));

    let (mut state, _) = Authentication::start();
    state.replied(None);
    let command = match state.take_cookie(vec![1; 32]) {
        AuthAction::Send(command) => command,
        _ => panic!("expected a command"),
    };
    assert_eq!(command.len(), "AUTHCHALLENGE SAFECOOKIE ".len() + 64);
    let nothing = lines(&["250 OK"]);
    assert!(matches!(
        state.replied(Some(&nothing)),
        AuthAction::Failed(AuthError::NoChallenge)
    ));
}

#[test]
fn the_cookie_is_looked_for_in_order() {
    let tail = ["Tor Browser", "Browser", "TorBrowser", "Data", "Tor", "control_auth_cookie"];
    let path = |start: &[&str]| {
        let mut parts = lines(start);
        parts.extend(lines(&tail));
        parts
    };
    assert_eq!(
        candidate_cookie_paths(Some("A"), Some("L"), Some("U")),
        vec![
            lines(&["A", "tor", "control_auth_cookie"]),
            path(&["A"]),
            path(&["L"]),
            path(&["U", "Desktop"]),
            path(&["U", "OneDrive", "Desktop"]),
            path(&["U", "OneDrive", "Masaüstü"]),
            lines(&["control_auth_cookie"]),
        ]
    );
    assert_eq!(
        candidate_cookie_paths(None, None, None),
        vec![lines(&["control_auth_cookie"])]
    );
    assert_eq!(candidate_cookie_paths(None, Some("L"), None).len(), 2);
    assert!(no_cookie_message().starts_with("Tor control kimlik dogrulamasi gerekiyor"));
}

#[test]
fn onion_services_are_published() {
    assert_eq!(
        add_onion_command(45123, "127.0.0.1:9"),
        "ADD_ONION NEW:ED25519-V3 Port=45123,127.0.0.1:9"
    );
    let reply = lines(&["250-PrivateKey=x", "250-ServiceID= abc ", "250-ServiceID=def", "250 OK"]);
    assert_eq!(publish_onion_service(&reply).unwrap().service_id, "abc.onion");
    let error = publish_onion_service(&lines(&["250 OK"])).unwrap_err();
    assert_eq!(error, TorError::NoServiceId);
    assert_eq!(error.message(), "Tor onion service id donmedi");
}

#[test]
fn tor_is_ready_when_it_says_so() {
    assert_eq!(bootstrap_command(), "GETINFO status/bootstrap-phase");
    assert!(bootstrap_done(&lines(&["250-x", "NOTICE BOOTSTRAP PROGRESS=100 TAG=done"])));
    assert!(bootstrap_done(&lines(&["SUMMARY=\"Done\""])));
    assert!(!bootstrap_done(&lines(&["PROGRESS=10 SUMMARY=\"Loading\"", "250 OK"])));
}

#[test]
fn attempts_end_when_the_time_is_up() {
    let plan = RetryPlan::for_onion(10);
    assert_eq!(plan.next(RetryEvent::Clock(9)), RetryAction::Attempt);
    assert_eq!(plan.next(RetryEvent::Clock(10)), RetryAction::GiveUp);
    assert_eq!(plan.next(RetryEvent::Failed), RetryAction::Pause(2000));
    assert_eq!(plan.next(RetryEvent::Succeeded), RetryAction::Succeed);
    assert_eq!(RetryPlan::for_port(1), RetryPlan { timeout: 1_000_000_000, pause: 250 });
    assert_eq!(RetryPlan::for_bootstrap(2), RetryPlan { timeout: 2_000_000_000, pause: 1000 });
    assert_eq!(
        onion_unreached_message("a.onion", 80),
        "a.onion:80 onion adresine Tor uzerinden baglanilamadi"
    );
}

#[test]
fn tor_is_started_in_stages() {
    let first = LaunchStage::SocksPort;
    assert_eq!(first.plan(), RetryPlan::for_port(45));
    let second = first.following().unwrap();
    assert_eq!(second, LaunchStage::ControlPort);
    assert_eq!(second.plan(), RetryPlan::for_port(10));
    let third = second.following().unwrap();
    assert_eq!(third, LaunchStage::Bootstrap);
    assert_eq!(third.plan(), RetryPlan::for_bootstrap(90));
    assert_eq!(third.following(), None);
    assert_eq!(first.failure_message("s", "c"), "Tor SOCKS port hazir olmadi: s");
    assert_eq!(second.failure_message("s", "c"), "Tor control port hazir olmadi: c");
    assert_eq!(third.failure_message("s", "c"), "Tor ag baglantisi hazir olmadi");
}

#[test]
fn tor_gets_its_arguments() {
    let mut texts: Vec<String> = Vec::new();
    for argument in tor_arguments(9050, 9051) {
        match argument {
            TorArgument::Text(text) => texts.push(text),
            TorArgument::DataDirectory => texts.push("<dir>".to_owned()),
        }
    }
    assert_eq!(
        texts,
        vec![
            "--SocksPort",
            "127.0.0.1:9050",
            "--ControlPort",
            "127.0.0.1:9051",
            "--CookieAuthentication",
            "0",
            "--DataDirectory",
            "<dir>",
            "--AvoidDiskWrites",
            "1"
        ]
    );
    assert_eq!(local_address(1), "127.0.0.1:1");
    assert_eq!(data_directory_name(4294967295), "fauna-tor-4294967295");
}

fn shown(path: &TorPath) -> String {
    match path {
        TorPath::Given(path) => format!("given {path}"),
        TorPath::Beside(path) => format!("beside {path}"),
        TorPath::Plain(path) => format!("plain {path}"),
    }
}

#[test]
fn tor_is_looked_for_in_order() {
    assert_eq!(
        bundled_tor_candidates(true),
        vec!["bin/tor/tor.exe", "tor/tor.exe", "Browser/TorBrowser/Tor/tor.exe"]
    );
    let found: Vec<String> = tor_candidates(Some("/my/tor"), true, false).iter().map(shown).collect();
    assert_eq!(
        found,
        vec![
            "given /my/tor",
            "beside bin/tor/tor",
            "beside tor/tor",
            "plain bin/tor/tor",
            "plain tor/tor"
        ]
    );
    let found: Vec<String> = tor_candidates(None, false, false).iter().map(shown).collect();
    assert_eq!(found, vec!["plain bin/tor/tor", "plain tor/tor"]);

    let all = tor_candidates(Some("/my/tor"), true, false);
    let chosen = find_tor_executable(all, &vec![false, false, true, true, false]);
    assert_eq!(shown(&chosen), "beside tor/tor");
    let none = tor_candidates(None, false, false);
    assert_eq!(shown(&find_tor_executable(none, &vec![false, false])), "plain tor");
    assert_eq!(first_existing(&vec![false, true, true]), Some(1));
    assert_eq!(first_existing(&vec![]), None);
}
