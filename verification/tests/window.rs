use fauna::desktop::{
    host_step, published_address, FaunaApp, HostRequest, HostStart, HostStep, JoinStart,
    MessageAuthor, NetworkEvent, TorConfig, TorPlan, TorStep,
};
use fauna::tor::OnionService;

fn last(app: &FaunaApp) -> (MessageAuthor, String) {
    let line = app.messages.last().unwrap();
    (line.author, line.body.clone())
}

fn system(text: &str) -> (MessageAuthor, String) {
    (MessageAuthor::System, text.to_owned())
}

#[test]
fn a_new_window_is_ready() {
    let app = FaunaApp::new();
    assert_eq!(app.display_name, "Kivan");
    assert_eq!(app.bind_addr, "127.0.0.1:0");
    assert_eq!(app.public_addr, "127.0.0.1:45123");
    assert!(app.tor_enabled && app.tor_auto_start && !app.connected && !app.tor_running);
    assert_eq!(app.tor_exe_path, "");
    assert_eq!(app.tor_control_addr, "127.0.0.1:9151");
    assert_eq!(app.tor_socks_addr, "127.0.0.1:9150");
    assert_eq!(app.tor_service_port, "45123");
    assert_eq!(app.join_invite, "");
    assert_eq!(app.current_invite, "");
    assert_eq!(app.draft_message, "");
    assert_eq!(app.status, "Hazir");
    assert_eq!(app.messages.len(), 1);
    assert_eq!(
        last(&app),
        system("Fauna hazir. Sohbet baslatabilir veya davet linkiyle katilabilirsin.")
    );
}

fn config(app: &mut FaunaApp) -> Option<TorConfig> {
    match app.prepare_tor_config() {
        TorPlan::Ready(config) => config,
        TorPlan::Launch(_) => panic!("expected no launch"),
    }
}

#[test]
fn tor_is_started_when_it_is_needed() {
    let mut app = FaunaApp::new();
    assert!(matches!(app.ensure_managed_tor(), TorStep::Launch(None)));
    assert_eq!(app.status, "Tor baslatiliyor");
    app.tor_exe_path = "  /opt/tor ".to_owned();
    assert!(matches!(app.ensure_managed_tor(), TorStep::Launch(Some(path)) if path == "/opt/tor"));
    app.status = "Hazir".to_owned();
    assert!(matches!(app.prepare_tor_config(), TorPlan::Launch(Some(path)) if path == "/opt/tor"));
    assert_eq!(app.status, "Tor baslatiliyor");
    app.tor_started("127.0.0.1:1", "127.0.0.1:2");
    assert!(matches!(app.ensure_managed_tor(), TorStep::Running));
    let found = config(&mut app).unwrap();
    assert_eq!(found.control_addr, "127.0.0.1:1");
    assert_eq!(found.socks_addr, "127.0.0.1:2");
    assert_eq!(found.service_port, 45123);

    let mut app = FaunaApp::new();
    app.tor_auto_start = false;
    assert_eq!(config(&mut app).unwrap().control_addr, "127.0.0.1:9151");
    assert_eq!(app.status, "Hazir");
    app.tor_failed("yok");
    assert_eq!(app.status, "Tor baslatilamadi");
    assert_eq!(last(&app), system("yok"));
}

#[test]
fn a_bad_port_falls_back() {
    let mut app = FaunaApp::new();
    app.tor_auto_start = false;
    app.tor_service_port = " 80 ".to_owned();
    assert_eq!(config(&mut app).unwrap().service_port, 80);
    app.tor_service_port = "eighty".to_owned();
    assert_eq!(config(&mut app).unwrap().service_port, 45123);
    app.tor_enabled = false;
    app.tor_auto_start = true;
    assert!(config(&mut app).is_none());
    assert_eq!(app.status, "Hazir");
}

#[test]
fn hosting_starts_tor_before_it_looks_at_the_fields() {
    let mut app = FaunaApp::new();
    app.display_name = "  ".to_owned();
    assert!(matches!(app.start_host(), HostStart::Launch(None)));
    assert_eq!(app.status, "Tor baslatiliyor");
    assert_eq!(app.messages.len(), 1);
    assert!(!app.connected);
    app.tor_started("c", "s");
    assert!(matches!(app.start_host(), HostStart::Refused));
    assert_eq!(app.status, "Tor baslatiliyor");
    app.display_name = "Ada".to_owned();
    match app.start_host() {
        HostStart::Host(request) => {
            let found = request.tor_config.unwrap();
            assert_eq!(found.control_addr, "c");
            assert_eq!(found.socks_addr, "s");
        }
        _ => panic!("expected a chat"),
    }
    assert!(app.connected);
}

#[test]
fn hosting_needs_its_fields() {
    let mut app = FaunaApp::new();
    app.tor_running = true;
    app.display_name = "  ".to_owned();
    assert!(matches!(app.start_host(), HostStart::Refused));
    assert_eq!(last(&app), system("Isim ve host adresi bos olamaz."));
    let mut app = FaunaApp::new();
    app.tor_auto_start = false;
    app.bind_addr = String::new();
    assert!(matches!(app.start_host(), HostStart::Refused));
    assert_eq!(last(&app), system("Isim ve host adresi bos olamaz."));
    let mut app = FaunaApp::new();
    app.tor_enabled = false;
    app.public_addr = " ".to_owned();
    assert!(matches!(app.start_host(), HostStart::Refused));
    assert_eq!(last(&app), system("Tor kapaliyken paylasilan adres bos olamaz."));
    assert!(!app.connected);
    app.tor_enabled = true;
    app.tor_running = true;
    assert!(matches!(app.start_host(), HostStart::Host(_)));
}

#[test]
fn hosting_starts_a_chat() {
    let mut app = FaunaApp::new();
    app.display_name = " Ada ".to_owned();
    app.bind_addr = " 0.0.0.0:1 ".to_owned();
    app.public_addr = " 1.2.3.4:1 ".to_owned();
    app.current_invite = "old".to_owned();
    app.tor_enabled = false;
    let request = match app.start_host() {
        HostStart::Host(request) => request,
        _ => panic!("expected a chat"),
    };
    assert_eq!(request.name, "Ada");
    assert_eq!(request.bind, "0.0.0.0:1");
    assert_eq!(request.public_addr, "1.2.3.4:1");
    assert!(request.tor_config.is_none());
    assert!(app.connected);
    assert_eq!(app.current_invite, "");
    assert_eq!(app.status, "Davet olusturuluyor");
    match host_step(&request, "127.0.0.1:7") {
        HostStep::Advertise(address) => assert_eq!(address, "1.2.3.4:1"),
        _ => panic!("expected an address"),
    }
}

#[test]
fn hosting_with_tor_publishes_a_service() {
    let request = HostRequest {
        name: "Ada".to_owned(),
        bind: "127.0.0.1:0".to_owned(),
        public_addr: String::new(),
        tor_config: Some(TorConfig {
            control_addr: "c".to_owned(),
            socks_addr: "s".to_owned(),
            service_port: 80,
        }),
    };
    match host_step(&request, "127.0.0.1:7") {
        HostStep::Publish { notice, control_addr, command } => {
            assert!(matches!(notice,
                NetworkEvent::Connected(text) if text == "Tor onion servisi hazirlaniyor"));
            assert_eq!(control_addr, "c");
            assert_eq!(command, "ADD_ONION NEW:ED25519-V3 Port=80,127.0.0.1:7");
        }
        _ => panic!("expected a service"),
    }
    let service = OnionService { service_id: "abc.onion".to_owned() };
    assert_eq!(
        published_address(&request.tor_config.unwrap(), &service),
        "onion://abc.onion:80"
    );
}

#[test]
fn joining_needs_its_fields() {
    let mut app = FaunaApp::new();
    assert!(matches!(app.start_join(), JoinStart::Refused));
    assert_eq!(last(&app), system("Isim ve davet linki bos olamaz."));
    assert_eq!(app.messages.len(), 2);
    assert_eq!(app.status, "Hazir");
    assert!(!app.connected && !app.tor_running);
    app.join_invite = " fauna://join/x ".to_owned();
    app.display_name = "\t".to_owned();
    app.tor_enabled = false;
    assert!(matches!(app.start_join(), JoinStart::Refused));
    assert_eq!(app.messages.len(), 3);
    assert_eq!(app.status, "Hazir");
    assert!(!app.connected);
}

#[test]
fn joining_starts_tor_and_goes_on() {
    let mut app = FaunaApp::new();
    app.join_invite = " fauna://join/x ".to_owned();
    app.tor_exe_path = " t ".to_owned();
    assert!(matches!(app.start_join(), JoinStart::Launch(Some(path)) if path == "t"));
    assert_eq!(app.status, "Tor baslatiliyor");
    assert!(!app.connected);
    app.tor_started("127.0.0.1:4", " 127.0.0.1:5 ");
    let request = match app.start_join() {
        JoinStart::Join(request) => request,
        _ => panic!("expected a chat"),
    };
    assert_eq!(request.name, "Kivan");
    assert_eq!(request.invite, "fauna://join/x");
    assert_eq!(request.tor_socks_addr, "127.0.0.1:5");
    assert!(app.connected);
    assert_eq!(app.status, "Baglaniyor");
    assert_eq!(app.messages.len(), 1);

    app.tor_enabled = false;
    app.tor_running = false;
    app.tor_socks_addr = " 127.0.0.1:6 ".to_owned();
    match app.start_join() {
        JoinStart::Join(request) => assert_eq!(request.tor_socks_addr, "127.0.0.1:6"),
        _ => panic!("expected a chat"),
    }
}

#[test]
fn messages_are_sent_once_there_is_a_chat() {
    let mut app = FaunaApp::new();
    app.draft_message = "  ".to_owned();
    assert_eq!(app.send_message(), None);
    assert_eq!(app.messages.len(), 1);
    app.draft_message = " hi ".to_owned();
    assert_eq!(app.send_message(), None);
    assert_eq!(last(&app), system("Once bir sohbet baslat veya davete katil."));
    app.connected = true;
    let body = app.send_message().unwrap();
    assert_eq!(body, "hi");
    assert_eq!(app.draft_message, " hi ");
    app.message_sent(body.clone(), false);
    assert_eq!(last(&app), system("Mesaj gonderilemedi; baglanti kapanmis olabilir."));
    assert_eq!(app.draft_message, " hi ");
    app.message_sent(body, true);
    assert_eq!(last(&app), (MessageAuthor::Local, "hi".to_owned()));
    assert_eq!(app.draft_message, "");
}

#[test]
fn news_from_the_network_are_shown() {
    let mut app = FaunaApp::new();
    let invite = vec![NetworkEvent::InviteCreated("link".to_owned())];
    app.drain_network_events(&invite);
    assert_eq!(app.current_invite, "");
    app.connected = true;
    app.drain_network_events(&invite);
    assert_eq!(app.current_invite, "link");
    assert_eq!(app.status, "Davet hazir, karsi tarafi bekliyor");
    app.drain_network_events(&vec![
        NetworkEvent::Connected("Ada".to_owned()),
        NetworkEvent::Incoming("one".to_owned()),
        NetworkEvent::Incoming("two".to_owned()),
    ]);
    assert_eq!(app.status, "Ada ile sifreli oturum kuruldu");
    let shown: Vec<(MessageAuthor, String)> =
        app.messages[1..].iter().map(|line| (line.author, line.body.clone())).collect();
    assert_eq!(
        shown,
        vec![
            system("Ada ile sifreli oturum kuruldu"),
            (MessageAuthor::Remote, "one".to_owned()),
            (MessageAuthor::Remote, "two".to_owned()),
        ]
    );
    app.drain_network_events(&vec![NetworkEvent::Disconnected("bye".to_owned())]);
    assert_eq!(app.status, "Baglanti kapandi");
    assert_eq!(last(&app), system("bye"));
    app.drain_network_events(&vec![NetworkEvent::Error("bad".to_owned())]);
    assert_eq!(app.status, "Hata");
    assert_eq!(last(&app), system("bad"));
}
