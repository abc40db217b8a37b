use ssherald::forward::{build_rule, ForwardRule, ForwardType, PortForwarder};
use ssherald::session::{
    bound_addr_form, client_greeting, connect_reply_ok, connect_route, encode_connect_request,
    expand_tilde, length_prefixed_rest, method_reply_ok, parse_ipv4, shell_event_action, AuthType,
    BoundAddrForm, ConnectRoute, ErrorSlot, ProxyConfig, SessionConfig, ShellAction, ShellEvent,
};
use ssherald::socks5::{HandshakeAction, Socks5Server};

fn feed(server: &mut Socks5Server, bytes: &[u8]) -> HandshakeAction {
    assert_eq!(server.needed(), bytes.len());
    server.feed(&bytes.to_vec())
}

#[test]
fn socks5_connect_succeeds_for_loopback() {
    let mut s = Socks5Server::new();
    match feed(&mut s, &[0x05, 0x01]) {
        HandshakeAction::Continue => {}
        _ => panic!("greeting header not accepted"),
    }
    match feed(&mut s, &[0x00]) {
        HandshakeAction::Send(v) => assert_eq!(v, vec![0x05, 0x00]),
        _ => panic!("no-auth method not accepted"),
    }
    match feed(&mut s, &[0x05, 0x01, 0x00, 0x01]) {
        HandshakeAction::Continue => {}
        _ => panic!("connect request header not accepted"),
    }
    match feed(&mut s, &[0x7F, 0x00, 0x00, 0x01, 0x00, 0x50]) {
        HandshakeAction::Connect(host, port) => {
            assert_eq!(host, "127.0.0.1");
            assert_eq!(port, 80);
        }
        _ => panic!("destination not resolved"),
    }
    let reply = s.connect_result(true);
    assert_eq!(&reply[..4], &[0x05, 0x00, 0x00, 0x01]);
    assert_eq!(reply.len(), 10);
}

#[test]
fn socks5_greeting_without_noauth_is_rejected() {
    let mut s = Socks5Server::new();
    feed(&mut s, &[0x05, 0x02]);
    match feed(&mut s, &[0x01, 0x02]) {
        HandshakeAction::SendAndClose(v) => assert_eq!(v, vec![0x05, 0xFF]),
        _ => panic!("expected the method rejection"),
    }
    // the connection is closed: nothing more is read
    assert_eq!(s.needed(), 0);
}

#[test]
fn socks5_wrong_version_drops_connection() {
    let mut s = Socks5Server::new();
    match feed(&mut s, &[0x04, 0x01]) {
        HandshakeAction::Close => {}
        _ => panic!("expected a plain drop"),
    }
    assert_eq!(s.needed(), 0);
}

#[test]
fn socks5_non_connect_command_is_refused() {
    let mut s = Socks5Server::new();
    feed(&mut s, &[0x05, 0x01]);
    feed(&mut s, &[0x00]);
    match feed(&mut s, &[0x05, 0x02, 0x00, 0x01]) {
        HandshakeAction::SendAndClose(v) => {
            assert_eq!(v, vec![0x05, 0x07, 0x00, 0x01, 0, 0, 0, 0, 0, 0]);
        }
        _ => panic!("expected the command rejection"),
    }
}

#[test]
fn socks5_unknown_address_type_is_refused() {
    let mut s = Socks5Server::new();
    feed(&mut s, &[0x05, 0x01]);
    feed(&mut s, &[0x00]);
    match feed(&mut s, &[0x05, 0x01, 0x00, 0x09]) {
        HandshakeAction::SendAndClose(v) => {
            assert_eq!(v, vec![0x05, 0x08, 0x00, 0x01, 0, 0, 0, 0, 0, 0]);
        }
        _ => panic!("expected the address-type rejection"),
    }
}

#[test]
fn socks5_domain_and_ipv6_destinations() {
    let mut s = Socks5Server::new();
    feed(&mut s, &[0x05, 0x01]);
    feed(&mut s, &[0x00]);
    feed(&mut s, &[0x05, 0x01, 0x00, 0x03]);
    feed(&mut s, &[0x0B]);
    let mut chunk = b"example.com".to_vec();
    chunk.push(0x1F);
    chunk.push(0x90);
    match feed(&mut s, &chunk) {
        HandshakeAction::Connect(host, port) => {
            assert_eq!(host, "example.com");
            assert_eq!(port, 8080);
        }
        _ => panic!("domain destination not resolved"),
    }
    let reply = s.connect_result(false);
    assert_eq!(reply, vec![0x05, 0x05, 0x00, 0x01, 0, 0, 0, 0, 0, 0]);

    let mut s6 = Socks5Server::new();
    feed(&mut s6, &[0x05, 0x01]);
    feed(&mut s6, &[0x00]);
    feed(&mut s6, &[0x05, 0x01, 0x00, 0x04]);
    let mut addr = vec![0x20, 0x01, 0x0d, 0xb8, 0, 0, 0, 0, 0, 0, 0, 0, 0, 0, 0, 0x42];
    addr.push(0x00);
    addr.push(0x16);
    match feed(&mut s6, &addr) {
        HandshakeAction::Connect(host, port) => {
            assert_eq!(host, "2001:db8:0:0:0:0:0:42");
            assert_eq!(port, 22);
        }
        _ => panic!("sixteen-byte destination not resolved"),
    }
}

#[test]
fn client_handshake_bytes() {
    assert_eq!(client_greeting(), vec![0x05, 0x01, 0x00]);
    assert!(method_reply_ok(0x05, 0x00));
    assert!(!method_reply_ok(0x05, 0xFF));
    assert!(!method_reply_ok(0x04, 0x00));
    assert!(connect_reply_ok(0x00));
    assert!(!connect_reply_ok(0x05));
}

#[test]
fn client_connect_request_encodings() {
    let req = encode_connect_request("10.0.0.1", 22).unwrap();
    assert_eq!(req, vec![0x05, 0x01, 0x00, 0x01, 10, 0, 0, 1, 0, 22]);
    let req = encode_connect_request("example.com", 443).unwrap();
    let mut expected = vec![0x05, 0x01, 0x00, 0x03, 11];
    expected.extend_from_slice(b"example.com");
    expected.extend_from_slice(&[0x01, 0xBB]);
    assert_eq!(req, expected);
    let long = "a".repeat(300);
    assert!(encode_connect_request(&long, 1).is_none());
}

#[test]
fn ipv4_literals() {
    assert_eq!(parse_ipv4("127.0.0.1"), Some((127, 0, 0, 1)));
    assert_eq!(parse_ipv4("255.255.255.255"), Some((255, 255, 255, 255)));
    assert_eq!(parse_ipv4("256.0.0.1"), None);
    assert_eq!(parse_ipv4("01.2.3.4"), None);
    assert_eq!(parse_ipv4("1.2.3"), None);
    assert_eq!(parse_ipv4("1.2.3.4.5"), None);
    assert_eq!(parse_ipv4("localhost"), None);
    assert_eq!(parse_ipv4(""), None);
}

#[test]
fn bound_address_forms() {
    match bound_addr_form(0x01) {
        BoundAddrForm::Fixed(n) => assert_eq!(n, 6),
        _ => panic!(),
    }
    match bound_addr_form(0x03) {
        BoundAddrForm::LengthPrefixed => {}
        _ => panic!(),
    }
    match bound_addr_form(0x04) {
        BoundAddrForm::Fixed(n) => assert_eq!(n, 18),
        _ => panic!(),
    }
    assert_eq!(length_prefixed_rest(11), 13);
}

fn test_config() -> SessionConfig {
    SessionConfig {
        id: "1".to_string(),
        name: "box".to_string(),
        host: "host.example".to_string(),
        port: 22,
        username: "user".to_string(),
        auth_type: AuthType::Password("hunter2".to_string()),
        proxy: None,
    }
}

#[test]
fn connect_route_follows_proxy_setting() {
    let cfg = test_config();
    match connect_route(&cfg) {
        ConnectRoute::Direct { host, port } => {
            assert_eq!(host, "host.example");
            assert_eq!(port, 22);
        }
        _ => panic!("expected a direct route"),
    }
    let mut cfg2 = test_config();
    cfg2.proxy = Some(ProxyConfig { host: "127.0.0.1".to_string(), port: 1080 });
    match connect_route(&cfg2) {
        ConnectRoute::ViaProxy { proxy_host, proxy_port, target_host, target_port } => {
            assert_eq!(proxy_host, "127.0.0.1");
            assert_eq!(proxy_port, 1080);
            assert_eq!(target_host, "host.example");
            assert_eq!(target_port, 22);
        }
        _ => panic!("expected the proxy route"),
    }
}

#[test]
fn agent_authentication_is_unsupported() {
    assert!(AuthType::Password(String::new()).is_supported());
    assert!(AuthType::KeyFile("/k".to_string()).is_supported());
    assert!(!AuthType::Agent.is_supported());
}

#[test]
fn tilde_expansion() {
    assert_eq!(expand_tilde("~/.ssh/id", "/home/u"), "/home/u/.ssh/id");
    assert_eq!(expand_tilde("~/.ssh/id", "/home/u/"), "/home/u/.ssh/id");
    assert_eq!(expand_tilde("/abs/path", "/home/u"), "/abs/path");
    assert_eq!(expand_tilde("~", "/home/u"), "~");
}

#[test]
fn shell_pump_decisions() {
    match shell_event_action(ShellEvent::Data(vec![1, 2])) {
        ShellAction::Output(v) => assert_eq!(v, vec![1, 2]),
        _ => panic!(),
    }
    match shell_event_action(ShellEvent::ExtendedData(vec![3])) {
        ShellAction::Output(v) => assert_eq!(v, vec![3]),
        _ => panic!(),
    }
    assert!(matches!(shell_event_action(ShellEvent::Eof), ShellAction::Exit));
    assert!(matches!(shell_event_action(ShellEvent::Closed), ShellAction::Exit));
    assert!(matches!(shell_event_action(ShellEvent::ChannelEnd), ShellAction::Exit));
    assert!(matches!(shell_event_action(ShellEvent::Other), ShellAction::Ignore));
}

#[test]
fn error_slot_drains_once() {
    let mut slot = ErrorSlot::new();
    assert!(slot.take().is_none());
    slot.record("first".to_string());
    slot.record("second".to_string());
    assert_eq!(slot.take(), Some("second".to_string()));
    assert!(slot.take().is_none());
}

fn dynamic_rule(port: u16) -> ForwardRule {
    ForwardRule {
        forward_type: ForwardType::Dynamic,
        local_host: "127.0.0.1".to_string(),
        local_port: port,
        remote_host: String::new(),
        remote_port: 0,
    }
}

#[test]
fn stopping_a_rule_unlists_its_proxy() {
    let mut fwd = PortForwarder::new(test_config());
    fwd.start_forward(dynamic_rule(1080));
    fwd.start_forward(ForwardRule {
        forward_type: ForwardType::Local,
        local_host: "127.0.0.1".to_string(),
        local_port: 8080,
        remote_host: "db".to_string(),
        remote_port: 5432,
    });
    fwd.start_forward(dynamic_rule(1081));
    let proxies = fwd.active_socks5_proxies();
    assert_eq!(
        proxies,
        vec![("127.0.0.1".to_string(), 1080), ("127.0.0.1".to_string(), 1081)]
    );
    fwd.stop_forward(0);
    let proxies = fwd.active_socks5_proxies();
    assert_eq!(proxies, vec![("127.0.0.1".to_string(), 1081)]);
    fwd.stop_forward(2);
    assert!(fwd.active_socks5_proxies().is_empty());
    // out-of-range stop is a no-op
    fwd.stop_forward(99);
}

#[test]
fn sweep_collects_errors_and_drops_dead_rules() {
    let mut fwd = PortForwarder::new(test_config());
    fwd.start_forward(dynamic_rule(1080));
    fwd.start_forward(dynamic_rule(1081));
    fwd.record_connection(0);
    fwd.record_connection(0);
    assert_eq!(fwd.forwards[0].conn_count, 2);
    fwd.mark_finished(0, Some("listener closed".to_string()));
    let errors = fwd.sweep();
    assert_eq!(errors, vec!["listener closed".to_string()]);
    assert_eq!(fwd.forwards.len(), 1);
    assert_eq!(fwd.forwards[0].rule.local_port, 1081);
}

#[test]
fn rule_dialog_validation() {
    let rule = build_rule(0, "127.0.0.1", "8080", "db", "5432").unwrap();
    assert_eq!(rule.forward_type, ForwardType::Local);
    assert_eq!(rule.local_port, 8080);
    assert_eq!(rule.remote_port, 5432);
    let rule = build_rule(1, "0.0.0.0", "2222", "localhost", "22").unwrap();
    assert_eq!(rule.forward_type, ForwardType::Remote);
    let rule = build_rule(2, "127.0.0.1", "1080", "", "").unwrap();
    assert_eq!(rule.forward_type, ForwardType::Dynamic);
    assert!(build_rule(0, "", "8080", "db", "5432").is_none());
    assert!(build_rule(0, "h", "not a port", "db", "5432").is_none());
    assert!(build_rule(0, "h", "8080", "db", "70000").is_none());
    assert!(build_rule(2, "h", "99999", "", "").is_none());
}
