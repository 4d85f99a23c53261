use microsandbox_terminal::text::{decimal_text, replace};
use microsandbox_terminal::{
    connect_to_portal, portal_terminal_url, terminal_ws_proxy, ConnectOutcome, Direction, Frame,
    ProxyConnection, RelayAction, RelayEvent, ValidationError,
};

fn refusal(namespace: &str, sandbox: &str) -> String {
    match terminal_ws_proxy(namespace, sandbox) {
        Err(ValidationError::InvalidInput(text)) => text,
        Ok(()) => panic!("accepted"),
    }
}

#[test]
fn valid_names_are_accepted() {
    assert!(terminal_ws_proxy("default", "my-sandbox_01").is_ok());
    assert!(terminal_ws_proxy("A", "z").is_ok());
    assert!(terminal_ws_proxy("-", "_").is_ok());
    assert!(terminal_ws_proxy(&"n".repeat(64), &"Z9".repeat(32)).is_ok());
}

#[test]
fn invalid_names_are_refused() {
    assert_eq!(refusal("ns", ""), "Invalid sandbox name: ");
    assert_eq!(refusal("ns", "a b"), "Invalid sandbox name: a b");
    assert_eq!(refusal("ns", "../etc"), "Invalid sandbox name: ../etc");
    assert_eq!(refusal("ns", "box\n"), "Invalid sandbox name: box\n");
    assert_eq!(refusal("ns", "\nbox"), "Invalid sandbox name: \nbox");
    assert_eq!(refusal("ns", "bäx"), "Invalid sandbox name: bäx");
    assert_eq!(refusal("ns", "a.b"), "Invalid sandbox name: a.b");
    let long = "a".repeat(65);
    assert_eq!(refusal("ns", &long), format!("Invalid sandbox name: {}", long));
    assert_eq!(refusal("n s", "box"), "Invalid namespace: n s");
    assert_eq!(refusal("", "box"), "Invalid namespace: ");
    // The sandbox comes first
    assert_eq!(refusal("n s", "b x"), "Invalid sandbox name: b x");
}

#[test]
fn portal_urls_become_websocket_urls() {
    assert_eq!(portal_terminal_url("http://127.0.0.1:4444"), "ws://127.0.0.1:4444/ws/terminal");
    assert_eq!(portal_terminal_url("https://portal.test"), "wss://portal.test/ws/terminal");
    assert_eq!(portal_terminal_url("ws://x"), "ws://x/ws/terminal");
    assert_eq!(portal_terminal_url(""), "/ws/terminal");
    // Every occurrence is replaced
    assert_eq!(
        portal_terminal_url("http://a?next=https://b&last=http://c"),
        "ws://a?next=wss://b&last=ws://c/ws/terminal"
    );
}

#[test]
fn replacing_text() {
    assert_eq!(replace("aaaa", "aa", "b"), "bb");
    assert_eq!(replace("aaa", "aa", "b"), "ba");
    assert_eq!(replace("abab", "ab", "abab"), "abababab");
    assert_eq!(replace("xyz", "long pattern", ""), "xyz");
    assert_eq!(replace("grüße", "ü", "ue"), "grueße");
    assert_eq!(decimal_text(0), "0");
    assert_eq!(decimal_text(4_294_967_295), "4294967295");
    assert_eq!(decimal_text(1000), "1000");
}

#[test]
fn connecting_to_the_portal() {
    assert_eq!(connect_to_portal(ConnectOutcome::Connected(5)), Ok(5));
    assert_eq!(
        connect_to_portal::<u8>(ConnectOutcome::Failed("refused".to_string())),
        Err("WebSocket connection failed: refused".to_string())
    );
    assert_eq!(
        connect_to_portal::<u8>(ConnectOutcome::TimedOut),
        Err("Connection timeout".to_string())
    );
}

fn relay(direction: Direction, frame: Frame) -> RelayAction {
    let mut connection = ProxyConnection::new();
    let event = RelayEvent::Received(frame);
    assert!(connection.accepts(direction, &event));
    connection.step(direction, event)
}

#[test]
fn frames_are_passed_on_unchanged() {
    for direction in [Direction::ClientToPortal, Direction::PortalToClient] {
        assert!(matches!(
            relay(direction, Frame::Text("hi".to_string())),
            RelayAction::Send(Frame::Text(text)) if text == "hi"
        ));
        assert!(matches!(
            relay(direction, Frame::Binary(vec![1, 2])),
            RelayAction::Send(Frame::Binary(data)) if data == vec![1, 2]
        ));
        assert!(matches!(
            relay(direction, Frame::Ping(vec![3])),
            RelayAction::Send(Frame::Ping(data)) if data == vec![3]
        ));
        assert!(matches!(
            relay(direction, Frame::Pong(vec![])),
            RelayAction::Send(Frame::Pong(data)) if data.is_empty()
        ));
        assert!(matches!(relay(direction, Frame::Raw), RelayAction::Receive));
        assert!(matches!(relay(direction, Frame::Close), RelayAction::Send(Frame::Close)));
    }
}

#[test]
fn frames_keep_their_order() {
    let mut connection = ProxyConnection::new();
    let direction = Direction::ClientToPortal;
    let mut sent = Vec::new();
    for i in 0..10u8 {
        match connection.step(direction, RelayEvent::Received(Frame::Binary(vec![i]))) {
            RelayAction::Send(Frame::Binary(data)) => sent.push(data[0]),
            _ => panic!("not sent"),
        }
        assert!(matches!(
            connection.step(direction, RelayEvent::Sent(true)),
            RelayAction::Receive
        ));
    }
    assert_eq!(sent, (0..10).collect::<Vec<u8>>());
    assert_eq!(connection.ended_by(), None);
}

#[test]
fn closing_ends_the_connection() {
    for sent in [true, false] {
        let mut connection = ProxyConnection::new();
        let direction = Direction::PortalToClient;
        connection.step(direction, RelayEvent::Received(Frame::Close));
        assert_eq!(connection.ended_by(), None);
        assert!(matches!(
            connection.step(direction, RelayEvent::Sent(sent)),
            RelayAction::Finish
        ));
        assert_eq!(connection.ended_by(), Some(direction));
        assert!(!connection.accepts(Direction::ClientToPortal, &RelayEvent::Ended));
    }
}

#[test]
fn failures_end_the_connection() {
    let direction = Direction::ClientToPortal;
    for event in [RelayEvent::Failed, RelayEvent::Ended] {
        let mut connection = ProxyConnection::new();
        assert!(matches!(connection.step(direction, event), RelayAction::Finish));
        assert_eq!(connection.ended_by(), Some(direction));
    }
    let mut connection = ProxyConnection::new();
    connection.step(direction, RelayEvent::Received(Frame::Text("x".to_string())));
    assert!(!connection.accepts(direction, &RelayEvent::Ended));
    // The other direction is not disturbed
    assert!(connection.accepts(Direction::PortalToClient, &RelayEvent::Ended));
    assert!(matches!(connection.step(direction, RelayEvent::Sent(false)), RelayAction::Finish));
}
