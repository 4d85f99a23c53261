use microsandbox_terminal::{
    ConnectionAction, ConnectionEvent, Incoming, OutputPump, PumpAction, PumpEvent,
    TerminalConnection, TerminalError, TerminalMessage,
};

fn text(message: TerminalMessage) -> ConnectionEvent {
    ConnectionEvent::Received(Incoming::Text(message))
}

fn step(connection: &mut TerminalConnection, event: ConnectionEvent) -> ConnectionAction {
    assert!(connection.accepts(&event));
    connection.step(event)
}

fn running() -> TerminalConnection {
    let mut connection = TerminalConnection::new();
    step(&mut connection, text(TerminalMessage::init(None, 80, 24)));
    step(&mut connection, ConnectionEvent::Created(Ok("id".to_string())));
    step(&mut connection, ConnectionEvent::Sent(true));
    assert!(matches!(step(&mut connection, ConnectionEvent::Done), ConnectionAction::Receive));
    connection
}

fn is_error(action: &ConnectionAction, expected: &str) -> bool {
    matches!(
        action,
        ConnectionAction::Send(TerminalMessage::Error { message }) if message == expected
    )
}

#[test]
fn a_connection_from_init_to_close() {
    let mut connection = TerminalConnection::new();
    let init = TerminalMessage::init(Some("/bin/sh".to_string()), 80, 24);
    assert!(matches!(
        step(&mut connection, text(init)),
        ConnectionAction::CreateSession { shell: Some(shell), cols: 80, rows: 24 }
            if shell == "/bin/sh"
    ));
    assert!(matches!(
        step(&mut connection, ConnectionEvent::Created(Ok("abc".to_string()))),
        ConnectionAction::Send(TerminalMessage::Ready { session_id }) if session_id == "abc"
    ));
    assert!(matches!(
        step(&mut connection, ConnectionEvent::Sent(true)),
        ConnectionAction::StartReader
    ));
    assert!(matches!(step(&mut connection, ConnectionEvent::Done), ConnectionAction::Receive));
    assert!(matches!(
        step(&mut connection, text(TerminalMessage::input(b"exit\n"))),
        ConnectionAction::Write(bytes) if bytes == b"exit\n"
    ));
    assert!(matches!(
        step(&mut connection, ConnectionEvent::Written(Ok(()))),
        ConnectionAction::Receive
    ));
    assert!(matches!(
        step(&mut connection, text(TerminalMessage::Close)),
        ConnectionAction::AbortReader
    ));
    assert!(matches!(step(&mut connection, ConnectionEvent::Done), ConnectionAction::CloseSession));
    assert!(matches!(
        step(&mut connection, ConnectionEvent::Closed(Ok(Some(7)))),
        ConnectionAction::RemoveSession(id) if id == "abc"
    ));
    assert!(matches!(
        step(&mut connection, ConnectionEvent::Done),
        ConnectionAction::Send(TerminalMessage::Closed { exit_code: Some(7) })
    ));
    assert!(matches!(
        step(&mut connection, ConnectionEvent::Sent(false)),
        ConnectionAction::CloseSocket
    ));
    assert!(matches!(step(&mut connection, ConnectionEvent::Done), ConnectionAction::Stop));
    assert!(!connection.accepts(&ConnectionEvent::Done));
}

#[test]
fn anything_but_init_is_rejected() {
    let mut connection = TerminalConnection::new();
    assert!(!connection.accepts(&ConnectionEvent::Done));
    let action = step(&mut connection, text(TerminalMessage::Ping));
    assert!(is_error(&action, "Expected Init message"));
    assert!(matches!(step(&mut connection, ConnectionEvent::Sent(true)), ConnectionAction::Stop));

    let mut connection = TerminalConnection::new();
    let malformed = Incoming::Malformed("expected value".to_string());
    let action = step(&mut connection, ConnectionEvent::Received(malformed));
    assert!(is_error(&action, "Invalid message: expected value"));
    assert!(matches!(step(&mut connection, ConnectionEvent::Sent(false)), ConnectionAction::Stop));

    for frame in [
        Incoming::Binary(vec![1]),
        Incoming::Ping(vec![]),
        Incoming::Pong(vec![]),
        Incoming::Close,
        Incoming::Failed,
        Incoming::Ended,
    ] {
        let mut connection = TerminalConnection::new();
        assert!(matches!(
            step(&mut connection, ConnectionEvent::Received(frame)),
            ConnectionAction::Stop
        ));
    }
}

#[test]
fn a_session_that_cannot_be_created_is_reported() {
    let mut connection = TerminalConnection::new();
    step(&mut connection, text(TerminalMessage::init(None, 0, 0)));
    let cause = "Invalid terminal size: cols=0, rows=0".to_string();
    let action = step(&mut connection, ConnectionEvent::Created(Err(cause)));
    assert!(is_error(
        &action,
        "Failed to create session: Invalid terminal size: cols=0, rows=0"
    ));
    assert!(matches!(step(&mut connection, ConnectionEvent::Sent(true)), ConnectionAction::Stop));
}

#[test]
fn a_session_that_cannot_be_announced_is_released() {
    let mut connection = TerminalConnection::new();
    step(&mut connection, text(TerminalMessage::init(None, 80, 24)));
    step(&mut connection, ConnectionEvent::Created(Ok("abc".to_string())));
    assert!(matches!(
        step(&mut connection, ConnectionEvent::Sent(false)),
        ConnectionAction::CloseSession
    ));
    assert!(matches!(
        step(&mut connection, ConnectionEvent::Closed(Err(TerminalError::AlreadyClosed))),
        ConnectionAction::RemoveSession(id) if id == "abc"
    ));
    assert!(matches!(step(&mut connection, ConnectionEvent::Done), ConnectionAction::Stop));
}

#[test]
fn rate_limited_messages_are_reported() {
    let limited = || ConnectionEvent::Written(Err(TerminalError::RateLimited(10)));
    let mut connection = running();
    step(&mut connection, text(TerminalMessage::input(b"x")));
    let action = step(&mut connection, limited());
    assert!(is_error(&action, "Rate limited"));
    assert!(matches!(step(&mut connection, ConnectionEvent::Sent(false)), ConnectionAction::Receive));
    // Other failures are not reported
    step(&mut connection, text(TerminalMessage::input(b"x")));
    let failed = ConnectionEvent::Written(Err(TerminalError::WriteFailed("EIO".to_string())));
    assert!(matches!(step(&mut connection, failed), ConnectionAction::Receive));
    // Nor is limited binary input
    assert!(matches!(
        step(&mut connection, ConnectionEvent::Received(Incoming::Binary(vec![1, 2]))),
        ConnectionAction::Write(bytes) if bytes == vec![1, 2]
    ));
    assert!(matches!(step(&mut connection, limited()), ConnectionAction::Receive));
}

#[test]
fn requests_while_running() {
    let mut connection = running();
    assert!(matches!(
        step(&mut connection, text(TerminalMessage::resize(100, 50))),
        ConnectionAction::Resize { cols: 100, rows: 50 }
    ));
    assert!(matches!(step(&mut connection, ConnectionEvent::Done), ConnectionAction::Receive));
    assert!(matches!(
        step(&mut connection, text(TerminalMessage::Ping)),
        ConnectionAction::Send(TerminalMessage::Pong)
    ));
    assert!(matches!(step(&mut connection, ConnectionEvent::Sent(true)), ConnectionAction::Receive));
    assert!(matches!(
        step(&mut connection, ConnectionEvent::Received(Incoming::Ping(vec![9, 8]))),
        ConnectionAction::SendPong(data) if data == vec![9, 8]
    ));
    assert!(matches!(step(&mut connection, ConnectionEvent::Done), ConnectionAction::Receive));
}

#[test]
fn frames_that_are_ignored() {
    let mut connection = running();
    for message in [
        TerminalMessage::Input { data: "***".to_string() },
        TerminalMessage::output(b"x"),
        TerminalMessage::Pong,
        TerminalMessage::error("x"),
        TerminalMessage::init(None, 80, 24),
        TerminalMessage::ready("x"),
        TerminalMessage::closed(None),
    ] {
        assert!(matches!(step(&mut connection, text(message)), ConnectionAction::Receive));
    }
    for frame in [Incoming::Malformed("x".to_string()), Incoming::Pong(vec![1])] {
        assert!(matches!(
            step(&mut connection, ConnectionEvent::Received(frame)),
            ConnectionAction::Receive
        ));
    }
}

#[test]
fn every_ending_cleans_up() {
    for frame in [Incoming::Close, Incoming::Failed, Incoming::Ended] {
        let mut connection = running();
        assert!(matches!(
            step(&mut connection, ConnectionEvent::Received(frame)),
            ConnectionAction::AbortReader
        ));
        step(&mut connection, ConnectionEvent::Done);
        assert!(matches!(
            step(&mut connection, ConnectionEvent::Closed(Err(TerminalError::AlreadyClosed))),
            ConnectionAction::RemoveSession(id) if id == "id"
        ));
        assert!(matches!(
            step(&mut connection, ConnectionEvent::Done),
            ConnectionAction::Send(TerminalMessage::Closed { exit_code: None })
        ));
    }
}

#[test]
fn the_pump_carries_output() {
    let mut pump = OutputPump::new();
    let mut chunks = Vec::new();
    for data in [b"one".to_vec(), b"two".to_vec()] {
        assert!(pump.accepts(&PumpEvent::SessionClosed(false)));
        assert!(matches!(pump.step(PumpEvent::SessionClosed(false)), PumpAction::Read));
        assert!(!pump.accepts(&PumpEvent::Paused));
        match pump.step(PumpEvent::Read(Ok(data))) {
            PumpAction::Send(message) => chunks.push(message.decode_output().unwrap()),
            _ => panic!("not sent"),
        }
        assert!(pump.accepts(&PumpEvent::Sent(true)));
        assert!(matches!(pump.step(PumpEvent::Sent(true)), PumpAction::CheckClosed));
    }
    assert_eq!(chunks, vec![b"one".to_vec(), b"two".to_vec()]);
}

#[test]
fn the_pump_pauses_without_output() {
    let mut pump = OutputPump::new();
    pump.step(PumpEvent::SessionClosed(false));
    assert!(matches!(pump.step(PumpEvent::Read(Ok(vec![]))), PumpAction::Pause(10)));
    assert!(pump.accepts(&PumpEvent::Paused));
    assert!(matches!(pump.step(PumpEvent::Paused), PumpAction::CheckClosed));
}

#[test]
fn the_pump_stops() {
    let mut pump = OutputPump::new();
    assert!(matches!(pump.step(PumpEvent::SessionClosed(true)), PumpAction::Stop));
    assert!(!pump.accepts(&PumpEvent::SessionClosed(false)));

    let mut pump = OutputPump::new();
    pump.step(PumpEvent::SessionClosed(false));
    let failed = PumpEvent::Read(Err(TerminalError::ReadFailed("EIO".to_string())));
    assert!(matches!(pump.step(failed), PumpAction::Stop));

    let mut pump = OutputPump::new();
    pump.step(PumpEvent::SessionClosed(false));
    pump.step(PumpEvent::Read(Ok(vec![1])));
    assert!(matches!(pump.step(PumpEvent::Sent(false)), PumpAction::Stop));
}

#[test]
fn messages_come_in_order() {
    let mut connection = TerminalConnection::new();
    let events = vec![
        text(TerminalMessage::init(None, 80, 24)),
        ConnectionEvent::Created(Ok("id".to_string())),
        ConnectionEvent::Sent(true),
        ConnectionEvent::Done,
        text(TerminalMessage::Ping),
        ConnectionEvent::Sent(true),
        text(TerminalMessage::Close),
        ConnectionEvent::Done,
        ConnectionEvent::Closed(Ok(Some(0))),
        ConnectionEvent::Done,
        ConnectionEvent::Sent(true),
        ConnectionEvent::Done,
    ];
    let mut sent = Vec::new();
    for event in events {
        if let ConnectionAction::Send(message) = step(&mut connection, event) {
            sent.push(message);
        }
    }
    assert_eq!(sent.len(), 3);
    assert!(matches!(&sent[0], TerminalMessage::Ready { session_id } if session_id == "id"));
    assert!(matches!(sent[1], TerminalMessage::Pong));
    assert!(matches!(sent[2], TerminalMessage::Closed { exit_code: Some(0) }));
}
