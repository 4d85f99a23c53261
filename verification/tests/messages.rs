use microsandbox_terminal::TerminalMessage;

#[test]
fn test_input_roundtrip() {
    let original = b"hello world";
    let msg = TerminalMessage::input(original);
    let decoded = msg.decode_input().unwrap();
    assert_eq!(original.as_slice(), decoded.as_slice());
}

#[test]
fn test_output_roundtrip() {
    let original = b"\x1b[32mgreen text\x1b[0m";
    let msg = TerminalMessage::output(original);
    let decoded = msg.decode_output().unwrap();
    assert_eq!(original.as_slice(), decoded.as_slice());
}

#[test]
fn payloads_are_padded_base64() {
    assert!(matches!(
        TerminalMessage::input(b"hello world"),
        TerminalMessage::Input { data } if data == "aGVsbG8gd29ybGQ="
    ));
    assert!(matches!(
        TerminalMessage::output(&[0xfb, 0xff]),
        TerminalMessage::Output { data } if data == "+/8="
    ));
    assert!(matches!(
        TerminalMessage::input(b""),
        TerminalMessage::Input { data } if data.is_empty()
    ));
    assert!(matches!(
        TerminalMessage::output(b"hi"),
        TerminalMessage::Output { data } if data == "aGk="
    ));
}

#[test]
fn payloads_have_four_characters_for_three_bytes() {
    for count in 0..10 {
        let bytes = vec![0xffu8; count];
        let text = match TerminalMessage::input(&bytes) {
            TerminalMessage::Input { data } => data,
            _ => panic!("not an input message"),
        };
        assert_eq!(text.len(), 4 * ((count + 2) / 3));
        assert_eq!(text.chars().filter(|c| *c == '=').count(), (3 - count % 3) % 3);
        assert!(matches!(
            TerminalMessage::output(&bytes),
            TerminalMessage::Output { data } if data == text
        ));
    }
}

#[test]
fn only_canonical_payloads_decode() {
    let decoded = |text: &str| TerminalMessage::Input { data: text.to_string() }.decode_input();
    assert_eq!(decoded("aGk="), Some(b"hi".to_vec()));
    assert_eq!(decoded(""), Some(Vec::new()));
    // Without padding, with bits set past the end, with padding in the middle
    assert_eq!(decoded("aGk"), None);
    assert_eq!(decoded("aGl="), None);
    assert_eq!(decoded("aGk=aGk="), None);
    assert_eq!(decoded("aGk=\n"), None);
}

#[test]
fn malformed_payloads_decode_to_nothing() {
    for text in ["aGVsbG8", "aGVs bG8=", "****", "=", "aGVsbG9="] {
        let input = TerminalMessage::Input { data: text.to_string() };
        let output = TerminalMessage::Output { data: text.to_string() };
        assert!(input.decode_input().is_none(), "{}", text);
        assert!(output.decode_output().is_none(), "{}", text);
    }
}

#[test]
fn only_the_right_message_decodes() {
    assert!(TerminalMessage::output(b"x").decode_input().is_none());
    assert!(TerminalMessage::input(b"x").decode_output().is_none());
    assert!(TerminalMessage::Ping.decode_input().is_none());
    assert!(TerminalMessage::Close.decode_output().is_none());
}

#[test]
fn constructors_fill_the_fields() {
    assert!(matches!(
        TerminalMessage::error("went wrong"),
        TerminalMessage::Error { message } if message == "went wrong"
    ));
    assert!(matches!(
        TerminalMessage::error(String::from("owned")),
        TerminalMessage::Error { message } if message == "owned"
    ));
    assert!(matches!(
        TerminalMessage::ready("abc"),
        TerminalMessage::Ready { session_id } if session_id == "abc"
    ));
    assert!(matches!(
        TerminalMessage::resize(80, 24),
        TerminalMessage::Resize { cols: 80, rows: 24 }
    ));
    assert!(matches!(
        TerminalMessage::init(None, 100, 30),
        TerminalMessage::Init { shell: None, cols: 100, rows: 30 }
    ));
    assert!(matches!(
        TerminalMessage::init(Some("/bin/sh".to_string()), 1, 2),
        TerminalMessage::Init { shell: Some(shell), cols: 1, rows: 2 } if shell == "/bin/sh"
    ));
    assert!(matches!(
        TerminalMessage::closed(Some(-1)),
        TerminalMessage::Closed { exit_code: Some(-1) }
    ));
    assert!(matches!(
        TerminalMessage::closed(None),
        TerminalMessage::Closed { exit_code: None }
    ));
}
