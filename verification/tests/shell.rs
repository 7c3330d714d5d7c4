use umbra::protocol::KeyInput;
use umbra::shell::{parse_command, BlinkAction, Command, CursorBlink, EditAction, LineEditor, LINE_CAPACITY};

fn echo_of(a: EditAction) -> Option<u8> {
    match a {
        EditAction::Echo(b) => Some(b),
        _ => None,
    }
}

#[test]
fn editor_types_erases_and_submits() {
    let mut e = LineEditor::new();
    assert_eq!(echo_of(e.handle_key('l')), Some(b'l'));
    assert_eq!(echo_of(e.handle_key('s')), Some(b's'));
    assert_eq!(echo_of(e.handle_key('x')), Some(b'x'));
    assert!(matches!(e.handle_key('\x08'), EditAction::Erase));
    assert_eq!(e.line(), b"ls");
    assert!(matches!(e.handle_key('\u{e9}'), EditAction::Ignore));
    assert!(matches!(e.handle_key('\t'), EditAction::Ignore));
    assert_eq!(echo_of(e.handle_key(' ')), Some(b' '));
    match e.handle_key('\n') {
        EditAction::Submit(line) => assert_eq!(line, b"ls ".to_vec()),
        _ => panic!("expected a submitted line"),
    }
    assert!(e.line().is_empty());
    assert!(matches!(e.handle_key('\x7f'), EditAction::Ignore));
}

#[test]
fn editor_stops_at_capacity() {
    let mut e = LineEditor::new();
    for _ in 0..LINE_CAPACITY {
        assert!(echo_of(e.handle_key('a')).is_some());
    }
    assert!(matches!(e.handle_key('b'), EditAction::Ignore));
    assert_eq!(e.line().len(), LINE_CAPACITY);
    assert!(matches!(e.handle_key('\x7f'), EditAction::Erase));
    assert_eq!(echo_of(e.handle_key('c')), Some(b'c'));
}

#[test]
fn unbounded_editor_takes_decoded_keys() {
    let mut e = LineEditor::unbounded();
    for _ in 0..300 {
        assert!(echo_of(e.handle_input(KeyInput::Unicode('z'))).is_some());
    }
    assert!(matches!(e.handle_input(KeyInput::Backspace), EditAction::Erase));
    assert!(matches!(e.handle_input(KeyInput::OtherRaw), EditAction::Ignore));
    assert_eq!(e.line().len(), 299);
}

#[test]
fn parse_known_commands() {
    assert!(matches!(parse_command(b"help"), Command::Help));
    assert!(matches!(parse_command(b"  clear  "), Command::Clear));
    assert!(matches!(parse_command(b"poweroff"), Command::PowerOff));
    assert!(matches!(parse_command(b"date"), Command::Date));
    assert!(matches!(parse_command(b"lspci extra args"), Command::Lspci));
    assert!(matches!(parse_command(b"exit"), Command::Exit));
    assert!(matches!(parse_command(b""), Command::Empty));
    assert!(matches!(parse_command(b"   \t "), Command::Empty));
}

#[test]
fn parse_echo_keeps_inner_spacing() {
    match parse_command(b"  echo   hello   world  ") {
        Command::Echo(rest) => assert_eq!(rest, b"hello   world".to_vec()),
        _ => panic!("expected echo"),
    }
    match parse_command(b"echo") {
        Command::Echo(rest) => assert!(rest.is_empty()),
        _ => panic!("expected echo"),
    }
}

#[test]
fn parse_unknown_reports_first_word() {
    match parse_command(b" echoes hi") {
        Command::Unknown(w) => assert_eq!(w, b"echoes".to_vec()),
        _ => panic!("expected unknown"),
    }
    match parse_command(b"HELP") {
        Command::Unknown(w) => assert_eq!(w, b"HELP".to_vec()),
        _ => panic!("expected unknown"),
    }
}

#[test]
fn cursor_blinks_every_nine_ticks() {
    let mut c = CursorBlink::new(100);
    assert_eq!(c.tick(105), None);
    assert_eq!(c.tick(109), Some(BlinkAction::Show));
    assert!(c.visible);
    assert_eq!(c.tick(110), None);
    assert_eq!(c.tick(118), Some(BlinkAction::Hide));
    assert!(!c.visible);
    assert_eq!(c.tick(127), Some(BlinkAction::Show));
    assert!(c.hide_for_key());
    assert!(!c.hide_for_key());
    c.key_handled(130);
    assert_eq!(c.last_blink, 130);
    assert_eq!(c.tick(138), None);
}

#[test]
fn cursor_blink_counts_across_wraparound() {
    let mut c = CursorBlink::new(u64::MAX - 2);
    assert_eq!(c.tick(5), None);
    assert_eq!(c.tick(6), Some(BlinkAction::Show));
    assert_eq!(c.last_blink, 6);
}

#[test]
fn typed_line_is_what_enter_submits() {
    let mut e = LineEditor::new();
    for c in "datx\x08e\u{1b}".chars() {
        e.handle_key(c);
    }
    match e.handle_key('\n') {
        EditAction::Submit(line) => {
            assert_eq!(line, b"date".to_vec());
            assert!(matches!(parse_command(&line), Command::Date));
        }
        _ => panic!("expected a submitted line"),
    }
}
