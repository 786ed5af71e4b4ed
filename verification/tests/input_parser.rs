use std::ops::ControlFlow;

use carbonyl::input::dcs::{read_hex_string, ResourceParser, StatusParser};
use carbonyl::input::listen::collect_events;
use carbonyl::input::tty::{alt_screen_enter_sequence, alt_screen_quit_sequence};
use carbonyl::input::{DeviceControl, Event, Key, Keyboard, Mouse, Parser, TerminalEvent};

fn key_chars(events: &[Event]) -> Vec<u8> {
    events
        .iter()
        .map(|e| match e {
            Event::KeyPress { key } => key.char,
            _ => panic!("not a key press: {:?}", e),
        })
        .collect()
}

#[test]
fn plain_text_gives_key_presses() {
    let mut parser = Parser::new();
    let events = parser.parse(b"hi!");
    assert_eq!(key_chars(&events), b"hi!".to_vec());
    for e in &events {
        assert!(matches!(e, Event::KeyPress { key: Key { alt: false, .. } }));
    }
}

#[test]
fn ctrl_c_exits() {
    let mut parser = Parser::new();
    let events = parser.parse(&[b'a', 0x03, b'b']);
    assert_eq!(events.len(), 3);
    assert!(matches!(events[0], Event::KeyPress { key: Key { char: b'a', alt: false } }));
    assert!(matches!(events[1], Event::Exit));
    assert!(matches!(events[2], Event::KeyPress { key: Key { char: b'b', alt: false } }));
}

#[test]
fn arrow_keys() {
    let mut parser = Parser::new();
    let events = parser.parse(b"\x1b[A\x1b[B\x1b[C\x1b[D");
    assert_eq!(key_chars(&events), vec![0x11, 0x12, 0x13, 0x14]);
}

#[test]
fn escape_then_letter() {
    let mut parser = Parser::new();
    let events = parser.parse(b"\x1bx");
    assert_eq!(key_chars(&events), vec![0x1b, b'x']);
}

#[test]
fn double_escape_keeps_the_sequence_open() {
    let mut parser = Parser::new();
    let events = parser.parse(b"\x1b\x1b[A");
    assert_eq!(key_chars(&events), vec![0x1b, 0x11]);
}

#[test]
fn unknown_control_sequence_is_dropped() {
    let mut parser = Parser::new();
    let events = parser.parse(b"\x1b[Zx");
    assert_eq!(key_chars(&events), vec![b'x']);
}

#[test]
fn mouse_press_release_and_move() {
    let mut parser = Parser::new();
    let events = parser.parse(b"\x1b[<0;10;20M\x1b[<0;10;20m\x1b[<32;5;6M");
    assert_eq!(events.len(), 3);
    assert!(matches!(events[0], Event::MouseDown { row: 19, col: 9 }));
    assert!(matches!(events[1], Event::MouseUp { row: 19, col: 9 }));
    assert!(matches!(events[2], Event::MouseMove { row: 5, col: 4 }));
}

#[test]
fn mouse_wheel() {
    let mut parser = Parser::new();
    let events = parser.parse(b"\x1b[<64;1;1M\x1b[<65;1;1M");
    assert_eq!(events.len(), 2);
    assert!(matches!(events[0], Event::Scroll { delta: 1 }));
    assert!(matches!(events[1], Event::Scroll { delta: -1 }));
}

#[test]
fn malformed_mouse_number_ends_the_sequence() {
    let mut parser = Parser::new();
    let events = parser.parse(b"\x1b[<a;1M");
    assert_eq!(key_chars(&events), vec![b'1', b'M']);
}

#[test]
fn true_color_reply() {
    let mut parser = Parser::new();
    let events = parser.parse(b"\x1bP1$r48:2:1:0:0:0m\x1b\\");
    assert_eq!(events.len(), 1);
    assert!(matches!(events[0], Event::Terminal(TerminalEvent::TrueColorSupported)));
}

#[test]
fn palette_only_reply_is_ignored() {
    let mut parser = Parser::new();
    let events = parser.parse(b"\x1bP1$r48;5;1m\x1b\\x");
    assert_eq!(key_chars(&events), vec![b'x']);
}

#[test]
fn terminal_name_reply() {
    let mut parser = Parser::new();
    let events = parser.parse(b"\x1bP1+r544e=787465726d\x1b\\");
    assert_eq!(events.len(), 1);
    match &events[0] {
        Event::Terminal(TerminalEvent::Name(name)) => assert_eq!(name, "xterm"),
        e => panic!("unexpected event {:?}", e),
    }
}

#[test]
fn other_resource_is_ignored() {
    let mut parser = Parser::new();
    let events = parser.parse(b"\x1bP1+r4142=787465726d\x1b\\");
    assert!(events.is_empty());
}

#[test]
fn split_input_parses_like_whole_input() {
    let input: &[u8] = b"ab\x1b[<0;10;20M\x1b[C\x1bP1+r544e=787465726d\x1b\\z";
    let mut whole = Parser::new();
    let expected = format!("{:?}", whole.parse(input));
    for cut in 0..=input.len() {
        let mut parser = Parser::new();
        let mut events = parser.parse(&input[..cut]);
        events.extend(parser.parse(&input[cut..]));
        assert_eq!(format!("{:?}", events), expected, "cut at {}", cut);
    }
}

#[test]
fn device_control_needs_a_code() {
    let mut dcs = DeviceControl::new();
    assert!(matches!(dcs.parse(b'2'), ControlFlow::Break(None)));
    let mut dcs = DeviceControl::new();
    assert!(matches!(dcs.parse(b'1'), ControlFlow::Continue(None)));
    assert!(matches!(dcs.parse(b'x'), ControlFlow::Break(None)));
}

#[test]
fn mouse_parser_alone() {
    let mut mouse = Mouse::new();
    for &b in b"2;3;4" {
        assert!(matches!(mouse.parse(b), ControlFlow::Continue(None)));
    }
    assert!(matches!(mouse.parse(b'M'), ControlFlow::Break(Some(Event::MouseDown { row: 3, col: 2 }))));
}

#[test]
fn hex_strings() {
    assert_eq!(read_hex_string(b"544e"), Some("TN".to_string()));
    assert_eq!(read_hex_string(b"544E"), Some("TN".to_string()));
    assert_eq!(read_hex_string(b""), Some(String::new()));
    assert_eq!(read_hex_string(b"414"), Some("A".to_string()));
    assert_eq!(read_hex_string(b"zz"), None);
    assert_eq!(read_hex_string(b"ff"), None);
    assert_eq!(read_hex_string(b"c3a9"), Some("\u{e9}".to_string()));
}

#[test]
fn keyboard_arrow_keys() {
    assert!(matches!(
        Keyboard::key(b'A', true),
        Some(Event::KeyPress { key: Key { char: 0x11, alt: true } })
    ));
    assert!(matches!(
        Keyboard::key(b'D', false),
        Some(Event::KeyPress { key: Key { char: 0x14, alt: false } })
    ));
    assert!(Keyboard::key(b'x', false).is_none());
}

#[test]
fn keyboard_modifier_sequence() {
    let mut keyboard = Keyboard::new();
    assert!(matches!(keyboard.parse(b';'), ControlFlow::Continue(None)));
    assert!(matches!(keyboard.parse(b'3'), ControlFlow::Continue(None)));
    assert!(matches!(
        keyboard.parse(b'C'),
        ControlFlow::Break(Some(Event::KeyPress { key: Key { char: 0x13, alt: true } }))
    ));
    let mut keyboard = Keyboard::new();
    assert!(matches!(keyboard.parse(b'x'), ControlFlow::Break(None)));
}

#[test]
fn scrolls_are_merged() {
    let read = vec![
        Event::Scroll { delta: 1 },
        Event::KeyPress { key: Key { char: b'a', alt: false } },
        Event::Scroll { delta: 2 },
    ];
    let events = collect_events(read).unwrap();
    assert_eq!(events.len(), 2);
    assert!(matches!(events[0], Event::KeyPress { key: Key { char: b'a', alt: false } }));
    assert!(matches!(events[1], Event::Scroll { delta: 3 }));
}

#[test]
fn cancelling_scrolls_vanish() {
    let read = vec![Event::Scroll { delta: 1 }, Event::Scroll { delta: -1 }];
    assert!(collect_events(read).unwrap().is_empty());
}

#[test]
fn exit_stops_listening() {
    let read = vec![Event::KeyPress { key: Key { char: b'a', alt: false } }, Event::Exit];
    assert!(collect_events(read).is_none());
}

#[test]
fn alternate_screen_sequences() {
    assert_eq!(
        alt_screen_enter_sequence(),
        b"\x1b[?1049h\x1b[?1003h\x1b[?1006h\x1b[?25l\x1b[48;2;0;0;0m\x1bP$qm\x1b\\\x1bP+q544e\x1b\\".to_vec()
    );
    assert_eq!(alt_screen_quit_sequence(), b"\x1b[?1049l\x1b[?1003l\x1b[?1006l\x1b[?25h".to_vec());
}

#[test]
fn status_reply_by_itself() {
    let mut status = StatusParser::new(b'1');
    let bytes = b"r48:2:0:255:255m\x1b\\";
    for &b in &bytes[..bytes.len() - 1] {
        assert!(matches!(status.parse(b), ControlFlow::Continue(None)));
    }
    assert!(matches!(
        status.parse(b'\\'),
        ControlFlow::Break(Some(Event::Terminal(TerminalEvent::TrueColorSupported)))
    ));
    let mut other = StatusParser::new(b'1');
    assert!(matches!(other.parse(b'x'), ControlFlow::Break(None)));
}

#[test]
fn resource_reply_by_itself() {
    let mut resource = ResourceParser::new(b'1');
    let bytes = b"r544e=6b6f6e736f6c65\x1b\\";
    for &b in &bytes[..bytes.len() - 1] {
        assert!(matches!(resource.parse(b), ControlFlow::Continue(None)));
    }
    match resource.parse(b'\\') {
        ControlFlow::Break(Some(Event::Terminal(TerminalEvent::Name(name)))) => assert_eq!(name, "konsole"),
        _ => panic!("expected the terminal's name"),
    }
    let mut code0 = ResourceParser::new(b'0');
    for &b in b"r544e=6b\x1b" {
        code0.parse(b);
    }
    assert!(matches!(code0.parse(b'\\'), ControlFlow::Break(None)));
}

#[test]
fn abandoned_mouse_reports() {
    for input in [&b"x;"[..], b";", b"1;2;3;4;", b"1;2M"] {
        let mut mouse = Mouse::new();
        let (last, rest) = input.split_last().unwrap();
        for &b in rest {
            assert!(matches!(mouse.parse(b), ControlFlow::Continue(None)));
        }
        assert!(matches!(mouse.parse(*last), ControlFlow::Break(None)), "{:?}", input);
    }
}
