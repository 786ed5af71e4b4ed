use carbonyl::terminal::input::listen::split_scrolls;
use carbonyl::terminal::input::{DeviceControl, DeviceControlEvent, Event, Mouse, Parser, TerminalEvent};

fn keys(events: &[Event]) -> Vec<u8> {
    events
        .iter()
        .map(|e| match e {
            Event::KeyPress { key } => *key,
            _ => panic!("not a key press: {:?}", e),
        })
        .collect()
}

#[test]
fn text_and_exit() {
    let mut parser = Parser::new();
    let events = parser.parse(&[b'o', b'k', 0x03]);
    assert_eq!(events.len(), 3);
    assert!(matches!(events[0], Event::KeyPress { key: b'o' }));
    assert!(matches!(events[1], Event::KeyPress { key: b'k' }));
    assert!(matches!(events[2], Event::Exit));
}

#[test]
fn arrows_use_virtual_key_codes() {
    let mut parser = Parser::new();
    let events = parser.parse(b"\x1b[A\x1b[B\x1b[C\x1b[D");
    assert_eq!(keys(&events), vec![0x26, 0x28, 0x27, 0x25]);
}

#[test]
fn escape_sequences() {
    let mut parser = Parser::new();
    let events = parser.parse(b"\x1bq\x1b\x1b[Zw");
    assert_eq!(keys(&events), vec![0x1b, b'q', 0x1b, b'w']);
}

#[test]
fn mouse_reports() {
    let mut parser = Parser::new();
    let events = parser.parse(b"\x1b[<0;3;4M\x1b[<0;3;4m\x1b[<35;1;2M\x1b[<64;7;7M\x1b[<65;7;7m");
    assert_eq!(events.len(), 5);
    assert!(matches!(events[0], Event::MouseDown { row: 3, col: 2 }));
    assert!(matches!(events[1], Event::MouseUp { row: 3, col: 2 }));
    assert!(matches!(events[2], Event::MouseMove { row: 1, col: 0 }));
    assert!(matches!(events[3], Event::Scroll { delta: 1 }));
    assert!(matches!(events[4], Event::Scroll { delta: -1 }));
}

#[test]
fn incomplete_mouse_report_is_dropped() {
    let mut parser = Parser::new();
    let events = parser.parse(b"\x1b[<0;3Mx");
    assert_eq!(keys(&events), vec![b'x']);
}

#[test]
fn device_control_replies() {
    let mut parser = Parser::new();
    let events = parser.parse(b"\x1bP1$r38:2::1:2:3m\x1b\\\x1bP1+r544e=6b69747479\x1b\\");
    assert_eq!(events.len(), 2);
    assert!(matches!(events[0], Event::Terminal(TerminalEvent::TrueColorSupported)));
    match &events[1] {
        Event::Terminal(TerminalEvent::Name(name)) => assert_eq!(name, "kitty"),
        e => panic!("unexpected event {:?}", e),
    }
}

#[test]
fn terminal_split_input_parses_like_whole_input() {
    let input: &[u8] = b"\x1b[<0;3;4Mab\x1b[D\x1bP1+r544e=6b69747479\x1b\\";
    let mut whole = Parser::new();
    let expected = format!("{:?}", whole.parse(input));
    for cut in 0..=input.len() {
        let mut parser = Parser::new();
        let mut events = parser.parse(&input[..cut]);
        events.extend(parser.parse(&input[cut..]));
        assert_eq!(format!("{:?}", events), expected, "cut at {}", cut);
    }
}

#[test]
fn mouse_numbers() {
    let mut mouse = Mouse::new();
    for &b in b"12" {
        mouse.push(b);
    }
    assert_eq!(mouse.parse(), Some(()));
    assert_eq!(mouse.btn, Some(12));
    mouse.push(b'+');
    mouse.push(b'5');
    assert_eq!(mouse.parse(), Some(()));
    assert_eq!(mouse.col, Some(5));
    mouse.push(b'7');
    assert_eq!(mouse.parse(), Some(()));
    assert_eq!(mouse.row, Some(7));
    mouse.push(b'1');
    assert_eq!(mouse.parse(), None);
    let mut bad = Mouse::new();
    bad.push(b'-');
    assert_eq!(bad.parse(), None);
    assert_eq!(bad.btn, None);
}

#[test]
fn event_from_mouse() {
    let mut mouse = Mouse::new();
    for &b in b"32;10;1" {
        if b == b';' {
            mouse.parse();
        } else {
            mouse.push(b);
        }
    }
    assert!(matches!(Event::from(&mut mouse, false), Some(Event::MouseMove { row: 0, col: 9 })));
    let mut mouse = Mouse::new();
    for &b in b"0;10;1" {
        if b == b';' {
            mouse.parse();
        } else {
            mouse.push(b);
        }
    }
    assert!(matches!(Event::from(&mut mouse, true), Some(Event::MouseUp { row: 0, col: 9 })));
    let mut empty = Mouse::new();
    assert!(Event::from(&mut empty, false).is_none());
}

#[test]
fn device_control_alone() {
    let mut dcs = DeviceControl::new();
    assert!(matches!(dcs.parse(b'1'), DeviceControlEvent::Continue));
    assert!(matches!(dcs.parse(b'$'), DeviceControlEvent::Continue));
    assert!(matches!(dcs.parse(b'q'), DeviceControlEvent::Break));
}

#[test]
fn scrolls_are_summed_apart() {
    let read = vec![
        Event::Scroll { delta: 1 },
        Event::KeyPress { key: b'a' },
        Event::Scroll { delta: 1 },
        Event::Exit,
        Event::Scroll { delta: -3 },
    ];
    let (events, scroll) = split_scrolls(read);
    assert_eq!(scroll, -1);
    assert_eq!(events.len(), 2);
    assert!(matches!(events[0], Event::KeyPress { key: b'a' }));
    assert!(matches!(events[1], Event::Exit));
}
