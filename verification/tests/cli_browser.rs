use carbonyl::browser::shell::parse_args;
use carbonyl::browser::{dispatch, handle_event, BrowserCommand};
use carbonyl::cli::CommandLineProgram;
use carbonyl::gfx::{Rect, Size};
use carbonyl::input::{Event, Key, TerminalEvent};
use carbonyl::output::renderer::Renderer;
use carbonyl::ui::navigation::{Navigation, NavigationAction};

fn args(list: &[&str]) -> Vec<String> {
    list.iter().map(|s| s.to_string()).collect()
}

#[test]
fn command_line_runs_the_browser() {
    match CommandLineProgram::parse(args(&["carbonyl", "https://example.com"])) {
        CommandLineProgram::Main(cmd) => {
            assert!(!cmd.debug);
            assert_eq!(cmd.args, args(&["carbonyl", "https://example.com"]));
        }
        _ => panic!("expected the browser to run"),
    }
    match CommandLineProgram::parse(args(&["carbonyl", "--debug", "x", "-d"])) {
        CommandLineProgram::Main(cmd) => {
            assert!(cmd.debug);
            assert_eq!(cmd.args.len(), 4);
        }
        _ => panic!("expected the browser to run"),
    }
}

#[test]
fn command_line_help_and_version() {
    assert!(matches!(CommandLineProgram::parse(args(&["carbonyl", "-h"])), CommandLineProgram::Help));
    assert!(matches!(CommandLineProgram::parse(args(&["carbonyl", "--help"])), CommandLineProgram::Help));
    assert!(matches!(CommandLineProgram::parse(args(&["carbonyl", "-v"])), CommandLineProgram::Version));
    assert!(matches!(
        CommandLineProgram::parse(args(&["carbonyl", "-d", "--version", "-h"])),
        CommandLineProgram::Version
    ));
    assert!(matches!(CommandLineProgram::parse(args(&["carbonyl", "--helpme"])), CommandLineProgram::Main(_)));
    assert!(matches!(CommandLineProgram::parse(Vec::new()), CommandLineProgram::Main(_)));
}

#[test]
fn dispatching_bar_answers() {
    assert!(matches!(dispatch(NavigationAction::Ignore), (false, None)));
    assert!(matches!(dispatch(NavigationAction::Forward), (true, None)));
    assert!(matches!(dispatch(NavigationAction::GoBack()), (false, Some(BrowserCommand::GoBack))));
    assert!(matches!(dispatch(NavigationAction::GoForward()), (false, Some(BrowserCommand::GoForward))));
    assert!(matches!(dispatch(NavigationAction::Refresh()), (false, Some(BrowserCommand::Refresh))));
    match dispatch(NavigationAction::GoTo("a".to_string())) {
        (false, Some(BrowserCommand::GoTo(url))) => assert_eq!(url, "a"),
        _ => panic!("expected a go-to"),
    }
}

fn setup() -> (Navigation, Renderer) {
    let mut nav = Navigation::new();
    nav.push("abc", true, true);
    let mut renderer = Renderer::new("");
    renderer.set_size(Size::new(7, 14), Size::new(2, 1));
    (nav, renderer)
}

#[test]
fn page_events_go_to_the_browser() {
    let (mut nav, mut renderer) = setup();
    let key = Event::KeyPress { key: Key { char: b'a', alt: false } };
    let out = handle_event(&mut nav, &mut renderer, key);
    assert_eq!(out.len(), 1);
    assert!(matches!(out[0], BrowserCommand::KeyPress { char: b'a' }));
    let out = handle_event(&mut nav, &mut renderer, Event::MouseDown { row: 3, col: 5 });
    assert!(matches!(out[..], [BrowserCommand::MouseDown { col: 5, row: 3 }]));
    let out = handle_event(&mut nav, &mut renderer, Event::MouseMove { row: 0, col: 5 });
    assert!(matches!(out[..], [BrowserCommand::MouseMove { col: 5, row: 0 }]));
    let out = handle_event(&mut nav, &mut renderer, Event::Scroll { delta: -2 });
    assert!(matches!(out[..], [BrowserCommand::Scroll { delta: -2 }]));
    assert!(handle_event(&mut nav, &mut renderer, Event::Exit).is_empty());
    let name = Event::Terminal(TerminalEvent::Name("xterm".to_string()));
    assert!(handle_event(&mut nav, &mut renderer, name).is_empty());
}

#[test]
fn bar_events_become_navigation() {
    let (mut nav, mut renderer) = setup();
    let out = handle_event(&mut nav, &mut renderer, Event::MouseDown { row: 0, col: 1 });
    assert!(matches!(out[..], [BrowserCommand::GoBack]));
    let out = handle_event(&mut nav, &mut renderer, Event::MouseDown { row: 0, col: 7 });
    assert!(matches!(out[..], [BrowserCommand::Refresh]));
    let out = handle_event(&mut nav, &mut renderer, Event::MouseDown { row: 0, col: 14 });
    assert!(out.is_empty());
    let out = handle_event(&mut nav, &mut renderer, Event::MouseUp { row: 0, col: 14 });
    assert!(out.is_empty());
    let typed = Event::KeyPress { key: Key { char: b'd', alt: false } };
    assert!(handle_event(&mut nav, &mut renderer, typed).is_empty());
    let enter = Event::KeyPress { key: Key { char: 0x0d, alt: false } };
    let out = handle_event(&mut nav, &mut renderer, enter);
    match &out[..] {
        [BrowserCommand::GoTo(url)] => assert_eq!(url, "abcd"),
        _ => panic!("expected a go-to"),
    }
    let out = handle_event(&mut nav, &mut renderer, Event::MouseUp { row: 2, col: 1 });
    assert!(matches!(out[..], [BrowserCommand::MouseUp { col: 1, row: 2 }]));
}

#[test]
fn true_color_reply_switches_the_renderer() {
    let (mut nav, mut renderer) = setup();
    let reply = Event::Terminal(TerminalEvent::TrueColorSupported);
    assert!(handle_event(&mut nav, &mut renderer, reply).is_empty());
    let mut pixels = [1u8, 2, 3, 255, 0, 0, 0, 255, 4, 5, 6, 255, 0, 0, 0, 255];
    let out = renderer.draw_background(&mut pixels, Rect::new(0, 0, 2, 2));
    assert_eq!(out, "\x1b[1;1H\x1b[48;2;1;2;3m\x1b[38;2;4;5;6m\u{2584}".as_bytes().to_vec());
}

#[test]
fn shell_arguments() {
    let parsed = parse_args(args(&["carbonyl", "--debug", "https://a.b", "--debug", "-x"]));
    assert!(parsed.debug);
    assert_eq!(parsed.chromium, args(&["https://a.b", "-x"]));
    let parsed = parse_args(args(&["--debug", "-d"]));
    assert!(!parsed.debug);
    assert_eq!(parsed.chromium, args(&["-d"]));
    let parsed = parse_args(Vec::new());
    assert!(!parsed.debug);
    assert!(parsed.chromium.is_empty());
}
