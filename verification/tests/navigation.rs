use carbonyl::gfx::{Color, Point, Size};
use carbonyl::input::Key;
use carbonyl::ui::navigation::{Navigation, NavigationAction};
use unicode_width::UnicodeWidthStr;

fn key(char: u8) -> Key {
    Key { char, alt: false }
}

fn bar_with(url: &str) -> Navigation {
    let mut nav = Navigation::new();
    nav.push(url, false, false);
    nav
}

#[test]
fn empty_bar() {
    let nav = Navigation::new();
    assert_eq!(nav.display_url(), "about:blank");
    assert_eq!(nav.url_size(), 11);
    assert_eq!(nav.cursor(), None);
}

#[test]
fn pushed_url_is_shown_without_a_cursor() {
    let nav = bar_with("https://example.com");
    assert_eq!(nav.display_url(), "https://example.com");
    assert_eq!(nav.url_size(), 19);
    assert_eq!(nav.cursor(), None);
}

#[test]
fn buttons_and_clicks() {
    let mut nav = bar_with("abc");
    assert!(matches!(nav.mouse_down(Point::new(1, 0)), NavigationAction::GoBack()));
    assert!(matches!(nav.mouse_down(Point::new(4, 0)), NavigationAction::GoForward()));
    assert!(matches!(nav.mouse_down(Point::new(7, 0)), NavigationAction::Refresh()));
    assert!(matches!(nav.mouse_down(Point::new(9, 0)), NavigationAction::Ignore));
    assert!(matches!(nav.mouse_down(Point::new(20, 0)), NavigationAction::Ignore));
    assert_eq!(nav.cursor(), Some(Point::new(14, 0)));
    assert!(matches!(nav.mouse_down(Point::new(12, 0)), NavigationAction::Ignore));
    assert_eq!(nav.cursor(), Some(Point::new(12, 0)));
    assert!(matches!(nav.mouse_down(Point::new(12, 3)), NavigationAction::Forward));
    assert_eq!(nav.cursor(), None);
}

#[test]
fn mouse_up_and_move() {
    let mut nav = bar_with("abc");
    nav.mouse_down(Point::new(12, 0));
    assert!(matches!(nav.mouse_up(Point::new(12, 0)), NavigationAction::Ignore));
    assert_eq!(nav.cursor(), Some(Point::new(12, 0)));
    assert!(matches!(nav.mouse_move(Point::new(3, 3)), NavigationAction::Forward));
    assert_eq!(nav.cursor(), Some(Point::new(12, 0)));
    assert!(matches!(nav.mouse_up(Point::new(12, 2)), NavigationAction::Forward));
    assert_eq!(nav.cursor(), None);
}

#[test]
fn keys_without_a_cursor() {
    let mut nav = bar_with("abc");
    assert!(matches!(nav.keypress(&Key { char: 0x14, alt: true }), NavigationAction::GoBack()));
    assert!(matches!(nav.keypress(&Key { char: 0x13, alt: true }), NavigationAction::GoForward()));
    assert!(matches!(nav.keypress(&key(0x14)), NavigationAction::Forward));
    assert!(matches!(nav.keypress(&key(b'x')), NavigationAction::Forward));
    assert_eq!(nav.display_url(), "abc");
}

#[test]
fn editing_the_url() {
    let mut nav = bar_with("ab");
    nav.mouse_down(Point::new(12, 0));
    assert!(matches!(nav.keypress(&key(b'X')), NavigationAction::Ignore));
    assert_eq!(nav.display_url(), "aXb");
    assert_eq!(nav.cursor(), Some(Point::new(13, 0)));
    assert!(matches!(nav.keypress(&key(0x7f)), NavigationAction::Ignore));
    assert_eq!(nav.display_url(), "ab");
    assert_eq!(nav.cursor(), Some(Point::new(12, 0)));
    match nav.keypress(&key(0x0d)) {
        NavigationAction::GoTo(url) => assert_eq!(url, "ab"),
        _ => panic!("return should load the url"),
    }
}

#[test]
fn cursor_moves() {
    let mut nav = bar_with("abcd");
    nav.mouse_down(Point::new(13, 0));
    nav.keypress(&key(0x11));
    assert_eq!(nav.cursor(), Some(Point::new(11, 0)));
    nav.keypress(&key(0x14));
    assert_eq!(nav.cursor(), Some(Point::new(11, 0)));
    nav.keypress(&key(0x12));
    assert_eq!(nav.cursor(), Some(Point::new(15, 0)));
    nav.keypress(&key(0x13));
    assert_eq!(nav.cursor(), Some(Point::new(15, 0)));
    nav.keypress(&key(0x14));
    assert_eq!(nav.cursor(), Some(Point::new(14, 0)));
    nav.keypress(&key(0x11));
    nav.keypress(&key(0x7f));
    assert_eq!(nav.display_url(), "abcd");
}

#[test]
fn typing_then_backspace_restores_the_bar() {
    for at in 11..=15 {
        let mut nav = bar_with("q=\u{e9}t");
        nav.mouse_down(Point::new(at, 0));
        let before_url = nav.display_url().to_string();
        let before_cursor = nav.cursor();
        if before_cursor == Some(Point::new(14, 0)) {
            // the cursor would sit inside the two bytes of the accented letter
            continue;
        }
        nav.keypress(&key(b'z'));
        nav.keypress(&key(0x7f));
        assert_eq!(nav.display_url(), before_url);
        assert_eq!(nav.cursor(), before_cursor);
    }
}

#[test]
fn pushing_moves_an_open_cursor_to_the_end() {
    let mut nav = bar_with("abc");
    nav.mouse_down(Point::new(12, 0));
    nav.push("abc", true, true);
    assert_eq!(nav.cursor(), Some(Point::new(12, 0)));
    nav.push("hello", true, true);
    assert_eq!(nav.cursor(), Some(Point::new(16, 0)));
    nav.push("h\u{e9}", false, false);
    assert_eq!(nav.cursor(), Some(Point::new(14, 0)));
    nav.set_size(Size::new(80, 24));
    assert_eq!(nav.display_url(), "h\u{e9}");
}

#[test]
fn buttons_are_bracketed() {
    let nav = Navigation::new();
    let [open, icon, close] = nav.render_btn("x", false);
    assert_eq!(open.text, "[");
    assert_eq!(icon.text, "x");
    assert_eq!(close.text, "]");
    assert_eq!(open.background, Color::new(255, 255, 255));
    assert_eq!(open.foreground, Color::new(0, 0, 0));
    assert_eq!(icon.foreground, Color::new(200, 200, 200));
    let [_, enabled, _] = nav.render_btn("x", true);
    assert_eq!(enabled.foreground, Color::new(0, 0, 0));
}

#[test]
fn bar_layout() {
    let mut nav = Navigation::new();
    nav.push("abc", true, false);
    let elements = nav.render(Size::new(20, 1));
    let texts: Vec<&str> = elements.iter().map(|(_, e)| e.text.as_str()).collect();
    assert_eq!(
        texts,
        vec!["[", "\u{276e}", "]", "[", "\u{276f}", "]", "[", "\u{21bb}", "]", "[", " abc     ", "]"]
    );
    let mut x = 0i32;
    for (point, element) in &elements {
        assert_eq!(*point, Point::new(x, 0));
        x += element.text.width() as i32;
    }
    assert_eq!(elements[1].1.foreground, Color::new(0, 0, 0));
    assert_eq!(elements[4].1.foreground, Color::new(200, 200, 200));
    assert_eq!(elements[10].1.background, Color::new(255, 255, 255));
}

#[test]
fn long_urls_are_cut() {
    let nav = bar_with("abcdefghijklmnop");
    let elements = nav.try_render(Size::new(16, 1)).unwrap();
    assert_eq!(elements[10].1.text, " abc ");
    let blank = Navigation::new();
    let elements = blank.render(Size::new(13, 1));
    assert_eq!(elements[10].1.text, "  ");
}

#[test]
fn bars_that_cannot_be_laid_out() {
    let nav = bar_with("\u{4e2d}\u{4e2d}");
    assert!(nav.try_render(Size::new(12, 1)).is_none());
    assert!(nav.try_render(Size::new(14, 1)).is_none());
    assert!(nav.try_render(Size::new(15, 1)).is_none());
    assert!(nav.try_render(Size::new(17, 1)).is_some());
}

#[test]
fn keys_the_bar_can_take() {
    let mut nav = bar_with("q\u{e9}");
    assert!(nav.accepts_key(&key(b'x')));
    nav.mouse_down(Point::new(13, 0));
    assert_eq!(nav.cursor(), Some(Point::new(13, 0)));
    assert!(!nav.accepts_key(&key(b'x')));
    assert!(nav.accepts_key(&key(0x7f)));
    assert!(nav.accepts_key(&key(0x13)));
    nav.mouse_down(Point::new(12, 0));
    assert!(nav.accepts_key(&key(b'x')));
    assert!(nav.accepts_key(&key(0x7f)));
}

#[test]
fn cursor_stands_on_its_character() {
    let mut nav = bar_with("abcdef");
    nav.mouse_down(Point::new(13, 0));
    let cursor = nav.cursor().unwrap();
    let elements = nav.render(Size::new(30, 1));
    let (field_at, field) = &elements[10];
    let column = field_at.x + 1 + 2;
    assert_eq!(cursor.x, column);
    assert_eq!(field.text.chars().nth(1 + 2), Some('c'));
}
