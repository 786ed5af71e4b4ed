use vstd::prelude::*;
use vstd::string::{StrSliceExecFns, StringExecFns};
use vstd::utf8::{
    decode_utf8, encode_utf8, is_char_boundary, is_continuation_byte, length_of_first_scalar,
    pop_first_scalar, valid_utf8,
};

use crate::gfx::{Color, Point, Size};
use crate::input::Key;
use crate::utils::text::str_equal;
use crate::utils::unicode::{display_width, str_width, string_insert, string_remove};

verus! {

/// What the browser should do after the navigation bar saw an input event.
pub enum NavigationAction {
    Ignore,
    Forward,
    GoTo(String),
    GoBack(),
    GoForward(),
    Refresh(),
}

/// The abstract value of a [`NavigationAction`].
pub enum NavigationActionView {
    Ignore,
    Forward,
    GoTo(Seq<char>),
    GoBack,
    GoForward,
    Refresh,
}

impl View for NavigationAction {
    type V = NavigationActionView;

    open spec fn view(&self) -> NavigationActionView {
        match self {
            NavigationAction::Ignore => NavigationActionView::Ignore,
            NavigationAction::Forward => NavigationActionView::Forward,
            NavigationAction::GoTo(url) => NavigationActionView::GoTo(url@),
            NavigationAction::GoBack() => NavigationActionView::GoBack,
            NavigationAction::GoForward() => NavigationActionView::GoForward,
            NavigationAction::Refresh() => NavigationActionView::Refresh,
        }
    }
}

/// A piece of text of the navigation bar with its colors.
#[derive(Debug)]
pub struct NavigationElement {
    pub text: String,
    pub background: Color,
    pub foreground: Color,
}

/// The abstract value of a [`NavigationElement`].
pub struct ElementView {
    pub text: Seq<char>,
    pub background: Color,
    pub foreground: Color,
}

impl View for NavigationElement {
    type V = ElementView;

    open spec fn view(&self) -> ElementView {
        ElementView { text: self.text@, background: self.background, foreground: self.foreground }
    }
}

/// The navigation bar: the url being shown or edited, where the text cursor
/// stands (a byte offset into the url) and the history buttons' state.
pub struct Navigation {
    url: Option<String>,
    size: Size,
    cursor: Option<usize>,
    can_go_back: bool,
    can_go_forward: bool,
}

/// The abstract value of a [`Navigation`].
#[verifier::ext_equal]
pub struct NavigationView {
    pub url: Option<Seq<char>>,
    pub size: Size,
    pub cursor: Option<usize>,
    pub can_go_back: bool,
    pub can_go_forward: bool,
}

impl View for Navigation {
    type V = NavigationView;

    closed spec fn view(&self) -> NavigationView {
        NavigationView {
            url: match self.url {
                None => None,
                Some(u) => Some(u@),
            },
            size: self.size,
            cursor: self.cursor,
            can_go_back: self.can_go_back,
            can_go_forward: self.can_go_forward,
        }
    }
}

/// The text shown when no page is loaded.
pub open spec fn blank_url() -> Seq<char> {
    seq!['a', 'b', 'o', 'u', 't', ':', 'b', 'l', 'a', 'n', 'k']
}

/// The url the bar shows.
pub open spec fn shown_url(v: NavigationView) -> Seq<char> {
    match v.url {
        None => blank_url(),
        Some(u) => u,
    }
}

/// `u` with the character `ch` put in at byte offset `at` of its UTF-8 encoding.
pub open spec fn inserted(u: Seq<char>, at: int, ch: char) -> Seq<char> {
    let b = encode_utf8(u);
    decode_utf8(b.subrange(0, at) + encode_utf8(seq![ch]) + b.subrange(at, b.len() as int))
}

/// `u` without the character whose UTF-8 encoding starts at byte offset `at`.
pub open spec fn removed(u: Seq<char>, at: int) -> Seq<char> {
    let b = encode_utf8(u);
    decode_utf8(b.subrange(0, at) + pop_first_scalar(b.subrange(at, b.len() as int)))
}

/// The smaller of two offsets.
pub open spec fn min_usize(a: usize, b: usize) -> usize {
    if a <= b {
        a
    } else {
        b
    }
}

/// `w` as an offset (a width reported for a string that exists fits in `usize`).
pub open spec fn width_offset(w: nat) -> usize {
    w as usize
}

/// The inputs on which a key press can be handled: moving right needs room
/// for one more offset, and editing needs the cursor on a character boundary
/// of the url's bytes (the byte before it for a backspace).
pub open spec fn keypress_allowed(v: NavigationView, key: Key) -> bool {
    match v.cursor {
        None => true,
        Some(c) => match v.url {
            None => true,
            Some(u) => {
                let b = encode_utf8(u);
                if key.char == 0x0d || key.char == 0x11 || key.char == 0x12 || key.char == 0x14 {
                    true
                } else if key.char == 0x13 {
                    c < usize::MAX
                } else if key.char == 0x7f {
                    c > 0 ==> (c - 1 < b.len() && is_char_boundary(b, c - 1))
                } else {
                    c < usize::MAX && is_char_boundary(b, c as int)
                }
            },
        },
    }
}

/// What a key press asks of the browser.
pub open spec fn keypress_action(v: NavigationView, key: Key) -> NavigationActionView {
    match v.cursor {
        None => if key.alt && key.char == 0x14 {
            NavigationActionView::GoBack
        } else if key.alt && key.char == 0x13 {
            NavigationActionView::GoForward
        } else {
            NavigationActionView::Forward
        },
        Some(_) => match v.url {
            None => NavigationActionView::Forward,
            Some(u) => if key.char == 0x0d {
                NavigationActionView::GoTo(u)
            } else {
                NavigationActionView::Ignore
            },
        },
    }
}

/// The bar after a key press: Up and Down move the cursor to the start and
/// to the url's display width, Right and Left move it by one (Right no further
/// than that width), Backspace removes the character before it, Return
/// changes nothing, and any other key is typed in at the cursor.
pub open spec fn keypress_state(v: NavigationView, key: Key) -> NavigationView {
    match v.cursor {
        None => v,
        Some(c) => match v.url {
            None => v,
            Some(u) => if key.char == 0x0d {
                v
            } else if key.char == 0x11 {
                NavigationView { cursor: Some(0), ..v }
            } else if key.char == 0x12 {
                NavigationView { cursor: Some(width_offset(display_width(u))), ..v }
            } else if key.char == 0x13 {
                NavigationView {
                    cursor: Some(min_usize((c + 1) as usize, width_offset(display_width(u)))),
                    ..v
                }
            } else if key.char == 0x14 {
                NavigationView { cursor: Some(if c > 0 { (c - 1) as usize } else { 0 }), ..v }
            } else if key.char == 0x7f {
                if c > 0 {
                    NavigationView {
                        url: Some(removed(u, c - 1)),
                        cursor: Some((c - 1) as usize),
                        ..v
                    }
                } else {
                    v
                }
            } else {
                let typed = inserted(u, c as int, key.char as char);
                NavigationView {
                    url: Some(typed),
                    cursor: Some(min_usize((c + 1) as usize, width_offset(display_width(typed)))),
                    ..v
                }
            },
        },
    }
}

/// A key that the bar types into the url rather than acting on.
pub open spec fn types_char(key: Key) -> bool {
    key.char != 0x0d && key.char != 0x11 && key.char != 0x12 && key.char != 0x13 && key.char
        != 0x14 && key.char != 0x7f
}

/// Typing a character and then pressing Backspace gives the bar back as it
/// was: for a cursor on a character boundary of the url, whenever the
/// cursor moves past the typed character (the typed url is wider than the
/// cursor's offset).
pub proof fn lemma_type_then_backspace(v: NavigationView, key: Key, backspace: Key)
    requires
        v.cursor matches Some(c) && c < usize::MAX,
        v.url matches Some(u) && is_char_boundary(encode_utf8(u), v.cursor->0 as int),
        types_char(key),
        backspace.char == 0x7f,
    ensures
        keypress_allowed(v, key),
        ({
            let c = v.cursor->0;
            let typed = keypress_state(v, key);
            c < width_offset(display_width(inserted(v.url->0, c as int, key.char as char)))
                ==> keypress_allowed(typed, backspace) && keypress_state(typed, backspace) == v
        }),
{
    broadcast use vstd::utf8::encode_utf8_valid_utf8;

    let c = v.cursor->0;
    let u = v.url->0;
    let ch = key.char as char;
    let b = encode_utf8(u);
    let e = encode_utf8(seq![ch]);
    let p = b.subrange(0, c as int);
    let r = b.subrange(c as int, b.len() as int);
    let bytes = p + e + r;
    let t = inserted(u, c as int, ch);
    assert(t == decode_utf8(bytes));
    vstd::utf8::valid_utf8_split(b, c as int);
    vstd::utf8::valid_utf8_concat(p, e);
    vstd::utf8::valid_utf8_concat(p + e, r);
    assert(valid_utf8(bytes));
    vstd::utf8::decode_utf8_encode_utf8(bytes);
    assert(encode_utf8(t) == bytes);
    vstd::utf8::encode_utf8_first_scalar(seq![ch]);
    assert(seq![ch].drop_first() =~= Seq::<char>::empty());
    assert(e =~= vstd::utf8::encode_scalar(ch as u32)) by {
        reveal_with_fuel(encode_utf8, 2);
    }
    assert(length_of_first_scalar(e) == e.len());
    assert(e.len() > 0);
    assert(bytes[c as int] == e[0]);
    assert(!is_continuation_byte(e[0]));
    assert(c <= b.len()) by {
        if c > b.len() {
            assert(!is_char_boundary(b, c as int));
        }
    }
    assert(p.len() == c);
    vstd::utf8::is_char_boundary_iff_not_is_continuation_byte(bytes, c as int);
    let rest = bytes.subrange(c as int, bytes.len() as int);
    assert(rest =~= e + r);
    assert(length_of_first_scalar(rest) == length_of_first_scalar(e));
    assert(pop_first_scalar(rest) =~= r);
    assert(bytes.subrange(0, c as int) =~= p);
    assert(p + r =~= b);
    vstd::utf8::encode_utf8_decode_utf8(u);
    assert(removed(t, c as int) == u);
    let typed = keypress_state(v, key);
    if c < width_offset(display_width(t)) {
        assert(typed.cursor == Some((c + 1) as usize));
        assert(keypress_state(typed, backspace) =~= v);
    }
}

/// The arrow keys move the cursor in the url and change nothing else: Right
/// moves it one column on, but never past the url's display width (so a
/// cursor before the end moves to the next offset), and Left moves it one
/// column back, but not before the start. Neither asks anything of the
/// browser.
pub proof fn lemma_arrow_keys(v: NavigationView, key: Key)
    requires
        v.cursor matches Some(c) && c < usize::MAX,
        v.url matches Some(u) && display_width(u) <= usize::MAX,
        key.char == 0x13 || key.char == 0x14,
    ensures
        ({
            let c = v.cursor->0 as int;
            let w = display_width(v.url->0) as int;
            let after = keypress_state(v, key);
            &&& keypress_allowed(v, key)
            &&& keypress_action(v, key) == NavigationActionView::Ignore
            &&& after.url == v.url
            &&& after.size == v.size
            &&& after.can_go_back == v.can_go_back
            &&& after.can_go_forward == v.can_go_forward
            &&& after.cursor is Some
            &&& key.char == 0x13 ==> after.cursor->0 == (if c + 1 <= w {
                c + 1
            } else {
                w
            })
            &&& key.char == 0x13 && c < w ==> after.cursor == Some((c + 1) as usize)
            &&& key.char == 0x14 ==> after.cursor->0 == (if c > 0 {
                c - 1
            } else {
                0
            })
        }),
{
}

/// Up puts the cursor at the start of the url and Down at its display
/// width, changing nothing else and asking nothing of the browser; Return
/// leaves the bar as it is and asks to load the url.
pub proof fn lemma_up_down_return(v: NavigationView, key: Key)
    requires
        v.cursor is Some,
        v.url matches Some(u) && display_width(u) <= usize::MAX,
        key.char == 0x11 || key.char == 0x12 || key.char == 0x0d,
    ensures
        ({
            let u = v.url->0;
            let after = keypress_state(v, key);
            &&& keypress_allowed(v, key)
            &&& after.url == v.url
            &&& after.size == v.size
            &&& after.can_go_back == v.can_go_back
            &&& after.can_go_forward == v.can_go_forward
            &&& key.char == 0x11 ==> after.cursor == Some(0usize) && keypress_action(v, key)
                == NavigationActionView::Ignore
            &&& key.char == 0x12 ==> after.cursor is Some && after.cursor->0 == display_width(u)
                && keypress_action(v, key) == NavigationActionView::Ignore
            &&& key.char == 0x0d ==> after == v && keypress_action(v, key)
                == NavigationActionView::GoTo(u)
        }),
{
}

impl Navigation {
    /// An empty bar: no url, no cursor, both history buttons off.
    pub fn new() -> (n: Navigation)
        ensures
            n@ == (NavigationView {
                url: None,
                size: Size { width: 0, height: 0 },
                cursor: None,
                can_go_back: false,
                can_go_forward: false,
            }),
    {
        Navigation {
            url: None,
            size: Size::new(0, 0),
            cursor: None,
            can_go_back: false,
            can_go_forward: false,
        }
    }

    /// Handles a key press: with no cursor, alt+Left and alt+Right go back
    /// and forward and other keys go to the page; with a cursor the url is
    /// edited (see [`keypress_state`]) and Return asks to load it.
    pub fn keypress(&mut self, key: &Key) -> (action: NavigationAction)
        requires
            keypress_allowed(old(self)@, *key),
        ensures
            action@ == keypress_action(old(self)@, *key),
            final(self)@ == keypress_state(old(self)@, *key),
    {
        match self.cursor {
            None => {
                if key.alt && key.char == 0x14 {
                    NavigationAction::GoBack()
                } else if key.alt && key.char == 0x13 {
                    NavigationAction::GoForward()
                } else {
                    NavigationAction::Forward
                }
            },
            Some(cursor) => {
                let mut taken: Option<String> = None;
                std::mem::swap(&mut taken, &mut self.url);
                match taken {
                    None => NavigationAction::Forward,
                    Some(mut url) => {
                        let ghost u = url@;
                        if key.char == 0x0d {
                            let target = url.clone();
                            self.url = Some(url);
                            return NavigationAction::GoTo(target);
                        } else if key.char == 0x11 {
                            self.cursor = Some(0);
                        } else if key.char == 0x12 {
                            self.cursor = Some(str_width(url.as_str()));
                        } else if key.char == 0x13 {
                            let w = str_width(url.as_str());
                            self.cursor = Some(
                                if cursor + 1 <= w {
                                    cursor + 1
                                } else {
                                    w
                                },
                            );
                        } else if key.char == 0x14 {
                            self.cursor = Some(
                                if cursor > 0 {
                                    cursor - 1
                                } else {
                                    0
                                },
                            );
                        } else if key.char == 0x7f {
                            if cursor > 0 {
                                string_remove(&mut url, cursor - 1);
                                proof {
                                    vstd::utf8::encode_utf8_decode_utf8(url@);
                                }
                                self.cursor = Some(cursor - 1);
                            }
                        } else {
                            string_insert(&mut url, cursor, key.char as char);
                            proof {
                                vstd::utf8::encode_utf8_decode_utf8(url@);
                            }
                            let w = str_width(url.as_str());
                            self.cursor = Some(
                                if cursor + 1 <= w {
                                    cursor + 1
                                } else {
                                    w
                                },
                            );
                        }
                        self.url = Some(url);
                        NavigationAction::Ignore
                    },
                }
            },
        }
    }

    /// Whether a key press can be handled (see [`keypress_allowed`]).
    pub fn accepts_key(&self, key: &Key) -> (b: bool)
        ensures
            b == keypress_allowed(self@, *key),
    {
        match self.cursor {
            None => true,
            Some(c) => match &self.url {
                None => true,
                Some(url) => {
                    let url = url.as_str();
                    let len = url.as_bytes().len();
                    if key.char == 0x0d || key.char == 0x11 || key.char == 0x12 || key.char
                        == 0x14 {
                        true
                    } else if key.char == 0x13 {
                        c < usize::MAX
                    } else if key.char == 0x7f {
                        c == 0 || (c - 1 < len && url.is_char_boundary(c - 1))
                    } else {
                        c < usize::MAX && url.is_char_boundary(c)
                    }
                },
            },
        }
    }

    /// The url being shown, or `about:blank` when there is none.
    pub fn display_url(&self) -> (s: &str)
        ensures
            s@ == shown_url(self@),
    {
        match &self.url {
            None => {
                let blank = "about:blank";
                proof {
                    reveal_strlit("about:blank");
                }
                blank
            },
            Some(url) => url.as_str(),
        }
    }

    /// The display width of the shown url.
    pub fn url_size(&self) -> (w: usize)
        ensures
            w as nat == display_width(shown_url(self@)),
    {
        str_width(self.display_url())
    }

    /// A button release: outside the bar's row it drops the cursor and goes
    /// to the page.
    pub fn mouse_up(&mut self, origin: Point) -> (action: NavigationAction)
        ensures
            origin.y != 0 ==> action@ == NavigationActionView::Forward && final(self)@ == (
            NavigationView { cursor: None, ..old(self)@ }),
            origin.y == 0 ==> action@ == NavigationActionView::Ignore && final(self)@ == old(
                self,
            )@,
    {
        if origin.y != 0 {
            self.cursor = None;
            NavigationAction::Forward
        } else {
            NavigationAction::Ignore
        }
    }

    /// A button press: it always drops the cursor; in the bar's row the
    /// buttons go back, forward or refresh, and a press on the url puts the
    /// cursor there (no further than the url's width).
    pub fn mouse_down(&mut self, origin: Point) -> (action: NavigationAction)
        ensures
            action@ == mouse_down_action(origin),
            final(self)@ == (NavigationView {
                cursor: mouse_down_cursor(old(self)@, origin),
                ..old(self)@
            }),
    {
        if origin.y != 0 {
            self.cursor = None;
            return NavigationAction::Forward;
        }
        self.cursor = None;
        if 0 <= origin.x && origin.x <= 2 {
            NavigationAction::GoBack()
        } else if 3 <= origin.x && origin.x <= 5 {
            NavigationAction::GoForward()
        } else if 6 <= origin.x && origin.x <= 8 {
            NavigationAction::Refresh()
        } else if origin.x >= 11 {
            let size = self.url_size();
            let at = origin.x as usize - 11;
            self.cursor = Some(
                if size <= at {
                    size
                } else {
                    at
                },
            );
            NavigationAction::Ignore
        } else {
            NavigationAction::Ignore
        }
    }

    /// Pointer motion always goes to the page.
    pub fn mouse_move(&mut self, origin: Point) -> (action: NavigationAction)
        ensures
            action@ == NavigationActionView::Forward,
            final(self)@ == old(self)@,
    {
        NavigationAction::Forward
    }

    /// Records the page's url and history state. A cursor is kept, moved to
    /// the url's end (in bytes) when the url differs from the one shown.
    pub fn push(&mut self, url: &str, can_go_back: bool, can_go_forward: bool)
        ensures
            final(self)@ == (NavigationView {
                url: Some(url@),
                cursor: if pushed_moves_cursor(old(self)@, url@) {
                    Some(encode_utf8(url@).len() as usize)
                } else {
                    old(self)@.cursor
                },
                can_go_back,
                can_go_forward,
                ..old(self)@
            }),
    {
        let moves = match self.cursor {
            None => false,
            Some(_) => match &self.url {
                None => true,
                Some(current) => !str_equal(current.as_str(), url),
            },
        };
        if moves {
            self.cursor = Some(url.len());
        }
        self.url = Some(url.to_owned());
        self.can_go_back = can_go_back;
        self.can_go_forward = can_go_forward;
    }

    /// Records the window size.
    pub fn set_size(&mut self, size: Size)
        ensures
            final(self)@ == (NavigationView { size, ..old(self)@ }),
    {
        self.size = size;
    }

    /// Where the text cursor is drawn: after the eleven columns of buttons.
    pub fn cursor(&self) -> (p: Option<Point>)
        requires
            self@.cursor matches Some(c) ==> 11 + (c as i32) <= i32::MAX,
        ensures
            p == cursor_point(self@),
    {
        match self.cursor {
            None => None,
            Some(c) => Some(Point::new(11 + c as i32, 0)),
        }
    }
}

/// Where the text cursor is drawn: column 11 plus its offset, on the bar's
/// row; nowhere when the url is not being edited.
pub open spec fn cursor_point(v: NavigationView) -> Option<Point> {
    match v.cursor {
        None => None,
        Some(c) => Some(Point { x: (11 + (c as i32)) as i32, y: 0 }),
    }
}

/// What a button press asks of the browser.
pub open spec fn mouse_down_action(origin: Point) -> NavigationActionView {
    if origin.y != 0 {
        NavigationActionView::Forward
    } else if 0 <= origin.x <= 2 {
        NavigationActionView::GoBack
    } else if 3 <= origin.x <= 5 {
        NavigationActionView::GoForward
    } else if 6 <= origin.x <= 8 {
        NavigationActionView::Refresh
    } else {
        NavigationActionView::Ignore
    }
}

/// The cursor after a button press.
pub open spec fn mouse_down_cursor(v: NavigationView, origin: Point) -> Option<usize> {
    if origin.y == 0 && origin.x >= 11 {
        Some(min_usize(width_offset(display_width(shown_url(v))), (origin.x - 11) as usize))
    } else {
        None
    }
}

/// Whether recording `url` moves a cursor to the url's end.
pub open spec fn pushed_moves_cursor(v: NavigationView, url: Seq<char>) -> bool {
    match v.cursor {
        None => false,
        Some(_) => match v.url {
            None => true,
            Some(current) => current != url,
        },
    }
}


/// The three elements of a button: its icon between brackets, all on white;
/// the brackets in black, the icon in black when enabled and gray when not.
pub open spec fn button(icon: Seq<char>, enabled: bool) -> Seq<ElementView> {
    seq![
        ElementView { text: seq!['['], background: Color { r: 255, g: 255, b: 255 }, foreground: Color { r: 0, g: 0, b: 0 } },
        ElementView {
            text: icon,
            background: Color { r: 255, g: 255, b: 255 },
            foreground: if enabled { Color { r: 0, g: 0, b: 0 } } else { Color { r: 200, g: 200, b: 200 } },
        },
        ElementView { text: seq![']'], background: Color { r: 255, g: 255, b: 255 }, foreground: Color { r: 0, g: 0, b: 0 } },
    ]
}

/// The columns left for the url in a bar of the given size.
pub open spec fn url_space(size: Size) -> int {
    size.width - 13
}

/// The first characters of the shown url that the bar has room for.
pub open spec fn shown_prefix(v: NavigationView, size: Size) -> Seq<char> {
    let u = shown_url(v);
    if url_space(size) < u.len() {
        u.take(url_space(size))
    } else {
        u
    }
}

/// The url field's text: the url's prefix between two blanks, padded with
/// blanks to the room it has.
pub open spec fn padded_url(v: NavigationView, size: Size) -> Seq<char> {
    let p = shown_prefix(v, size);
    seq![' '] + p + Seq::new((url_space(size) - display_width(p)) as nat, |i: int| ' ') + seq![' ']
}

/// The bar's twelve elements, left to right: back, forward and refresh
/// buttons, then the url field.
pub open spec fn bar_elements(v: NavigationView, size: Size) -> Seq<ElementView> {
    button(seq!['\u{276e}'], v.can_go_back) + button(seq!['\u{276f}'], v.can_go_forward) + button(
        seq!['\u{21bb}'],
        true,
    ) + button(padded_url(v, size), true)
}

/// The column at which element `k` starts: the display widths of the
/// elements before it, added up.
pub open spec fn column_of(es: Seq<ElementView>, k: int) -> int
    decreases k,
{
    if k <= 0 {
        0
    } else {
        column_of(es, k - 1) + display_width(es[k - 1].text)
    }
}

/// The sizes for which the bar can be laid out: at least thirteen columns,
/// the url's prefix no wider than its room, and every column an `i32`.
pub open spec fn render_fits(v: NavigationView, size: Size) -> bool {
    &&& size.width >= 13
    &&& display_width(shown_prefix(v, size)) <= url_space(size)
    &&& column_of(bar_elements(v, size), 12) <= i32::MAX
}

/// Columns only grow from left to right.
proof fn lemma_column_monotonic(es: Seq<ElementView>, i: int, j: int)
    requires
        0 <= i <= j,
    ensures
        column_of(es, i) <= column_of(es, j),
    decreases j,
{
    if i < j {
        lemma_column_monotonic(es, i, j - 1);
    }
}

/// The abstract values of a list of elements.
pub open spec fn element_views(es: Seq<NavigationElement>) -> Seq<ElementView> {
    es.map_values(|e: NavigationElement| e@)
}

/// Whether every column of `es` fits in an `i32`.
fn columns_fit(es: &Vec<NavigationElement>) -> (b: bool)
    ensures
        b == (column_of(element_views(es@), es@.len() as int) <= i32::MAX),
{
    let ghost views = element_views(es@);
    let mut total: usize = 0;
    let mut i: usize = 0;
    while i < es.len()
        invariant
            i <= es.len(),
            views == element_views(es@),
            total == column_of(views, i as int),
            total <= i32::MAX,
        decreases es.len() - i,
    {
        let w = str_width(es[i].text.as_str());
        assert(views[i as int].text == es@[i as int].text@);
        if w > 0x7fff_ffff - total {
            proof {
                lemma_column_monotonic(views, (i + 1) as int, es@.len() as int);
            }
            return false;
        }
        total = total + w;
        i = i + 1;
    }
    true
}

/// Gives each element its position: row 0, at its column.
fn place(es: Vec<NavigationElement>) -> (r: Vec<(Point, NavigationElement)>)
    requires
        column_of(element_views(es@), es@.len() as int) <= i32::MAX,
    ensures
        r@.len() == es@.len(),
        forall|k: int|
            0 <= k < r@.len() ==> (#[trigger] r@[k]).0 == (Point {
                x: column_of(element_views(es@), k) as i32,
                y: 0,
            }) && r@[k].1@ == element_views(es@)[k],
{
    let ghost views = element_views(es@);
    let ghost n = es@.len() as int;
    let mut rest = es;
    let mut r: Vec<(Point, NavigationElement)> = Vec::new();
    let mut point = Point::splat(0);
    while rest.len() > 0
        invariant
            r@.len() + rest@.len() == n,
            views.len() == n,
            column_of(views, n) <= i32::MAX,
            forall|j: int| 0 <= j < rest@.len() ==> #[trigger] rest@[j]@ == views[r@.len() + j],
            point == (Point { x: column_of(views, r@.len() as int) as i32, y: 0 }),
            forall|k: int|
                0 <= k < r@.len() ==> (#[trigger] r@[k]).0 == (Point {
                    x: column_of(views, k) as i32,
                    y: 0,
                }) && r@[k].1@ == views[k],
        decreases rest@.len(),
    {
        let ghost k = r@.len() as int;
        proof {
            lemma_column_monotonic(views, k + 1, n);
            lemma_column_monotonic(views, k, n);
        }
        assert(rest@[0]@ == views[k]);
        let ghost before = rest@;
        let e = rest.remove(0);
        let w = str_width(e.text.as_str());
        assert(column_of(views, k + 1) == column_of(views, k) + w);
        assert(0 <= column_of(views, k)) by {
            lemma_column_monotonic(views, 0, k);
        }
        let next = Point::new(point.x + w as i32, 0);
        r.push((point, e));
        point = next;
        assert forall|j: int| 0 <= j < rest@.len() implies #[trigger] rest@[j]@ == views[r@.len()
            + j] by {
            assert(rest@[j] == before[j + 1]);
        }
    }
    r
}


/// The three elements of a button for `icon`, as separate values.
fn button_parts(icon: &str, enabled: bool) -> (r: (NavigationElement, NavigationElement, NavigationElement))
    ensures
        r.0@ == button(icon@, enabled)[0],
        r.1@ == button(icon@, enabled)[1],
        r.2@ == button(icon@, enabled)[2],
{
    let background = Color::splat(255);
    let foreground = Color::splat(0);
    let open = "[";
    let close = "]";
    proof {
        reveal_strlit("[");
        reveal_strlit("]");
        assert(open@ =~= seq!['[']);
        assert(close@ =~= seq![']']);
    }
    (
        NavigationElement { text: open.to_owned(), background, foreground },
        NavigationElement {
            text: icon.to_owned(),
            background,
            foreground: if enabled {
                foreground
            } else {
                Color::splat(200)
            },
        },
        NavigationElement { text: close.to_owned(), background, foreground },
    )
}

impl Navigation {
    /// The three elements of a button for `icon`.
    pub fn render_btn(&self, icon: &str, enabled: bool) -> (r: [NavigationElement; 3])
        ensures
            forall|i: int| 0 <= i < 3 ==> #[trigger] r@[i]@ == button(icon@, enabled)[i],
    {
        let (open, shown, close) = button_parts(icon, enabled);
        [open, shown, close]
    }

    /// The first characters of the shown url that fit in the bar.
    fn prefix(&self, size: Size) -> (p: &str)
        requires
            size.width >= 13,
        ensures
            p@ == shown_prefix(self@, size),
    {
        let shown = self.display_url();
        let n = shown.unicode_len();
        let space = (size.width - 13) as usize;
        let take = if space < n {
            space
        } else {
            n
        };
        let p = shown.substring_char(0, take);
        assert(shown@.subrange(0, n as int) =~= shown@);
        p
    }

    /// The url field's text for a bar of the given size.
    fn padded(&self, size: Size) -> (t: String)
        requires
            size.width >= 13,
            display_width(shown_prefix(self@, size)) <= url_space(size),
        ensures
            t@ == padded_url(self@, size),
    {
        let prefix = self.prefix(size);
        let width = str_width(prefix);
        let space = (size.width - 13) as usize;
        let blank = " ";
        proof {
            reveal_strlit(" ");
        }
        let mut t = String::from_str(blank);
        t.append(prefix);
        let ghost head = t@;
        let mut i: usize = 0;
        while i < space - width
            invariant
                i <= space - width,
                t@ == head + Seq::new(i as nat, |j: int| ' '),
                blank@ == seq![' '],
            decreases space - width - i,
        {
            t.append(blank);
            i = i + 1;
            assert(t@ =~= head + Seq::new(i as nat, |j: int| ' '));
        }
        t.append(blank);
        t
    }

    /// The bar's elements, left to right.
    fn elements(&self, size: Size) -> (es: Vec<NavigationElement>)
        requires
            size.width >= 13,
            display_width(shown_prefix(self@, size)) <= url_space(size),
        ensures
            element_views(es@) == bar_elements(self@, size),
    {
        let back = "\u{276e}";
        let forward = "\u{276f}";
        let refresh = "\u{21bb}";
        proof {
            reveal_strlit("\u{276e}");
            reveal_strlit("\u{276f}");
            reveal_strlit("\u{21bb}");
        }
        let padded = self.padded(size);
        let mut es: Vec<NavigationElement> = Vec::new();
        let ghost done: Seq<ElementView> = Seq::empty();
        let (a, b, c) = button_parts(back, self.can_go_back);
        es.push(a);
        es.push(b);
        es.push(c);
        proof {
            assert(element_views(es@) =~= done + button(back@, self@.can_go_back));
            done = done + button(back@, self@.can_go_back);
        }
        let (a, b, c) = button_parts(forward, self.can_go_forward);
        es.push(a);
        es.push(b);
        es.push(c);
        proof {
            assert(element_views(es@) =~= done + button(forward@, self@.can_go_forward));
            done = done + button(forward@, self@.can_go_forward);
        }
        let (a, b, c) = button_parts(refresh, true);
        es.push(a);
        es.push(b);
        es.push(c);
        proof {
            assert(element_views(es@) =~= done + button(refresh@, true));
            done = done + button(refresh@, true);
        }
        let (a, b, c) = button_parts(padded.as_str(), true);
        es.push(a);
        es.push(b);
        es.push(c);
        proof {
            assert(element_views(es@) =~= done + button(padded@, true));
            assert(back@ =~= seq!['\u{276e}']);
            assert(forward@ =~= seq!['\u{276f}']);
            assert(refresh@ =~= seq!['\u{21bb}']);
        }
        assert(element_views(es@) =~= bar_elements(self@, size));
        es
    }

    /// Lays the bar out: each element at row 0 and at its column.
    pub fn render(&self, size: Size) -> (r: Vec<(Point, NavigationElement)>)
        requires
            render_fits(self@, size),
        ensures
            r@.len() == 12,
            forall|k: int|
                0 <= k < 12 ==> (#[trigger] r@[k]).0 == (Point {
                    x: column_of(bar_elements(self@, size), k) as i32,
                    y: 0,
                }) && r@[k].1@ == bar_elements(self@, size)[k],
    {
        let es = self.elements(size);
        assert(es@.len() == element_views(es@).len());
        assert(bar_elements(self@, size).len() == 12);
        place(es)
    }

    /// [`Navigation::render`] where the bar can be laid out, `None` where it
    /// cannot (see [`render_fits`]).
    pub fn try_render(&self, size: Size) -> (r: Option<Vec<(Point, NavigationElement)>>)
        ensures
            r is Some <==> render_fits(self@, size),
            r matches Some(r) ==> r@.len() == 12 && forall|k: int|
                0 <= k < 12 ==> (#[trigger] r@[k]).0 == (Point {
                    x: column_of(bar_elements(self@, size), k) as i32,
                    y: 0,
                }) && r@[k].1@ == bar_elements(self@, size)[k],
    {
        if size.width < 13 {
            return None;
        }
        let width = str_width(self.prefix(size));
        if width > (size.width - 13) as usize {
            return None;
        }
        let es = self.elements(size);
        assert(es@.len() == element_views(es@).len());
        assert(bar_elements(self@, size).len() == 12);
        if !columns_fit(&es) {
            return None;
        }
        Some(self.render(size))
    }
}


/// The text cursor stands on the cell where the bar draws the url's
/// character under it: for a url of ASCII characters (so that the cursor's
/// byte offset `c` is the index of character `c`) and a cursor within the
/// shown part of the url, the url field (the eleventh element) holds
/// character `c` at its position `1 + c`, after a blank; and when the ten
/// elements before the field (the three buttons and the field's `[`) are
/// one column each, the field starts at column 10, so that character is
/// drawn at column `11 + c`, where [`Navigation::cursor`] puts the cursor.
pub proof fn lemma_cursor_on_url_character(v: NavigationView, size: Size)
    requires
        v.cursor matches Some(c) && c < shown_prefix(v, size).len() && 11 + c <= i32::MAX,
        vstd::utf8::is_ascii_chars(shown_url(v)),
        size.width >= 13,
        display_width(shown_prefix(v, size)) <= url_space(size),
    ensures
        ({
            let c = v.cursor->0 as int;
            let es = bar_elements(v, size);
            &&& encode_utf8(shown_url(v).take(c)).len() == c
            &&& es[10].text == padded_url(v, size)
            &&& padded_url(v, size)[1 + c] == shown_url(v)[c]
            &&& (forall|k: int| 0 <= k < 10 ==> display_width(#[trigger] es[k].text) == 1)
                ==> column_of(es, 10) == 10 && cursor_point(v) == Some(
                Point { x: (column_of(es, 10) + 1 + c) as i32, y: 0 },
            )
        }),
{
    let c = v.cursor->0 as int;
    let u = shown_url(v);
    let es = bar_elements(v, size);
    let p = shown_prefix(v, size);
    vstd::utf8::is_ascii_chars_concat(u, u.take(c), u.skip(c));
    assert(u =~= u.take(c) + u.skip(c));
    vstd::utf8::is_ascii_chars_encode_utf8(u.take(c));
    assert(es.len() == 12);
    assert(es[10] == button(padded_url(v, size), true)[1]);
    assert(p[c] == u[c]);
    let pad = padded_url(v, size);
    assert(pad[1 + c] == p[c]);
    if forall|k: int| 0 <= k < 10 ==> display_width(#[trigger] es[k].text) == 1 {
        reveal_with_fuel(column_of, 11);
        assert(display_width(es[0].text) == 1);
        assert(display_width(es[1].text) == 1);
        assert(display_width(es[2].text) == 1);
        assert(display_width(es[3].text) == 1);
        assert(display_width(es[4].text) == 1);
        assert(display_width(es[5].text) == 1);
        assert(display_width(es[6].text) == 1);
        assert(display_width(es[7].text) == 1);
        assert(display_width(es[8].text) == 1);
        assert(display_width(es[9].text) == 1);
        assert(column_of(es, 10) == 10);
    }
}

} // verus!
