use vstd::prelude::*;
use vstd::string::StringSliceAdditionalSpecFns;
use vstd::utf8::encode_utf8;

use super::cell::{Cell, CellView};
use crate::gfx::color::spec_avg_with;
use crate::gfx::{Color, Point};
use crate::terminal::output::xterm::xterm_code;
use crate::utils::text::{decimal, push_bytes, push_decimal, push_signed_decimal, signed_decimal, str_equal};

verus! {

/// The abstract state of a [`Painter`].
pub struct PainterState {
    pub buffer: Seq<u8>,
    pub cursor: Option<Point<u32>>,
    pub true_color: bool,
    pub background: Option<Color>,
    pub foreground: Option<Color>,
    pub background_code: Option<u8>,
    pub foreground_code: Option<u8>,
}

/// `ESC [`, the control sequence introducer.
pub open spec fn csi() -> Seq<u8> {
    seq![0x1bu8, 91u8]
}

/// `ESC [ ? 25 l ESC [ ? 12 l`: hide the cursor and stop its blinking.
pub open spec fn hide_cursor() -> Seq<u8> {
    csi() + seq![63u8, 50u8, 53u8, 108u8] + csi() + seq![63u8, 49u8, 50u8, 108u8]
}

/// `ESC [ ? 25 h ESC [ ? 12 h`: show the cursor and make it blink.
pub open spec fn show_cursor() -> Seq<u8> {
    csi() + seq![63u8, 50u8, 53u8, 104u8] + csi() + seq![63u8, 49u8, 50u8, 104u8]
}

/// `ESC [ row ; column H` with one-based coordinates.
pub open spec fn move_to(x: int, y: int) -> Seq<u8> {
    csi() + signed_decimal(y + 1) + seq![59u8] + signed_decimal(x + 1) + seq![72u8]
}

/// `ESC [ layer ; 2 ; r ; g ; b m`: a 24-bit color (`layer` 48 for the
/// background, 38 for the foreground).
pub open spec fn rgb_color(layer: nat, c: Color) -> Seq<u8> {
    csi() + decimal(layer) + seq![59u8, 50u8, 59u8] + decimal(c.r as nat) + seq![59u8] + decimal(
        c.g as nat,
    ) + seq![59u8] + decimal(c.b as nat) + seq![109u8]
}

/// `ESC [ layer ; 5 ; code m`: a color of the 256-color palette.
pub open spec fn palette_color(layer: nat, code: u8) -> Seq<u8> {
    csi() + decimal(layer) + seq![59u8, 53u8, 59u8] + decimal(code as nat) + seq![109u8]
}

/// The lower half block, `U+2584`, in UTF-8.
pub open spec fn lower_half_block() -> Seq<u8> {
    seq![0xe2u8, 0x96u8, 0x84u8]
}

/// Sets the background color unless it is already set.
pub open spec fn paint_background(s: PainterState, c: Color) -> PainterState {
    if s.background == Some(c) {
        s
    } else if s.true_color {
        PainterState { background: Some(c), buffer: s.buffer + rgb_color(48, c), ..s }
    } else if s.background_code == Some(xterm_code(c)) {
        PainterState { background: Some(c), ..s }
    } else {
        PainterState {
            background: Some(c),
            background_code: Some(xterm_code(c)),
            buffer: s.buffer + palette_color(48, xterm_code(c)),
            ..s
        }
    }
}

/// Sets the foreground color unless it is already set.
pub open spec fn paint_foreground(s: PainterState, c: Color) -> PainterState {
    if s.foreground == Some(c) {
        s
    } else if s.true_color {
        PainterState { foreground: Some(c), buffer: s.buffer + rgb_color(38, c), ..s }
    } else if s.foreground_code == Some(xterm_code(c)) {
        PainterState { foreground: Some(c), ..s }
    } else {
        PainterState {
            foreground: Some(c),
            foreground_code: Some(xterm_code(c)),
            buffer: s.buffer + palette_color(38, xterm_code(c)),
            ..s
        }
    }
}

/// The background under the text of a cell: the average of its four
/// quarters (top, top, bottom, bottom), taken left to right.
pub open spec fn text_background(c: CellView) -> Color {
    spec_avg_with(spec_avg_with(spec_avg_with(c.top, c.top), c.bottom), c.bottom)
}

/// What a cell shows: its bytes, background, foreground and width in
/// columns; nothing for the columns that continue a wide character.
pub open spec fn cell_glyph(c: CellView) -> Option<(Seq<u8>, Color, Color, u32)> {
    match c.grapheme {
        Some(g) => if g.index > 0 {
            None
        } else {
            Some((encode_utf8(g.char), text_background(c), g.color, g.width as u32))
        },
        None => Some((lower_half_block(), c.top, c.bottom, 1)),
    }
}

/// Whether a cell can be painted without the column arithmetic overflowing.
pub open spec fn paintable(c: CellView) -> bool {
    match cell_glyph(c) {
        Some((_, _, _, w)) => {
            &&& c.cursor.y < u32::MAX
            &&& c.cursor.x < u32::MAX
            &&& c.cursor.x + w <= u32::MAX
        },
        None => true,
    }
}

/// Whether a painter in state `s` can paint a cell: the column after its
/// glyph is a `u32`, and so are the one-based coordinates of a cursor move
/// when one is needed; a column that continues a wide character is skipped.
pub open spec fn paint_allowed(s: PainterState, c: CellView) -> bool {
    match cell_glyph(c) {
        Some((_, _, _, w)) => {
            &&& c.cursor.x + w <= u32::MAX
            &&& s.cursor != Some(c.cursor) ==> c.cursor.x < u32::MAX && c.cursor.y < u32::MAX
        },
        None => true,
    }
}

/// The painter after painting a cell.
pub open spec fn paint_spec(s: PainterState, c: CellView) -> PainterState {
    match cell_glyph(c) {
        None => s,
        Some((text, bg, fg, w)) => {
            let moved = if s.cursor == Some(c.cursor) {
                s
            } else {
                PainterState {
                    buffer: s.buffer + move_to(c.cursor.x as int, c.cursor.y as int),
                    ..s
                }
            };
            let placed = PainterState {
                cursor: Some(Point { x: (c.cursor.x + w) as u32, y: c.cursor.y }),
                ..moved
            };
            let colored = paint_foreground(paint_background(placed, bg), fg);
            PainterState { buffer: colored.buffer + text, ..colored }
        },
    }
}

/// Painting a cell right after the one before it on the same row, in the
/// same colors, writes only its characters: the cursor already stands
/// there and both colors are already set (for a first cell that paint can
/// take, its column plus width being a `u32`).
pub proof fn lemma_paint_next_cell(s: PainterState, first: CellView, second: CellView)
    requires
        paint_allowed(s, first),
        cell_glyph(first) matches Some((_, bg1, fg1, w1)) && cell_glyph(second) matches Some(
            (_, bg2, fg2, _),
        ) && bg1 == bg2 && fg1 == fg2 && second.cursor == (Point {
            x: (first.cursor.x + w1) as u32,
            y: first.cursor.y,
        }),
    ensures
        ({
            let (text, _, _, width) = cell_glyph(second)->Some_0;
            paint_spec(paint_spec(s, first), second) == (PainterState {
                buffer: paint_spec(s, first).buffer + text,
                cursor: Some(Point { x: (second.cursor.x + width) as u32, y: second.cursor.y }),
                ..paint_spec(s, first)
            })
        }),
{
}

/// Writer of the escape sequences that draw cells on a terminal; the bytes
/// are gathered and handed out a frame at a time.
pub struct Painter {
    buffer: Vec<u8>,
    cursor: Option<Point<u32>>,
    true_color: bool,
    background: Option<Color>,
    foreground: Option<Color>,
    background_code: Option<u8>,
    foreground_code: Option<u8>,
}

impl View for Painter {
    type V = PainterState;

    closed spec fn view(&self) -> PainterState {
        PainterState {
            buffer: self.buffer@,
            cursor: self.cursor,
            true_color: self.true_color,
            background: self.background,
            foreground: self.foreground,
            background_code: self.background_code,
            foreground_code: self.foreground_code,
        }
    }
}

/// Whether `COLORTERM` announces 24-bit colors.
pub open spec fn colorterm_true_color(colorterm: Seq<char>) -> bool {
    colorterm == seq!['t', 'r', 'u', 'e', 'c', 'o', 'l', 'o', 'r'] || colorterm == seq![
        '2',
        '4',
        'b',
        'i',
        't',
    ]
}

/// A painter that wrote nothing yet.
pub open spec fn fresh_painter(colorterm: Seq<char>) -> PainterState {
    PainterState {
        buffer: seq![],
        cursor: None,
        true_color: colorterm_true_color(colorterm),
        background: None,
        foreground: None,
        background_code: None,
        foreground_code: None,
    }
}

fn same_color(a: Option<Color>, b: Color) -> (r: bool)
    ensures
        r == (a == Some(b)),
{
    match a {
        Some(a) => a == b,
        None => false,
    }
}

fn same_code(a: Option<u8>, b: u8) -> (r: bool)
    ensures
        r == (a == Some(b)),
{
    match a {
        Some(a) => a == b,
        None => false,
    }
}

fn same_point(a: Option<Point<u32>>, b: Point<u32>) -> (r: bool)
    ensures
        r == (a == Some(b)),
{
    match a {
        Some(a) => a == b,
        None => false,
    }
}

fn push_csi(buf: &mut Vec<u8>)
    ensures
        final(buf)@ == old(buf)@ + csi(),
{
    buf.push(0x1b);
    buf.push(91);
    assert(buf@ =~= old(buf)@ + csi());
}

fn push_rgb(buf: &mut Vec<u8>, layer: u32, c: Color)
    ensures
        final(buf)@ == old(buf)@ + rgb_color(layer as nat, c),
{
    push_csi(buf);
    push_decimal(buf, layer);
    push_bytes(buf, &[59u8, 50u8, 59u8]);
    push_decimal(buf, c.r as u32);
    buf.push(59);
    push_decimal(buf, c.g as u32);
    buf.push(59);
    push_decimal(buf, c.b as u32);
    buf.push(109);
    assert(buf@ =~= old(buf)@ + rgb_color(layer as nat, c));
}

fn push_palette(buf: &mut Vec<u8>, layer: u32, code: u8)
    ensures
        final(buf)@ == old(buf)@ + palette_color(layer as nat, code),
{
    push_csi(buf);
    push_decimal(buf, layer);
    push_bytes(buf, &[59u8, 53u8, 59u8]);
    push_decimal(buf, code as u32);
    buf.push(109);
    assert(buf@ =~= old(buf)@ + palette_color(layer as nat, code));
}

fn push_move(buf: &mut Vec<u8>, x: i64, y: i64)
    requires
        -0x1_0000_0000 < x + 1 < 0x1_0000_0000,
        -0x1_0000_0000 < y + 1 < 0x1_0000_0000,
    ensures
        final(buf)@ == old(buf)@ + move_to(x as int, y as int),
{
    push_csi(buf);
    push_signed_decimal(buf, y + 1);
    buf.push(59);
    push_signed_decimal(buf, x + 1);
    buf.push(72);
    assert(buf@ =~= old(buf)@ + move_to(x as int, y as int));
}

impl Painter {
    /// A painter with nothing written yet; 24-bit colors are used when
    /// `colorterm` (the `COLORTERM` variable) is `truecolor` or `24bit`.
    pub fn new(colorterm: &str) -> (p: Painter)
        ensures
            p@ == fresh_painter(colorterm@),
    {
        let truecolor = "truecolor";
        let bit24 = "24bit";
        proof {
            reveal_strlit("truecolor");
            reveal_strlit("24bit");
            assert(truecolor@ =~= seq!['t', 'r', 'u', 'e', 'c', 'o', 'l', 'o', 'r']);
            assert(bit24@ =~= seq!['2', '4', 'b', 'i', 't']);
        }
        let true_color = str_equal(colorterm, truecolor) || str_equal(colorterm, bit24);
        let p = Painter {
            buffer: Vec::new(),
            cursor: None,
            background: None,
            foreground: None,
            background_code: None,
            foreground_code: None,
            true_color,
        };
        assert(p@.buffer =~= seq![]);
        p
    }

    pub fn true_color(&self) -> (b: bool)
        ensures
            b == self@.true_color,
    {
        self.true_color
    }

    pub fn set_true_color(&mut self, true_color: bool)
        ensures
            final(self)@ == (PainterState { true_color, ..old(self)@ }),
    {
        self.true_color = true_color
    }

    /// Starts a frame: hides the cursor.
    pub fn begin(&mut self)
        ensures
            final(self)@ == (PainterState { buffer: old(self)@.buffer + hide_cursor(), ..old(self)@ }),
    {
        push_csi(&mut self.buffer);
        push_bytes(&mut self.buffer, &[63u8, 50u8, 53u8, 108u8]);
        push_csi(&mut self.buffer);
        push_bytes(&mut self.buffer, &[63u8, 49u8, 50u8, 108u8]);
        assert(self.buffer@ =~= old(self)@.buffer + hide_cursor());
    }

    /// Ends a frame: shows the cursor at `cursor` if given, and hands out the
    /// frame's bytes to be written to the terminal.
    pub fn end(&mut self, cursor: Option<Point>) -> (frame: Vec<u8>)
        ensures
            frame@ == match cursor {
                Some(c) => old(self)@.buffer + move_to(c.x as int, c.y as int) + show_cursor(),
                None => old(self)@.buffer,
            },
            final(self)@ == (PainterState { buffer: seq![], cursor: None, ..old(self)@ }),
    {
        if let Some(cursor) = cursor {
            push_move(&mut self.buffer, cursor.x as i64, cursor.y as i64);
            push_csi(&mut self.buffer);
            push_bytes(&mut self.buffer, &[63u8, 50u8, 53u8, 104u8]);
            push_csi(&mut self.buffer);
            push_bytes(&mut self.buffer, &[63u8, 49u8, 50u8, 104u8]);
            assert(self.buffer@ =~= old(self)@.buffer + move_to(cursor.x as int, cursor.y as int)
                + show_cursor());
        }
        let frame = self.flush();
        self.cursor = None;
        frame
    }

    /// Hands out the bytes written so far.
    pub fn flush(&mut self) -> (bytes: Vec<u8>)
        ensures
            bytes@ == old(self)@.buffer,
            final(self)@ == (PainterState { buffer: seq![], ..old(self)@ }),
    {
        let mut bytes: Vec<u8> = Vec::new();
        std::mem::swap(&mut bytes, &mut self.buffer);
        bytes
    }

    fn set_background(&mut self, background: Color)
        ensures
            final(self)@ == paint_background(old(self)@, background),
    {
        if !same_color(self.background, background) {
            self.background = Some(background);
            if self.true_color {
                push_rgb(&mut self.buffer, 48, background);
            } else {
                let code = background.to_xterm();
                if !same_code(self.background_code, code) {
                    self.background_code = Some(code);
                    push_palette(&mut self.buffer, 48, code);
                }
            }
        }
    }

    fn set_foreground(&mut self, foreground: Color)
        ensures
            final(self)@ == paint_foreground(old(self)@, foreground),
    {
        if !same_color(self.foreground, foreground) {
            self.foreground = Some(foreground);
            if self.true_color {
                push_rgb(&mut self.buffer, 38, foreground);
            } else {
                let code = foreground.to_xterm();
                if !same_code(self.foreground_code, code) {
                    self.foreground_code = Some(code);
                    push_palette(&mut self.buffer, 38, code);
                }
            }
        }
    }

    /// Writes what it takes to show `cell`: a cursor move when the cursor is
    /// elsewhere, the colors that changed, then the text, or the lower half
    /// block whose background is the top pixel and foreground the bottom one.
    pub fn paint(&mut self, cell: &Cell)
        requires
            paint_allowed(old(self)@, cell@),
        ensures
            final(self)@ == paint_spec(old(self)@, cell@),
    {
        let cursor = cell.cursor;
        let (background, foreground, width) = match &cell.grapheme {
            Some(grapheme) => {
                if grapheme.index > 0 {
                    return;
                }
                (
                    cell.top.avg_with(cell.top).avg_with(cell.bottom).avg_with(cell.bottom),
                    grapheme.color,
                    grapheme.width as u32,
                )
            },
            None => (cell.top, cell.bottom, 1u32),
        };
        if !same_point(self.cursor, cursor) {
            push_move(&mut self.buffer, cursor.x as i64, cursor.y as i64);
        }
        self.cursor = Some(Point::new(cursor.x + width, cursor.y));
        self.set_background(background);
        self.set_foreground(foreground);
        match &cell.grapheme {
            Some(grapheme) => {
                push_bytes(&mut self.buffer, grapheme.char.as_str().as_bytes());
            },
            None => {
                push_bytes(&mut self.buffer, &[0xe2u8, 0x96u8, 0x84u8]);
            },
        }
    }
}

} // verus!
