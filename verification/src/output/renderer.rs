use std::rc::Rc;

use vstd::arithmetic::div_mod::lemma_fundamental_div_mod_converse;
use vstd::prelude::*;
use vstd::string::StringSliceAdditionalSpecFns;
use vstd::utf8::encode_utf8;

use super::cell::{blank_cell, grapheme_view, share, Cell, CellView, Grapheme, GraphemeView};
use super::painter::{fresh_painter, paint_spec, paintable, Painter, PainterState};
use crate::gfx::{Color, Point, Rect, Size};
use crate::utils::text::push_bytes;
use crate::utils::unicode::{display_width, grapheme_clusters, graphemes, str_width};

verus! {

struct Dimensions {
    /// Size of a terminal cell in pixels
    cell: Size,
    /// Size of the browser window in pixels
    browser: Size,
    /// Size of the terminal window in cells
    terminal: Size,
}

/// The abstract state of a [`Renderer`]: for each terminal cell, what was
/// last drawn and what should be drawn now.
pub struct RendererState {
    pub cells: Seq<(CellView, CellView)>,
    pub cell: Size,
    pub browser: Size,
    pub terminal: Size,
    pub painter: PainterState,
}

/// The cells, sizes and painter of a renderer.
struct Screen {
    cells: Vec<(Cell, Cell)>,
    dimensions: Dimensions,
    painter: Painter,
}

impl View for Screen {
    type V = RendererState;

    closed spec fn view(&self) -> RendererState {
        RendererState {
            cells: self.cells@.map_values(|c: (Cell, Cell)| (c.0@, c.1@)),
            cell: self.dimensions.cell,
            browser: self.dimensions.browser,
            terminal: self.dimensions.terminal,
            painter: self.painter@,
        }
    }
}

/// The cells after resizing to `size` cells on rows of `width`: the first
/// ones are kept, new ones are blank and numbered from the top left corner
/// again.
pub open spec fn resized_cells(cells: Seq<(CellView, CellView)>, size: nat, width: nat) -> Seq<
    (CellView, CellView),
> {
    Seq::new(
        size,
        |i: int|
            if i < cells.len() {
                cells[i]
            } else {
                let k = i - cells.len();
                (
                    blank_cell((k % width as int) as u32, (k / width as int) as u32),
                    blank_cell((k % width as int) as u32, (k / width as int) as u32),
                )
            },
    )
}

/// A cell that was drawn as `current` looks: it keeps its own position.
pub open spec fn synced(previous: CellView, current: CellView) -> CellView {
    CellView { top: current.top, bottom: current.bottom, grapheme: current.grapheme, ..previous }
}

/// Drawing the first `n` cells: each cell that differs from what was last
/// drawn is painted, and remembered as drawn.
pub open spec fn render_prefix(cells: Seq<(CellView, CellView)>, p: PainterState, n: nat) -> (
    Seq<(CellView, CellView)>,
    PainterState,
)
    decreases n,
{
    if n == 0 {
        (cells, p)
    } else {
        let (c, q) = render_prefix(cells, p, (n - 1) as nat);
        let (previous, current) = cells[n - 1];
        if previous == current {
            (c, q)
        } else {
            (c.update(n - 1, (synced(previous, current), current)), paint_spec(q, current))
        }
    }
}


/// Each cell was last drawn at the position where it is to be drawn now.
pub open spec fn positions_agree(cells: Seq<(CellView, CellView)>) -> bool {
    forall|i: int| 0 <= i < cells.len() ==> (#[trigger] cells[i]).0.cursor == cells[i].1.cursor
}

/// Drawing the first `n` cells leaves each of them drawn as it should look,
/// and the others as they were.
proof fn lemma_render_prefix_cells(cells: Seq<(CellView, CellView)>, p: PainterState, n: nat)
    requires
        positions_agree(cells),
        n <= cells.len(),
    ensures
        render_prefix(cells, p, n).0.len() == cells.len(),
        forall|i: int|
            0 <= i < n ==> (#[trigger] render_prefix(cells, p, n).0[i]).0
                == render_prefix(cells, p, n).0[i].1 && render_prefix(cells, p, n).0[i].1
                == cells[i].1,
        forall|i: int|
            n <= i < cells.len() ==> #[trigger] render_prefix(cells, p, n).0[i] == cells[i],
    decreases n,
{
    if n > 0 {
        lemma_render_prefix_cells(cells, p, (n - 1) as nat);
    }
}

/// Drawing cells that all look as they were last drawn paints nothing and
/// changes nothing: after [`Renderer::render`], which leaves every cell so,
/// a second render paints no cell.
pub proof fn lemma_render_prefix_settled(cells: Seq<(CellView, CellView)>, p: PainterState, n: nat)
    requires
        n <= cells.len(),
        forall|i: int| 0 <= i < cells.len() ==> (#[trigger] cells[i]).0 == cells[i].1,
    ensures
        render_prefix(cells, p, n) == (cells, p),
    decreases n,
{
    if n > 0 {
        lemma_render_prefix_settled(cells, p, (n - 1) as nat);
    }
}

/// Painting rows of a background keeps each cell's positions.
proof fn lemma_background_rows_positions(
    cells: Seq<(CellView, CellView)>,
    pixels: Seq<u8>,
    y0: int,
    n: nat,
    x0: int,
    w: int,
    vw: int,
)
    requires
        positions_agree(cells),
    ensures
        background_rows(cells, pixels, y0, n, x0, w, vw).len() == cells.len(),
        positions_agree(background_rows(cells, pixels, y0, n, x0, w, vw)),
    decreases n,
{
    if n > 0 {
        lemma_background_rows_positions(cells, pixels, y0, (n - 1) as nat, x0, w, vw);
    }
}

/// Every operation of a renderer keeps each cell last drawn where it is to
/// be drawn: resizing, drawing a background or text, clearing the text and
/// rendering (a new renderer has no cells).
pub proof fn lemma_positions_kept(
    cells: Seq<(CellView, CellView)>,
    size: nat,
    width: nat,
    pixels: Seq<u8>,
    rect: Rect,
    terminal: Size,
    text: Seq<char>,
    origin: Point,
    text_size: Size,
    color: Color,
    painter: PainterState,
)
    requires
        positions_agree(cells),
        width > 0,
    ensures
        positions_agree(resized_cells(cells, size, width)),
        positions_agree(background_cells(cells, pixels, rect, terminal)),
        positions_agree(text_cells(cells, text, origin, text_size, color, terminal)),
        positions_agree(
            cells.map_values(
                |c: (CellView, CellView)| (c.0, CellView { grapheme: None, ..c.1 }),
            ),
        ),
        positions_agree(render_prefix(cells, painter, cells.len()).0),
{
    let vw = terminal.width as int;
    let vh = terminal.height as int;
    if pixels.len() == vw * 4 * vh * 2 {
        let x0 = rect.origin.x as int;
        let y0 = rect.origin.y as int / 2;
        let w = rect.size.width as int;
        let h2 = rect.size.height as int / 2;
        lemma_background_rows_positions(cells, pixels, y0, h2 as nat, x0, w, vw);
    }
    lemma_render_prefix_cells(cells, painter, cells.len());
}

/// Rendering twice in a row: the second frame paints nothing and changes no
/// cell, whatever the painter's state (for cells each last drawn where
/// they are to be drawn, which a renderer's type invariant keeps).
pub proof fn lemma_render_twice(cells: Seq<(CellView, CellView)>, p: PainterState, q: PainterState)
    requires
        positions_agree(cells),
    ensures
        ({
            let drawn = render_prefix(cells, p, cells.len()).0;
            render_prefix(drawn, q, drawn.len()) == (drawn, q)
        }),
{
    let drawn = render_prefix(cells, p, cells.len()).0;
    lemma_render_prefix_cells(cells, p, cells.len());
    lemma_render_prefix_settled(drawn, q, drawn.len());
}

/// The RGBA pixel that starts at byte `i`.
pub open spec fn pixel_at(pixels: Seq<u8>, i: int) -> Color {
    Color { r: pixels[i], g: pixels[i + 1], b: pixels[i + 2] }
}

/// Reads one RGBA pixel from `bytes` starting at `*pos`: the position
/// advances by four, or to the end of the bytes, and the color is produced
/// when the red, green and blue bytes were all there.
fn read_rgba(bytes: &[u8], pos: &mut usize) -> (c: Option<Color>)
    requires
        *old(pos) <= bytes.len(),
    ensures
        *final(pos) == if *old(pos) + 4 <= bytes.len() {
            *old(pos) + 4
        } else {
            bytes.len() as int
        },
        c == if *old(pos) + 3 <= bytes.len() {
            Some(pixel_at(bytes@, *old(pos) as int))
        } else {
            None
        },
{
    // `Color::from_iter` takes the bytes as blue, green, red.
    match Color::from_iter(bytes, pos) {
        Some(c) => Some(Color::new(c.b, c.g, c.r)),
        None => None,
    }
}

/// Row `y` of cells, from column `x0` on and for `w` cells (or up to the
/// last cell), takes its top colors from pixel row `2y` and its bottom
/// colors from pixel row `2y + 1`; a row of pixels is `vw` pixels wide.
pub open spec fn background_row(
    cells: Seq<(CellView, CellView)>,
    pixels: Seq<u8>,
    y: int,
    x0: int,
    w: int,
    vw: int,
) -> Seq<(CellView, CellView)> {
    let start = y * vw + x0;
    let row = vw * 4;
    let left = x0 * 4 + y * 2 * row;
    Seq::new(
        cells.len(),
        |i: int|
            if start <= i < start + w {
                let t = i - start;
                (
                    cells[i].0,
                    CellView {
                        top: pixel_at(pixels, left + 4 * t),
                        bottom: pixel_at(pixels, left + row + 4 * t),
                        ..cells[i].1
                    },
                )
            } else {
                cells[i]
            },
    )
}

/// The rows `y0` to `y0 + n - 1` painted one after the other.
pub open spec fn background_rows(
    cells: Seq<(CellView, CellView)>,
    pixels: Seq<u8>,
    y0: int,
    n: nat,
    x0: int,
    w: int,
    vw: int,
) -> Seq<(CellView, CellView)>
    decreases n,
{
    if n == 0 {
        cells
    } else {
        background_row(
            background_rows(cells, pixels, y0, (n - 1) as nat, x0, w, vw),
            pixels,
            y0 + n - 1,
            x0,
            w,
            vw,
        )
    }
}

pub open spec fn cells_left_ok(y: int, vw: int, x0: int, cells: int) -> bool {
    y * vw + x0 <= cells
}

/// Whether `rect` (in pixels, two pixel rows per cell row) lies within a
/// buffer of `len` bytes and within the cells, so that drawing it indexes
/// nothing out of bounds.
pub open spec fn background_fits(rect: Rect, vw: int, len: int, cells: int) -> bool {
    let x0 = rect.origin.x as int;
    let y0 = rect.origin.y as int / 2;
    let w = rect.size.width as int;
    let h2 = rect.size.height as int / 2;
    let last = y0 + h2 - 1;
    &&& rect.origin.x >= 0
    &&& rect.origin.y >= 0
    &&& (x0 + w) * 4 <= usize::MAX
    &&& 2 * (y0 + h2) <= usize::MAX
    &&& h2 > 0 ==> x0 * 4 + w * 4 + (2 * last + 1) * (vw * 4) <= len && last * vw + x0 <= cells
}

/// What drawing a background does to the cells: nothing when the buffer
/// does not hold exactly two pixel rows per cell row, else the rows of the
/// rectangle are painted.
pub open spec fn background_cells(
    cells: Seq<(CellView, CellView)>,
    pixels: Seq<u8>,
    rect: Rect,
    terminal: Size,
) -> Seq<(CellView, CellView)> {
    let vw = terminal.width as int;
    let vh = terminal.height as int;
    if pixels.len() != vw * 4 * vh * 2 {
        cells
    } else {
        background_rows(
            cells,
            pixels,
            rect.origin.y as int / 2,
            (rect.size.height as int / 2) as nat,
            rect.origin.x as int,
            rect.size.width as int,
            vw,
        )
    }
}

/// `v / 2` rounded toward zero, as integer division does.
pub open spec fn half_toward_zero(v: int) -> int {
    if v >= 0 {
        v / 2
    } else {
        -((-v) / 2)
    }
}

pub open spec fn clamp(v: int, lo: int, hi: int) -> int {
    if v < lo {
        lo
    } else if v > hi {
        hi
    } else {
        v
    }
}

/// The left column of a text box, kept within the terminal.
pub open spec fn box_x(origin: Point, terminal: Size) -> int {
    clamp(origin.x as int, 0, terminal.width as int)
}

/// The top pixel row of a text box, kept within the terminal.
pub open spec fn box_y(origin: Point, terminal: Size) -> int {
    clamp(origin.y as int, 0, terminal.height as int * 2)
}

/// The first cell of pixel row `y` of a text box, or the end of the cells.
pub open spec fn box_row_start(x: int, y: int, vw: int, len: int) -> int {
    let index = x + y / 2 * vw;
    if len < index {
        len
    } else {
        index
    }
}

/// The cells past the last cell of pixel row `y` of a text box, or the end
/// of the cells.
pub open spec fn box_row_end(x: int, y: int, vw: int, len: int, w: int) -> int {
    let start = box_row_start(x, y, vw, len);
    if len < start + w {
        len
    } else {
        start + w
    }
}

/// Whether cell `i` lies under a text box of `size` pixels at `origin`.
pub open spec fn under_box(i: int, origin: Point, size: Size, terminal: Size, len: int) -> bool {
    let x = box_x(origin, terminal);
    let y0 = box_y(origin, terminal);
    let y_end = y0 + (size.height as i32) as int;
    exists|y: int|
        y0 <= y < y_end && #[trigger] box_row_start(x, y, terminal.width as int, len) <= i
            < box_row_end(x, y, terminal.width as int, len, size.width as int)
}

/// The columns that the clusters of a text take: each cluster, once per
/// column of its width, with the column's number within the cluster and
/// the cluster's width.
pub open spec fn text_slots(clusters: Seq<Seq<char>>) -> Seq<(Seq<char>, nat, nat)>
    decreases clusters.len(),
{
    if clusters.len() == 0 {
        seq![]
    } else {
        let c = clusters.last();
        let w = display_width(c);
        text_slots(clusters.drop_last()) + Seq::new(w, |j: int| (c, j as nat, w))
    }
}

/// The text of a cell after writing `slot` over it in `color`: unchanged
/// when it already shows the same characters in the same color.
pub open spec fn written(old: Option<GraphemeView>, slot: (Seq<char>, nat, nat), color: Color) -> Option<
    GraphemeView,
> {
    match old {
        Some(g) => if g.color == color && g.char == slot.0 {
            old
        } else {
            Some(
                GraphemeView {
                    char: slot.0,
                    index: slot.1 as usize,
                    width: slot.2 as usize,
                    color,
                },
            )
        },
        None => Some(
            GraphemeView { char: slot.0, index: slot.1 as usize, width: slot.2 as usize, color },
        ),
    }
}

/// The first cell that a line of text at `origin` starts on, or the end of
/// the cells.
pub open spec fn text_start(origin: Point, terminal: Size, len: int) -> int {
    let index = (origin.x + half_toward_zero(origin.y as int) * (terminal.width as i32)) as i32;
    if len < (index as usize) {
        len
    } else {
        index as usize as int
    }
}

/// What drawing `text` in `color` at `origin` with `size` does to the
/// cells: a box taller and wider than two pixels clears the text under it;
/// otherwise the text's clusters are written over the cells from its start
/// on, one column each, as far as the cells go.
pub open spec fn text_cells(
    cells: Seq<(CellView, CellView)>,
    text: Seq<char>,
    origin: Point,
    size: Size,
    color: Color,
    terminal: Size,
) -> Seq<(CellView, CellView)> {
    let len = cells.len() as int;
    if size.width > 2 && size.height > 2 {
        Seq::new(
            cells.len(),
            |i: int|
                if under_box(i, origin, size, terminal, len) {
                    (cells[i].0, CellView { grapheme: None, ..cells[i].1 })
                } else {
                    cells[i]
                },
        )
    } else {
        let p0 = text_start(origin, terminal, len);
        let slots = text_slots(grapheme_clusters(text));
        Seq::new(
            cells.len(),
            |i: int|
                if p0 <= i < p0 + slots.len() {
                    (
                        cells[i].0,
                        CellView {
                            grapheme: written(cells[i].1.grapheme, slots[i - p0], color),
                            ..cells[i].1
                        },
                    )
                } else {
                    cells[i]
                },
        )
    }
}

/// Whether the coordinate arithmetic of drawing text stays within `i32` and
/// `usize`.
pub open spec fn text_fits(origin: Point, size: Size, terminal: Size, len: int) -> bool {
    let vw = terminal.width as int;
    if size.width > 2 && size.height > 2 {
        let x = box_x(origin, terminal);
        let y0 = box_y(origin, terminal);
        let y_end = y0 + (size.height as i32) as int;
        &&& vw <= i32::MAX
        &&& terminal.height as int * 2 <= i32::MAX
        &&& y_end <= i32::MAX
        &&& x + (y_end / 2) * vw <= i32::MAX
        &&& len + size.width <= usize::MAX
    } else {
        &&& i32::MIN <= half_toward_zero(origin.y as int) * ((terminal.width as i32) as int) <= i32::MAX
        &&& i32::MIN <= origin.x + half_toward_zero(origin.y as int) * ((terminal.width as i32) as int)
            <= i32::MAX
    }
}

/// Whether cell `i` lies under one of the pixel rows `y0` to `y1 - 1` of a
/// text box.
pub open spec fn covered(i: int, x: int, y0: int, y1: int, vw: int, len: int, w: int) -> bool {
    exists|y: int|
        y0 <= y < y1 && #[trigger] box_row_start(x, y, vw, len) <= i < box_row_end(x, y, vw, len, w)
}

proof fn lemma_covered_step(i: int, x: int, y0: int, y1: int, vw: int, len: int, w: int)
    requires
        y0 <= y1,
    ensures
        covered(i, x, y0, y1 + 1, vw, len, w) == (covered(i, x, y0, y1, vw, len, w) || (
        box_row_start(x, y1, vw, len) <= i < box_row_end(x, y1, vw, len, w))),
{
    if covered(i, x, y0, y1 + 1, vw, len, w) {
        let y = choose|y: int|
            y0 <= y < y1 + 1 && #[trigger] box_row_start(x, y, vw, len) <= i < box_row_end(
                x,
                y,
                vw,
                len,
                w,
            );
        if y < y1 {
            assert(covered(i, x, y0, y1, vw, len, w));
        }
    }
    if covered(i, x, y0, y1, vw, len, w) {
        let y = choose|y: int|
            y0 <= y < y1 && #[trigger] box_row_start(x, y, vw, len) <= i < box_row_end(
                x,
                y,
                vw,
                len,
                w,
            );
        assert(y0 <= y < y1 + 1);
    }
    if box_row_start(x, y1, vw, len) <= i < box_row_end(x, y1, vw, len, w) {
        assert(y0 <= y1 < y1 + 1);
    }
}

/// The columns of the first `k` clusters come first among the columns of
/// all the clusters.
proof fn lemma_slots_prefix(cl: Seq<Seq<char>>, k: int)
    requires
        0 <= k <= cl.len(),
    ensures
        text_slots(cl.take(k)).len() <= text_slots(cl).len(),
        forall|i: int|
            0 <= i < text_slots(cl.take(k)).len() ==> #[trigger] text_slots(cl)[i] == text_slots(
                cl.take(k),
            )[i],
    decreases cl.len() - k,
{
    if k == cl.len() {
        assert(cl.take(k) =~= cl);
    } else {
        lemma_slots_prefix(cl, k + 1);
        assert(cl.take(k + 1).drop_last() =~= cl.take(k));
    }
}

/// A line of text lands on the cell row of half its pixel row: drawn at
/// `origin` within a terminal of `terminal.width` columns (a size not both
/// wider and taller than two pixels, so not a box), its first cluster is
/// written in `color` into the cell at index `x + (y / 2) * width`, which is
/// in range, and each further column of the text into the cells after it as
/// far as the cells go, while every other cell stays as it was; the cell
/// keeps its position, and on cells laid out row by row from the top left
/// corner that position is column `x` of row `y / 2`.
pub proof fn lemma_text_line_position(
    cells: Seq<(CellView, CellView)>,
    text: Seq<char>,
    origin: Point,
    size: Size,
    color: Color,
    terminal: Size,
)
    requires
        !(size.width > 2 && size.height > 2),
        0 <= origin.x < terminal.width,
        0 <= origin.y,
        origin.y / 2 < terminal.height,
        cells.len() == terminal.width * terminal.height,
        terminal.width * terminal.height <= i32::MAX,
        grapheme_clusters(text).len() > 0,
        display_width(grapheme_clusters(text)[0]) > 0,
    ensures
        ({
            let i = origin.x + (origin.y / 2) * terminal.width;
            let after = text_cells(cells, text, origin, size, color, terminal);
            &&& text_fits(origin, size, terminal, cells.len() as int)
            &&& 0 <= i < cells.len()
            &&& after.len() == cells.len()
            &&& after[i].0 == cells[i].0
            &&& after[i].1.cursor == cells[i].1.cursor
            &&& after[i].1.grapheme matches Some(g) && g.char == grapheme_clusters(text)[0]
                && g.color == color
            &&& forall|j: int|
                0 <= j < text_slots(grapheme_clusters(text)).len() && i + j < cells.len()
                    ==> ((#[trigger] after[i + j]).1.grapheme matches Some(g) && g.char
                    == text_slots(grapheme_clusters(text))[j].0 && g.color == color)
            &&& forall|k: int|
                0 <= k < cells.len() && !(i <= k < i + text_slots(grapheme_clusters(text)).len())
                    ==> #[trigger] after[k] == cells[k]
            &&& (forall|k: int|
                0 <= k < cells.len() ==> (#[trigger] cells[k]).1.cursor == Point {
                    x: (k % terminal.width as int) as u32,
                    y: (k / terminal.width as int) as u32,
                }) ==> after[i].1.cursor == Point {
                x: origin.x as u32,
                y: (origin.y / 2) as u32,
            }
        }),
{
    let w = terminal.width as int;
    let h = terminal.height as int;
    let x = origin.x as int;
    let r = origin.y as int / 2;
    let len = cells.len() as int;
    let i = x + r * w;
    assert(w <= i32::MAX && h >= 1) by (nonlinear_arith)
        requires
            0 <= x < w,
            0 <= r < h,
            w * h <= i32::MAX,
    ;
    assert(0 <= r * w <= (h - 1) * w) by (nonlinear_arith)
        requires
            0 <= r < h,
            w >= 1,
    ;
    assert((h - 1) * w + w == w * h) by (nonlinear_arith);
    assert(0 <= i < len);
    assert(half_toward_zero(origin.y as int) == r);
    assert((terminal.width as i32) as int == w);
    assert(i % w == x && i / w == r) by {
        lemma_fundamental_div_mod_converse(i, w, r, x);
    }
    let cl = grapheme_clusters(text);
    let first = cl.take(1);
    assert(first.drop_last().len() == 0);
    assert(text_slots(first.drop_last()) == Seq::<(Seq<char>, nat, nat)>::empty());
    assert(first.last() == cl[0]);
    lemma_slots_prefix(cl, 1);
    let slots = text_slots(cl);
    assert(text_slots(first).len() == display_width(cl[0]));
    assert(text_slots(first)[0] == (cl[0], 0nat, display_width(cl[0])));
    assert(slots[0] == (cl[0], 0nat, display_width(cl[0])));
    assert(text_start(origin, terminal, len) == i);
}

/// `ESC ] k ; title BEL`: sets title number `k - 48` (`0` both titles, `1`
/// the icon's, `2` the window's).
pub open spec fn title_sequence(k: u8, title: Seq<char>) -> Seq<u8> {
    seq![0x1bu8, 93u8, k, 59u8] + encode_utf8(title) + seq![7u8]
}

pub open spec fn all_paintable(cells: Seq<(CellView, CellView)>) -> bool {
    forall|i: int| 0 <= i < cells.len() ==> paintable(#[trigger] cells[i].1)
}

fn duplicate(c: &Cell) -> (d: Cell)
    ensures
        d@ == c@,
{
    Cell { top: c.top, bottom: c.bottom, cursor: c.cursor, grapheme: share(&c.grapheme) }
}

impl Screen {
    /// A renderer for a terminal of no cells yet; `colorterm` is the value of
    /// the `COLORTERM` variable.
    pub fn new(colorterm: &str) -> (r: Screen)
        ensures
            r@.cells == Seq::<(CellView, CellView)>::empty(),
            r@.cell == (Size { width: 7u32, height: 14u32 }),
            r@.browser == (Size { width: 0u32, height: 0u32 }),
            r@.terminal == (Size { width: 0u32, height: 0u32 }),
            r@.painter == fresh_painter(colorterm@),
    {
        let r = Screen {
            cells: Vec::new(),
            painter: Painter::new(colorterm),
            dimensions: Dimensions {
                cell: Size::new(7, 14),
                browser: Size::new(0, 0),
                terminal: Size::new(0, 0),
            },
        };
        assert(r@.cells =~= Seq::<(CellView, CellView)>::empty());
        r
    }

    pub fn enable_true_color(&mut self)
        ensures
            final(self)@ == (RendererState {
                painter: PainterState { true_color: true, ..old(self)@.painter },
                ..old(self)@
            }),
    {
        self.painter.set_true_color(true)
    }

    /// Sets the size of a cell in pixels and of the terminal in cells; the
    /// browser gets the product.
    pub fn set_size(&mut self, cell: Size, terminal: Size)
        requires
            terminal.width >= 1,
            terminal.width * terminal.height <= u32::MAX,
            cell.width * terminal.width <= u32::MAX,
            cell.height * terminal.height <= u32::MAX,
        ensures
            final(self)@ == (RendererState {
                cells: resized_cells(
                    old(self)@.cells,
                    (terminal.width * terminal.height) as nat,
                    terminal.width as nat,
                ),
                cell,
                terminal,
                browser: Size {
                    width: (cell.width * terminal.width) as u32,
                    height: (cell.height * terminal.height) as u32,
                },
                ..old(self)@
            }),
    {
        let size = (terminal.width * terminal.height) as usize;
        self.dimensions.cell = cell;
        self.dimensions.terminal = terminal;
        self.dimensions.browser = Size::new(cell.width * terminal.width, cell.height * terminal.height);
        let ghost old_cells = self@.cells;
        let ghost width = terminal.width as nat;
        let old_len = self.cells.len();
        if size <= old_len {
            self.cells.truncate(size);
            assert(self@.cells =~= resized_cells(old_cells, size as nat, width));
            return;
        }
        let mut x: u32 = 0;
        let mut y: u32 = 0;
        let bound = terminal.width - 1;
        while self.cells.len() < size
            invariant
                old_len <= self.cells.len() <= size,
                size == terminal.width * terminal.height,
                size <= u32::MAX,
                bound == terminal.width - 1,
                width == terminal.width,
                old_len == old_cells.len(),
                x < terminal.width,
                (self.cells.len() - old_len) == y * terminal.width + x,
                self@.cells =~= resized_cells(old_cells, size as nat, width).take(
                    self.cells.len() as int,
                ),
                self@.cell == cell,
                self@.terminal == terminal,
                self@.browser == (Size {
                    width: (cell.width * terminal.width) as u32,
                    height: (cell.height * terminal.height) as u32,
                }),
                self@.painter == old(self)@.painter,
            decreases size - self.cells.len(),
        {
            let ghost k = self.cells.len() - old_len;
            proof {
                lemma_fundamental_div_mod_converse(k, width as int, y as int, x as int);
                assert(y * terminal.width <= size) by (nonlinear_arith)
                    requires
                        y * terminal.width + x < size,
                        x >= 0,
                ;
            }
            let ghost before = self@.cells;
            self.cells.push((Cell::new(x, y), Cell::new(x, y)));
            assert(self@.cells =~= before.push((blank_cell(x, y), blank_cell(x, y))));
            if x < bound {
                x = x + 1;
            } else {
                x = 0;
                assert((y + 1) * terminal.width == y * terminal.width + terminal.width)
                    by (nonlinear_arith);
                assert(y + 1 <= u32::MAX) by (nonlinear_arith)
                    requires
                        (y + 1) * terminal.width <= size,
                        terminal.width >= 1,
                        size <= u32::MAX,
                ;
                y = y + 1;
            }
        }
        assert(self@.cells =~= resized_cells(old_cells, size as nat, width));
    }

    /// Draws the cells that changed since the last frame and hands out the
    /// bytes to write to the terminal.
    pub fn render(&mut self) -> (bytes: Vec<u8>)
        requires
            all_paintable(old(self)@.cells),
        ensures
            ({
                let (cells, painter) = render_prefix(
                    old(self)@.cells,
                    old(self)@.painter,
                    old(self)@.cells.len(),
                );
                &&& bytes@ == painter.buffer
                &&& final(self)@ == (RendererState {
                    cells,
                    painter: PainterState { buffer: seq![], ..painter },
                    ..old(self)@
                })
            }),
    {
        let ghost start = self@;
        let mut i: usize = 0;
        while i < self.cells.len()
            invariant
                i <= self.cells.len(),
                self.cells.len() == start.cells.len(),
                all_paintable(start.cells),
                (self@.cells, self@.painter) == render_prefix(
                    start.cells,
                    start.painter,
                    i as nat,
                ),
                forall|j: int| i <= j < start.cells.len() ==> #[trigger] self@.cells[j] == start.cells[j],
                self@.cell == start.cell,
                self@.terminal == start.terminal,
                self@.browser == start.browser,
            decreases self.cells.len() - i,
        {
            assert(self@.cells[i as int] == start.cells[i as int]);
            if !self.cells[i].1.same(&self.cells[i].0) {
                let current = duplicate(&self.cells[i].1);
                let previous = Cell {
                    top: current.top,
                    bottom: current.bottom,
                    cursor: self.cells[i].0.cursor,
                    grapheme: share(&current.grapheme),
                };
                assert(paintable(start.cells[i as int].1));
                self.painter.paint(&current);
                let ghost before = self@.cells;
                self.cells.set(i, (previous, current));
                assert(self@.cells =~= before.update(
                    i as int,
                    (synced(start.cells[i as int].0, start.cells[i as int].1), start.cells[i as int].1),
                ));
            }
            i = i + 1;
        }
        self.painter.flush()
    }

    /// Draws the background from a pixel array encoded in RGBA8888, two
    /// pixel rows per row of cells, then renders; nothing happens when the
    /// array does not cover the terminal exactly.
    pub fn draw_background(&mut self, pixels: &mut [u8], rect: Rect) -> (bytes: Vec<u8>)
        requires
            old(self)@.terminal.width * 4 <= usize::MAX,
            old(self)@.terminal.width * 4 * old(self)@.terminal.height * 2 <= usize::MAX,
            old(pixels)@.len() == old(self)@.terminal.width * 4 * old(self)@.terminal.height * 2
                ==> background_fits(
                rect,
                old(self)@.terminal.width as int,
                old(pixels)@.len() as int,
                old(self)@.cells.len() as int,
            ) && all_paintable(old(self)@.cells),
        ensures
            final(pixels)@ == old(pixels)@,
            ({
                let painted = background_cells(
                    old(self)@.cells,
                    old(pixels)@,
                    rect,
                    old(self)@.terminal,
                );
                let (cells, painter) = render_prefix(painted, old(self)@.painter, painted.len());
                if old(pixels)@.len() != old(self)@.terminal.width * 4 * old(self)@.terminal.height
                    * 2 {
                    bytes@ == Seq::<u8>::empty() && final(self)@ == old(self)@
                } else {
                    &&& bytes@ == painter.buffer
                    &&& final(self)@ == (RendererState {
                        cells,
                        painter: PainterState { buffer: seq![], ..painter },
                        ..old(self)@
                    })
                }
            }),
    {
        let vw = self.dimensions.terminal.width as usize;
        let vh = self.dimensions.terminal.height as usize;
        let pixels_row = vw * 4;
        if pixels.len() != pixels_row * vh * 2 {
            return Vec::new();
        }
        let x0 = rect.origin.x as usize;
        let y0 = (rect.origin.y as usize) / 2;
        let w = rect.size.width as usize;
        let h2 = (rect.size.height as usize) / 2;
        let pixels_left = x0 * 4;
        let pixels_width = w * 4;
        let ghost start = self@;
        let ghost px = pixels@;
        let mut y = y0;
        while y < y0 + h2
            invariant
                y0 <= y <= y0 + h2,
                y0 == rect.origin.y as int / 2,
                h2 == rect.size.height as int / 2,
                x0 == rect.origin.x as int,
                w == rect.size.width as int,
                vw == start.terminal.width,
                pixels_row == vw * 4,
                pixels_left == x0 * 4,
                pixels_width == w * 4,
                pixels@ == px,
                px.len() == vw * 4 * start.terminal.height * 2,
                background_fits(rect, vw as int, px.len() as int, start.cells.len() as int),
                self.cells.len() == start.cells.len(),
                self@.cells == background_rows(
                    start.cells,
                    px,
                    y0 as int,
                    (y - y0) as nat,
                    x0 as int,
                    w as int,
                    vw as int,
                ),
                all_paintable(self@.cells),
                self@.painter == start.painter,
                self@.cell == start.cell,
                self@.terminal == start.terminal,
                self@.browser == start.browser,
            decreases y0 + h2 - y,
        {
            proof {
                let last = y0 + h2 - 1;
                assert(y * 2 * pixels_row + pixels_row <= (2 * last + 1) * (vw * 4)) by (nonlinear_arith)
                    requires
                        y <= last,
                        pixels_row == vw * 4,
                ;
                assert(y * vw <= last * vw) by (nonlinear_arith)
                    requires
                        y <= last,
                ;
                assert(px.len() == pixels@.len());
                assert(pixels@.len() == pixels.len());
                assert(y * 2 * pixels_row == (y * 2) * pixels_row);
                assert((2 * last + 1) * (vw * 4) + x0 * 4 + w * 4 <= px.len());
                assert(y * 2 <= 2 * last);
                assert(y * 2 * pixels_row + pixels_row + x0 * 4 + w * 4 <= px.len());
                assert(cells_left_ok(y as int, vw as int, x0 as int, start.cells.len() as int)) by {
                    assert(last * vw + x0 <= start.cells.len());
                }
            }
            let left = pixels_left + y * 2 * pixels_row;
            let right = left + pixels_width;
            let top_row = &pixels[left..right];
            let bottom_row = &pixels[left + pixels_row..right + pixels_row];
            let cells_left = y * vw + x0;
            let ghost row_start = self@.cells;
            let mut tp: usize = 0;
            let mut bp: usize = 0;
            let mut k = cells_left;
            while k < self.cells.len()
                invariant_except_break
                    cells_left <= k <= self.cells.len(),
                    k - cells_left <= w,
                    tp == 4 * (k - cells_left),
                    bp == 4 * (k - cells_left),
                    right + pixels_row <= px.len(),
                    left == x0 * 4 + y * 2 * (vw * 4),
                    pixels_row == vw * 4,
                    cells_left == y * vw + x0,
                    w == rect.size.width as int,
                    top_row@.len() == w * 4,
                    bottom_row@.len() == w * 4,
                    top_row@ == px.subrange(left as int, right as int),
                    bottom_row@ == px.subrange(left + pixels_row, right + pixels_row),
                    right == left + w * 4,
                    self.cells.len() == row_start.len(),
                    forall|i: int|
                        0 <= i < row_start.len() ==> #[trigger] self@.cells[i] == if cells_left <= i < k {
                            background_row(row_start, px, y as int, x0 as int, w as int, vw as int)[i]
                        } else {
                            row_start[i]
                        },
                    all_paintable(self@.cells),
                    self@.painter == start.painter,
                    self@.cell == start.cell,
                    self@.terminal == start.terminal,
                    self@.browser == start.browser,
                ensures
                    self.cells.len() == row_start.len(),
                    forall|i: int|
                        0 <= i < row_start.len() ==> #[trigger] self@.cells[i] == background_row(
                            row_start,
                            px,
                            y as int,
                            x0 as int,
                            w as int,
                            vw as int,
                        )[i],
                    all_paintable(self@.cells),
                    self@.painter == start.painter,
                    self@.cell == start.cell,
                    self@.terminal == start.terminal,
                    self@.browser == start.browser,
                decreases self.cells.len() - k,
            {
                let top = read_rgba(top_row, &mut tp);
                let bottom = read_rgba(bottom_row, &mut bp);
                match (top, bottom) {
                    (Some(top), Some(bottom)) => {
                        let ghost t = k - cells_left;
                        proof {
                            assert(top_row@[4 * t] == px[left + 4 * t]);
                            assert(top_row@[4 * t + 1] == px[left + 4 * t + 1]);
                            assert(top_row@[4 * t + 2] == px[left + 4 * t + 2]);
                            assert(bottom_row@[4 * t] == px[left + pixels_row + 4 * t]);
                            assert(bottom_row@[4 * t + 1] == px[left + pixels_row + 4 * t + 1]);
                            assert(bottom_row@[4 * t + 2] == px[left + pixels_row + 4 * t + 2]);
                            assert(top == pixel_at(px, left + 4 * t));
                            assert(bottom == pixel_at(px, left + pixels_row + 4 * t));
                            assert(self@.cells[k as int] == row_start[k as int]);
                            assert(left == x0 * 4 + y * 2 * (vw * 4));
                        }
                        let c = &self.cells[k].1;
                        let current = Cell {
                            top,
                            bottom,
                            cursor: c.cursor,
                            grapheme: share(&c.grapheme),
                        };
                        let previous = duplicate(&self.cells[k].0);
                        let ghost before = self@.cells;
                        let ghost pair = (previous@, current@);
                        proof {
                            assert(paintable(before[k as int].1));
                            assert(pair.1.cursor == before[k as int].1.cursor);
                            assert(pair.1.grapheme == before[k as int].1.grapheme);
                            assert(paintable(pair.1));
                        }
                        self.cells.set(k, (previous, current));
                        assert(self@.cells =~= before.update(k as int, pair));
                    },
                    _ => {
                        break;
                    },
                }
                k = k + 1;
            }
            proof {
                assert(self@.cells =~= background_row(
                    row_start,
                    px,
                    y as int,
                    x0 as int,
                    w as int,
                    vw as int,
                ));
            }
            y = y + 1;
        }
        self.render()
    }

    /// The bytes that set the terminal's window and icon titles to `title`.
    pub fn set_title(&self, title: &str) -> (bytes: Vec<u8>)
        ensures
            bytes@ == title_sequence(48, title@) + title_sequence(49, title@) + title_sequence(
                50,
                title@,
            ),
    {
        let mut out: Vec<u8> = Vec::new();
        let text = title.as_bytes();
        let mut k: u8 = 48;
        while k <= 50
            invariant
                48 <= k <= 51,
                text@ == encode_utf8(title@),
                out@ == if k == 48 {
                    seq![]
                } else if k == 49 {
                    title_sequence(48, title@)
                } else if k == 50 {
                    title_sequence(48, title@) + title_sequence(49, title@)
                } else {
                    title_sequence(48, title@) + title_sequence(49, title@) + title_sequence(
                        50,
                        title@,
                    )
                },
            decreases 51 - k,
        {
            let ghost before = out@;
            out.push(0x1b);
            out.push(93);
            out.push(k);
            out.push(59);
            push_bytes(&mut out, text);
            out.push(7);
            assert(out@ =~= before + title_sequence(k, title@));
            k = k + 1;
        }
        out
    }

    /// Draws a line of text, or, for a box taller and wider than two
    /// pixels, clears the text under it.
    pub fn draw_text(&mut self, string: &str, origin: Point, size: Size, color: Color)
        requires
            text_fits(origin, size, old(self)@.terminal, old(self)@.cells.len() as int),
        ensures
            final(self)@ == (RendererState {
                cells: text_cells(
                    old(self)@.cells,
                    string@,
                    origin,
                    size,
                    color,
                    old(self)@.terminal,
                ),
                ..old(self)@
            }),
    {
        let len = self.cells.len();
        let vw = self.dimensions.terminal.width;
        let vh = self.dimensions.terminal.height;
        let ghost start = self@;
        if size.width > 2 && size.height > 2 {
            let x = if origin.x < 0 {
                0
            } else if origin.x > vw as i32 {
                vw as i32
            } else {
                origin.x
            };
            let y0 = if origin.y < 0 {
                0
            } else if origin.y > vh as i32 * 2 {
                vh as i32 * 2
            } else {
                origin.y
            };
            let y_end = y0 + size.height as i32;
            let ghost w = size.width as int;
            let mut y = y0;
            while y < y_end
                invariant
                    y0 <= y,
                    y0 < y_end ==> y <= y_end,
                    y0 >= y_end ==> y == y0,
                    x == box_x(origin, start.terminal),
                    y0 == box_y(origin, start.terminal),
                    y_end == y0 + (size.height as i32) as int,
                    w == size.width as int,
                    vw == start.terminal.width,
                    len == start.cells.len(),
                    text_fits(origin, size, start.terminal, len as int),
                    size.width > 2 && size.height > 2,
                    self.cells.len() == len,
                    forall|i: int|
                        0 <= i < len ==> #[trigger] self@.cells[i] == if covered(
                            i,
                            x as int,
                            y0 as int,
                            y as int,
                            vw as int,
                            len as int,
                            w,
                        ) {
                            (start.cells[i].0, CellView { grapheme: None, ..start.cells[i].1 })
                        } else {
                            start.cells[i]
                        },
                    self@.painter == start.painter,
                    self@.cell == start.cell,
                    self@.terminal == start.terminal,
                    self@.browser == start.browser,
                decreases y_end - y,
            {
                proof {
                    assert(y / 2 * vw <= y_end / 2 * vw) by (nonlinear_arith)
                        requires
                            0 <= y <= y_end,
                    ;
                }
                let index = x + y / 2 * (vw as i32);
                let row_start = if len < index as usize {
                    len
                } else {
                    index as usize
                };
                let row_end = if len < row_start + size.width as usize {
                    len
                } else {
                    row_start + size.width as usize
                };
                assert(row_start == box_row_start(x as int, y as int, vw as int, len as int));
                assert(row_end == box_row_end(x as int, y as int, vw as int, len as int, w));
                let ghost row_begin = self@.cells;
                let mut i = row_start;
                while i < row_end
                    invariant
                        row_start <= i <= row_end <= len,
                        self.cells.len() == len,
                        forall|j: int|
                            0 <= j < len ==> #[trigger] self@.cells[j] == if row_start <= j < i {
                                (row_begin[j].0, CellView { grapheme: None, ..row_begin[j].1 })
                            } else {
                                row_begin[j]
                            },
                        self@.painter == start.painter,
                        self@.cell == start.cell,
                        self@.terminal == start.terminal,
                        self@.browser == start.browser,
                    decreases row_end - i,
                {
                    assert(self@.cells[i as int] == row_begin[i as int]);
                    let previous = duplicate(&self.cells[i].0);
                    let c = &self.cells[i].1;
                    let current = Cell { top: c.top, bottom: c.bottom, cursor: c.cursor, grapheme: None };
                    let ghost before = self@.cells;
                    let ghost pair = (previous@, current@);
                    assert(pair == (row_begin[i as int].0, CellView { grapheme: None, ..row_begin[i as int].1 }));
                    self.cells.set(i, (previous, current));
                    assert(self@.cells =~= before.update(i as int, pair));
                    i = i + 1;
                }
                proof {
                    assert forall|j: int| 0 <= j < len implies #[trigger] self@.cells[j] == if covered(
                        j,
                        x as int,
                        y0 as int,
                        y + 1,
                        vw as int,
                        len as int,
                        w,
                    ) {
                        (start.cells[j].0, CellView { grapheme: None, ..start.cells[j].1 })
                    } else {
                        start.cells[j]
                    } by {
                        lemma_covered_step(j, x as int, y0 as int, y as int, vw as int, len as int, w);
                    }
                }
                y = y + 1;
            }
            proof {
                let tx = box_x(origin, start.terminal);
                let ty = box_y(origin, start.terminal);
                assert forall|i: int| 0 <= i < len implies covered(
                    i,
                    x as int,
                    y0 as int,
                    y as int,
                    vw as int,
                    len as int,
                    w,
                ) == under_box(i, origin, size, start.terminal, len as int) by {
                    if under_box(i, origin, size, start.terminal, len as int) {
                        let yy = choose|yy: int|
                            ty <= yy < ty + (size.height as i32) as int && #[trigger] box_row_start(
                                tx,
                                yy,
                                start.terminal.width as int,
                                len as int,
                            ) <= i < box_row_end(
                                tx,
                                yy,
                                start.terminal.width as int,
                                len as int,
                                size.width as int,
                            );
                        assert(y0 <= yy < y);
                    }
                    if covered(i, x as int, y0 as int, y as int, vw as int, len as int, w) {
                        let yy = choose|yy: int|
                            y0 <= yy < y && #[trigger] box_row_start(
                                x as int,
                                yy,
                                vw as int,
                                len as int,
                            ) <= i < box_row_end(x as int, yy, vw as int, len as int, w);
                        assert(ty <= yy < ty + (size.height as i32) as int);
                    }
                }
                assert(self@.cells =~= text_cells(start.cells, string@, origin, size, color, start.terminal));
            }
        } else {
            let index = origin.x + origin.y / 2 * (vw as i32);
            let p0 = if len < index as usize {
                len
            } else {
                index as usize
            };
            let clusters = graphemes(string);
            let ghost cl = grapheme_clusters(string@);
            let ghost slots = text_slots(cl);
            let mut pos = p0;
            let mut k: usize = 0;
            while k < clusters.len()
                invariant
                    k <= clusters@.len(),
                    clusters@.len() == cl.len(),
                    forall|m: int| 0 <= m < clusters@.len() ==> #[trigger] clusters@[m]@ == cl[m],
                    slots == text_slots(cl),
                    cl == grapheme_clusters(string@),
                    start == old(self)@,
                    p0 == text_start(origin, start.terminal, len as int),
                    p0 <= len,
                    pos == p0 + text_slots(cl.take(k as int)).len(),
                    pos <= len,
                    self.cells.len() == len,
                    len == start.cells.len(),
                    !(size.width > 2 && size.height > 2),
                    forall|i: int|
                        0 <= i < len ==> #[trigger] self@.cells[i] == if p0 <= i < pos {
                            (
                                start.cells[i].0,
                                CellView {
                                    grapheme: written(start.cells[i].1.grapheme, slots[i - p0], color),
                                    ..start.cells[i].1
                                },
                            )
                        } else {
                            start.cells[i]
                        },
                    self@.painter == start.painter,
                    self@.cell == start.cell,
                    self@.terminal == start.terminal,
                    self@.browser == start.browser,
                decreases clusters@.len() - k,
            {
                let g = &clusters[k];
                let width = str_width(g.as_str());
                proof {
                    assert(cl.take(k + 1).drop_last() =~= cl.take(k as int));
                    assert(cl.take(k + 1).last() == cl[k as int]);
                    lemma_slots_prefix(cl, k + 1);
                }
                let ghost base = pos;
                let mut j: usize = 0;
                while j < width
                    invariant
                        j <= width,
                        width == display_width(cl[k as int]),
                        g@ == cl[k as int],
                        k < cl.len(),
                        slots == text_slots(cl),
                        cl == grapheme_clusters(string@),
                        start == old(self)@,
                        base == p0 + text_slots(cl.take(k as int)).len(),
                        text_slots(cl.take(k + 1)) == text_slots(cl.take(k as int)) + Seq::new(
                            width as nat,
                            |jj: int| (cl[k as int], jj as nat, width as nat),
                        ),
                        text_slots(cl.take(k + 1)).len() <= slots.len(),
                        forall|i: int|
                            0 <= i < text_slots(cl.take(k + 1)).len() ==> #[trigger] slots[i]
                                == text_slots(cl.take(k + 1))[i],
                        p0 <= len,
                        pos == base + j,
                        pos <= len,
                        self.cells.len() == len,
                        len == start.cells.len(),
                        !(size.width > 2 && size.height > 2),
                        p0 == text_start(origin, start.terminal, len as int),
                        forall|i: int|
                            0 <= i < len ==> #[trigger] self@.cells[i] == if p0 <= i < pos {
                                (
                                    start.cells[i].0,
                                    CellView {
                                        grapheme: written(
                                            start.cells[i].1.grapheme,
                                            slots[i - p0],
                                            color,
                                        ),
                                        ..start.cells[i].1
                                    },
                                )
                            } else {
                                start.cells[i]
                            },
                        self@.painter == start.painter,
                        self@.cell == start.cell,
                        self@.terminal == start.terminal,
                        self@.browser == start.browser,
                    decreases width - j,
                {
                    if pos >= len {
                        proof {
                            assert(len - p0 <= slots.len());
                            assert(self@.cells =~= text_cells(
                                start.cells,
                                string@,
                                origin,
                                size,
                                color,
                                start.terminal,
                            ));
                        }
                        return;
                    }
                    proof {
                        assert(slots[pos - p0] == (cl[k as int], j as nat, width as nat));
                    }
                    let next = Grapheme { color, index: j, width, char: g.clone() };
                    let c = &self.cells[pos].1;
                    let keep = match &c.grapheme {
                        None => false,
                        Some(previous) => {
                            let previous: &Grapheme = &**previous;
                            previous.color == next.color && previous.char == next.char
                        },
                    };
                    let grapheme = if keep {
                        share(&c.grapheme)
                    } else {
                        Some(Rc::new(next))
                    };
                    let current = Cell { top: c.top, bottom: c.bottom, cursor: c.cursor, grapheme };
                    let previous = duplicate(&self.cells[pos].0);
                    let ghost before = self@.cells;
                    let ghost pair = (previous@, current@);
                    proof {
                        assert(before[pos as int] == start.cells[pos as int]);
                        assert(pair == (
                            start.cells[pos as int].0,
                            CellView {
                                grapheme: written(
                                    start.cells[pos as int].1.grapheme,
                                    slots[pos - p0],
                                    color,
                                ),
                                ..start.cells[pos as int].1
                            },
                        ));
                    }
                    self.cells.set(pos, (previous, current));
                    assert(self@.cells =~= before.update(pos as int, pair));
                    pos = pos + 1;
                    j = j + 1;
                }
                k = k + 1;
            }
            proof {
                assert(cl.take(cl.len() as int) =~= cl);
                assert(self@.cells =~= text_cells(start.cells, string@, origin, size, color, start.terminal));
            }
        }
    }

    /// Removes the text from every cell.
    pub fn clear_text(&mut self)
        ensures
            final(self)@ == (RendererState {
                cells: old(self)@.cells.map_values(
                    |c: (CellView, CellView)| (c.0, CellView { grapheme: None, ..c.1 }),
                ),
                ..old(self)@
            }),
    {
        let ghost start = self@;
        let mut i: usize = 0;
        while i < self.cells.len()
            invariant
                i <= self.cells.len(),
                self.cells.len() == start.cells.len(),
                forall|j: int|
                    0 <= j < i ==> #[trigger] self@.cells[j] == (
                        start.cells[j].0,
                        CellView { grapheme: None, ..start.cells[j].1 },
                    ),
                forall|j: int| i <= j < start.cells.len() ==> #[trigger] self@.cells[j] == start.cells[j],
                self@.cell == start.cell,
                self@.terminal == start.terminal,
                self@.browser == start.browser,
                self@.painter == start.painter,
            decreases self.cells.len() - i,
        {
            assert(self@.cells[i as int] == start.cells[i as int]);
            let previous = duplicate(&self.cells[i].0);
            let c = &self.cells[i].1;
            assert(c@ == start.cells[i as int].1);
            let current = Cell { top: c.top, bottom: c.bottom, cursor: c.cursor, grapheme: None };
            let ghost before = self@.cells;
            let ghost pair = (previous@, current@);
            self.cells.set(i, (previous, current));
            assert(self@.cells =~= before.update(i as int, pair));
            assert(pair == (start.cells[i as int].0, CellView { grapheme: None, ..start.cells[i as int].1 }));
            i = i + 1;
        }
        assert(self@.cells =~= start.cells.map_values(
            |c: (CellView, CellView)| (c.0, CellView { grapheme: None, ..c.1 }),
        ));
    }
}


/// Whether a background of `len` bytes can be drawn into `rect` (see
/// [`Renderer::draw_background`]).
pub open spec fn background_allowed(state: RendererState, len: int, rect: Rect) -> bool {
    let vw = state.terminal.width as int;
    let vh = state.terminal.height as int;
    &&& vw * 4 <= usize::MAX
    &&& vw * 4 * vh * 2 <= usize::MAX
    &&& len == vw * 4 * vh * 2 ==> background_fits(rect, vw, len, state.cells.len() as int)
}

/// The floor of half of `v`.
fn floor_half(v: i128) -> (r: i128)
    requires
        -0x1_0000_0000_0000 <= v <= 0x1_0000_0000_0000,
    ensures
        r == v / 2,
{
    if v >= 0 {
        v / 2
    } else {
        -((-v + 1) / 2)
    }
}

impl Screen {
    /// Whether every cell can be painted (see [`Renderer::render`]).
    pub fn can_render(&self) -> (b: bool)
        ensures
            b == all_paintable(self@.cells),
    {
        let mut i: usize = 0;
        while i < self.cells.len()
            invariant
                i <= self.cells.len(),
                forall|j: int| 0 <= j < i ==> paintable(#[trigger] self@.cells[j].1),
            decreases self.cells.len() - i,
        {
            let c = &self.cells[i].1;
            assert(self@.cells[i as int].1 == c@);
            let width: Option<u32> = match &c.grapheme {
                Some(g) => {
                    if g.index > 0 {
                        None
                    } else {
                        Some(g.width as u32)
                    }
                },
                None => Some(1),
            };
            let width = match width {
                None => {
                    i = i + 1;
                    continue;
                },
                Some(w) => w,
            };
            if c.cursor.x == 0xffff_ffff || c.cursor.y == 0xffff_ffff {
                return false;
            }
            if c.cursor.x as u64 + width as u64 > 0xffff_ffff {
                return false;
            }
            i = i + 1;
        }
        true
    }

    /// Whether a background of `len` bytes can be drawn into `rect`: the
    /// buffer's size fits a `usize`, and a buffer of the right size covers
    /// the rectangle, which lies within the cells.
    pub fn can_draw_background(&self, len: usize, rect: Rect) -> (b: bool)
        ensures
            b == background_allowed(self@, len as int, rect),
    {
        let vw = self.dimensions.terminal.width as i128;
        let vh = self.dimensions.terminal.height as i128;
        let max = usize::MAX as i128;
        assert(vw * 4 * vh * 2 <= 0x8_0000_0000_0000_0000) by (nonlinear_arith)
            requires
                0 <= vw <= 0xffff_ffff,
                0 <= vh <= 0xffff_ffff,
        ;
        if vw * 4 > max || vw * 4 * vh * 2 > max {
            return false;
        }
        if len as i128 != vw * 4 * vh * 2 {
            return true;
        }
        if rect.origin.x < 0 || rect.origin.y < 0 {
            return false;
        }
        let x0 = rect.origin.x as i128;
        let y0 = rect.origin.y as i128 / 2;
        let w = rect.size.width as i128;
        let h2 = rect.size.height as i128 / 2;
        let last = y0 + h2 - 1;
        if (x0 + w) * 4 > max || 2 * (y0 + h2) > max {
            return false;
        }
        if h2 > 0 {
            assert((2 * last + 1) * (vw * 4) <= 0x1_0000_0000_0000_0000_0000) by (nonlinear_arith)
                requires
                    0 <= last <= 0x1_0000_0000,
                    0 <= vw <= 0xffff_ffff,
            ;
            assert(last * vw <= 0x1_0000_0000_0000_0000) by (nonlinear_arith)
                requires
                    0 <= last <= 0x1_0000_0000,
                    0 <= vw <= 0xffff_ffff,
            ;
            x0 * 4 + w * 4 + (2 * last + 1) * (vw * 4) <= len as i128 && last * vw + x0
                <= self.cells.len() as i128
        } else {
            true
        }
    }

    /// Whether text can be drawn at `origin` in a box of `size` (see
    /// [`text_fits`]).
    pub fn can_draw_text(&self, origin: Point, size: Size) -> (b: bool)
        ensures
            b == text_fits(origin, size, self@.terminal, self@.cells.len() as int),
    {
        let terminal = self.dimensions.terminal;
        let len = self.cells.len();
        if size.width > 2 && size.height > 2 {
            let vw = terminal.width as i128;
            let vh = terminal.height as i128;
            let x: i128 = if origin.x < 0 {
                0
            } else if origin.x as i128 > vw {
                vw
            } else {
                origin.x as i128
            };
            let y0: i128 = if origin.y < 0 {
                0
            } else if origin.y as i128 > vh * 2 {
                vh * 2
            } else {
                origin.y as i128
            };
            let y_end = y0 + (size.height as i32) as i128;
            let max = i32::MAX as i128;
            let half = floor_half(y_end);
            assert(-0x1_0000_0000_0000_0000 <= half * vw <= 0x1_0000_0000_0000_0000) by (nonlinear_arith)
                requires
                    -0x1_0000_0000 <= half <= 0x1_0000_0000,
                    0 <= vw <= 0xffff_ffff,
            ;
            vw <= max && vh * 2 <= max && y_end <= max && x + half * vw <= max
                && len as i128 + size.width as i128 <= usize::MAX as i128
        } else {
            let half = origin.y as i64 / 2;
            let tw = (terminal.width as i32) as i64;
            assert(-0x4000_0000_0000_0000 <= half * tw <= 0x4000_0000_0000_0000) by (nonlinear_arith)
                requires
                    -0x4000_0000 <= half <= 0x4000_0000,
                    -0x8000_0000 <= tw <= 0x8000_0000,
            ;
            let row = half * tw;
            let min = i32::MIN as i64;
            let max = i32::MAX as i64;
            min <= row && row <= max && min <= origin.x as i64 + row && origin.x as i64 + row <= max
        }
    }
}

/// Renders pixels and text into terminal cells, drawing only the cells that
/// changed since the last frame.
pub struct Renderer {
    screen: Screen,
}

impl View for Renderer {
    type V = RendererState;

    closed spec fn view(&self) -> RendererState {
        self.screen@
    }
}

impl Renderer {
    /// Each cell was last drawn at the position where it is to be drawn now.
    #[verifier::type_invariant]
    spec fn cells_in_place(self) -> bool {
        positions_agree(self.screen@.cells)
    }

    /// A renderer for a terminal of no cells yet; `colorterm` is the value of
    /// the `COLORTERM` variable.
    pub fn new(colorterm: &str) -> (r: Renderer)
        ensures
            r@.cells == Seq::<(CellView, CellView)>::empty(),
            r@.cell == (Size { width: 7u32, height: 14u32 }),
            r@.browser == (Size { width: 0u32, height: 0u32 }),
            r@.terminal == (Size { width: 0u32, height: 0u32 }),
            r@.painter == fresh_painter(colorterm@),
    {
        let r = Renderer { screen: Screen::new(colorterm) };
        r
    }

    pub fn enable_true_color(&mut self)
        ensures
            final(self)@ == (RendererState {
                painter: PainterState { true_color: true, ..old(self)@.painter },
                ..old(self)@
            }),
    {
        proof {
            use_type_invariant(&*self);
        }
        let mut screen = Screen::new("");
        std::mem::swap(&mut screen, &mut self.screen);
        let result = screen.enable_true_color();
        self.screen = screen;
        result
    }

    /// Sets the size of a cell in pixels and of the terminal in cells; the
    /// browser gets the product.
    pub fn set_size(&mut self, cell: Size, terminal: Size)
        requires
            terminal.width >= 1,
            terminal.width * terminal.height <= u32::MAX,
            cell.width * terminal.width <= u32::MAX,
            cell.height * terminal.height <= u32::MAX,
        ensures
            final(self)@ == (RendererState {
                cells: resized_cells(
                    old(self)@.cells,
                    (terminal.width * terminal.height) as nat,
                    terminal.width as nat,
                ),
                cell,
                terminal,
                browser: Size {
                    width: (cell.width * terminal.width) as u32,
                    height: (cell.height * terminal.height) as u32,
                },
                ..old(self)@
            }),
    {
        proof {
            use_type_invariant(&*self);
        }
        let mut screen = Screen::new("");
        std::mem::swap(&mut screen, &mut self.screen);
        let result = screen.set_size(cell, terminal);
        proof {
            lemma_positions_kept(
                old(self)@.cells,
                (terminal.width * terminal.height) as nat,
                terminal.width as nat,
                Seq::empty(),
                Rect { origin: Point { x: 0, y: 0 }, size: Size { width: 0, height: 0 } },
                terminal,
                Seq::empty(),
                Point { x: 0, y: 0 },
                Size { width: 0, height: 0 },
                Color { r: 0, g: 0, b: 0 },
                old(self)@.painter,
            );
        }
        self.screen = screen;
        result
    }

    /// Draws the cells that changed since the last frame and hands out the
    /// bytes to write to the terminal.
    pub fn render(&mut self) -> (bytes: Vec<u8>)
        requires
            all_paintable(old(self)@.cells),
        ensures
            forall|i: int|
                0 <= i < final(self)@.cells.len() ==> (#[trigger] final(self)@.cells[i]).0
                    == final(self)@.cells[i].1,
            ({
                let (cells, painter) = render_prefix(
                    old(self)@.cells,
                    old(self)@.painter,
                    old(self)@.cells.len(),
                );
                &&& bytes@ == painter.buffer
                &&& final(self)@ == (RendererState {
                    cells,
                    painter: PainterState { buffer: seq![], ..painter },
                    ..old(self)@
                })
            }),
    {
        proof {
            use_type_invariant(&*self);
        }
        let mut screen = Screen::new("");
        std::mem::swap(&mut screen, &mut self.screen);
        let result = screen.render();
        proof {
            lemma_positions_kept(
                old(self)@.cells,
                0,
                1,
                Seq::empty(),
                Rect { origin: Point { x: 0, y: 0 }, size: Size { width: 0, height: 0 } },
                old(self)@.terminal,
                Seq::empty(),
                Point { x: 0, y: 0 },
                Size { width: 0, height: 0 },
                Color { r: 0, g: 0, b: 0 },
                old(self)@.painter,
            );
            lemma_render_prefix_cells(old(self)@.cells, old(self)@.painter, old(self)@.cells.len());
        }
        self.screen = screen;
        result
    }

    /// Draws the background from a pixel array encoded in RGBA8888, two
    /// pixel rows per row of cells, then renders; nothing happens when the
    /// array does not cover the terminal exactly.
    pub fn draw_background(&mut self, pixels: &mut [u8], rect: Rect) -> (bytes: Vec<u8>)
        requires
            old(self)@.terminal.width * 4 <= usize::MAX,
            old(self)@.terminal.width * 4 * old(self)@.terminal.height * 2 <= usize::MAX,
            old(pixels)@.len() == old(self)@.terminal.width * 4 * old(self)@.terminal.height * 2
                ==> background_fits(
                rect,
                old(self)@.terminal.width as int,
                old(pixels)@.len() as int,
                old(self)@.cells.len() as int,
            ) && all_paintable(old(self)@.cells),
        ensures
            final(pixels)@ == old(pixels)@,
            ({
                let painted = background_cells(
                    old(self)@.cells,
                    old(pixels)@,
                    rect,
                    old(self)@.terminal,
                );
                let (cells, painter) = render_prefix(painted, old(self)@.painter, painted.len());
                if old(pixels)@.len() != old(self)@.terminal.width * 4 * old(self)@.terminal.height
                    * 2 {
                    bytes@ == Seq::<u8>::empty() && final(self)@ == old(self)@
                } else {
                    &&& bytes@ == painter.buffer
                    &&& final(self)@ == (RendererState {
                        cells,
                        painter: PainterState { buffer: seq![], ..painter },
                        ..old(self)@
                    })
                }
            }),
    {
        proof {
            use_type_invariant(&*self);
        }
        let mut screen = Screen::new("");
        std::mem::swap(&mut screen, &mut self.screen);
        let result = screen.draw_background(pixels, rect);
        proof {
            let painted = background_cells(
                old(self)@.cells,
                old(pixels)@,
                rect,
                old(self)@.terminal,
            );
            lemma_positions_kept(
                old(self)@.cells,
                0,
                1,
                old(pixels)@,
                rect,
                old(self)@.terminal,
                Seq::empty(),
                Point { x: 0, y: 0 },
                Size { width: 0, height: 0 },
                Color { r: 0, g: 0, b: 0 },
                old(self)@.painter,
            );
            lemma_positions_kept(
                painted,
                0,
                1,
                Seq::empty(),
                rect,
                old(self)@.terminal,
                Seq::empty(),
                Point { x: 0, y: 0 },
                Size { width: 0, height: 0 },
                Color { r: 0, g: 0, b: 0 },
                old(self)@.painter,
            );
        }
        self.screen = screen;
        result
    }

    /// The bytes that set the terminal's window and icon titles to `title`.
    pub fn set_title(&self, title: &str) -> (bytes: Vec<u8>)
        ensures
            bytes@ == title_sequence(48, title@) + title_sequence(49, title@) + title_sequence(
                50,
                title@,
            ),
    {
        self.screen.set_title(title)
    }

    /// Draws a line of text, or, for a box taller and wider than two
    /// pixels, clears the text under it.
    pub fn draw_text(&mut self, string: &str, origin: Point, size: Size, color: Color)
        requires
            text_fits(origin, size, old(self)@.terminal, old(self)@.cells.len() as int),
        ensures
            final(self)@ == (RendererState {
                cells: text_cells(
                    old(self)@.cells,
                    string@,
                    origin,
                    size,
                    color,
                    old(self)@.terminal,
                ),
                ..old(self)@
            }),
    {
        proof {
            use_type_invariant(&*self);
        }
        let mut screen = Screen::new("");
        std::mem::swap(&mut screen, &mut self.screen);
        let result = screen.draw_text(string, origin, size, color);
        proof {
            lemma_positions_kept(
                old(self)@.cells,
                0,
                1,
                Seq::empty(),
                Rect { origin: Point { x: 0, y: 0 }, size: Size { width: 0, height: 0 } },
                old(self)@.terminal,
                string@,
                origin,
                size,
                color,
                old(self)@.painter,
            );
        }
        self.screen = screen;
        result
    }

    /// Removes the text from every cell.
    pub fn clear_text(&mut self)
        ensures
            final(self)@ == (RendererState {
                cells: old(self)@.cells.map_values(
                    |c: (CellView, CellView)| (c.0, CellView { grapheme: None, ..c.1 }),
                ),
                ..old(self)@
            }),
    {
        proof {
            use_type_invariant(&*self);
        }
        let mut screen = Screen::new("");
        std::mem::swap(&mut screen, &mut self.screen);
        let result = screen.clear_text();
        proof {
            lemma_positions_kept(
                old(self)@.cells,
                0,
                1,
                Seq::empty(),
                Rect { origin: Point { x: 0, y: 0 }, size: Size { width: 0, height: 0 } },
                old(self)@.terminal,
                Seq::empty(),
                Point { x: 0, y: 0 },
                Size { width: 0, height: 0 },
                Color { r: 0, g: 0, b: 0 },
                old(self)@.painter,
            );
        }
        self.screen = screen;
        result
    }

    /// Whether every cell can be painted (see [`Renderer::render`]).
    pub fn can_render(&self) -> (b: bool)
        ensures
            b == all_paintable(self@.cells),
    {
        self.screen.can_render()
    }

    /// Whether a background of `len` bytes can be drawn into `rect`: the
    /// buffer's size fits a `usize`, and a buffer of the right size covers
    /// the rectangle, which lies within the cells.
    pub fn can_draw_background(&self, len: usize, rect: Rect) -> (b: bool)
        ensures
            b == background_allowed(self@, len as int, rect),
    {
        self.screen.can_draw_background(len, rect)
    }

    /// Whether text can be drawn at `origin` in a box of `size` (see
    /// [`text_fits`]).
    pub fn can_draw_text(&self, origin: Point, size: Size) -> (b: bool)
        ensures
            b == text_fits(origin, size, self@.terminal, self@.cells.len() as int),
    {
        self.screen.can_draw_text(origin, size)
    }
}

} // verus!
