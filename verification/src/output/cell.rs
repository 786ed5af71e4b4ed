use std::rc::Rc;

use vstd::prelude::*;

use crate::gfx::{Color, Point};
use crate::utils::text::str_equal;

verus! {

/// A piece of text drawn over cells.
#[derive(Clone, PartialEq)]
pub struct Grapheme {
    /// Unicode character in UTF-8, might contain multiple code points (Emoji, CJK).
    pub char: String,
    pub index: usize,
    pub width: usize,
    pub color: Color,
}

/// The abstract value of a [`Grapheme`].
pub struct GraphemeView {
    pub char: Seq<char>,
    pub index: usize,
    pub width: usize,
    pub color: Color,
}

impl View for Grapheme {
    type V = GraphemeView;

    open spec fn view(&self) -> GraphemeView {
        GraphemeView { char: self.char@, index: self.index, width: self.width, color: self.color }
    }
}

/// Terminal cell with `height = width * 2`
#[derive(PartialEq)]
pub struct Cell {
    /// Top pixel color value
    pub top: Color,
    /// Bottom pixel color value
    pub bottom: Color,
    pub cursor: Point<u32>,
    /// Text grapheme if any
    pub grapheme: Option<Rc<Grapheme>>,
}

/// The abstract value of a [`Cell`].
pub struct CellView {
    pub top: Color,
    pub bottom: Color,
    pub cursor: Point<u32>,
    pub grapheme: Option<GraphemeView>,
}

pub open spec fn grapheme_view(g: Option<Rc<Grapheme>>) -> Option<GraphemeView> {
    match g {
        Some(g) => Some(g@),
        None => None,
    }
}

impl View for Cell {
    type V = CellView;

    open spec fn view(&self) -> CellView {
        CellView {
            top: self.top,
            bottom: self.bottom,
            cursor: self.cursor,
            grapheme: grapheme_view(self.grapheme),
        }
    }
}

/// A black cell without text at `(x, y)`.
pub open spec fn blank_cell(x: u32, y: u32) -> CellView {
    CellView {
        top: Color { r: 0, g: 0, b: 0 },
        bottom: Color { r: 0, g: 0, b: 0 },
        cursor: Point { x, y },
        grapheme: None,
    }
}

impl Cell {
    pub fn new(x: u32, y: u32) -> (c: Cell)
        ensures
            c@ == blank_cell(x, y),
    {
        Cell { top: Color::black(), bottom: Color::black(), cursor: Point::new(x, y), grapheme: None }
    }

    /// Whether two cells look the same: same colors, position and text.
    pub fn same(&self, other: &Cell) -> (b: bool)
        ensures
            b == (self@ == other@),
    {
        if self.top != other.top || self.bottom != other.bottom || self.cursor != other.cursor {
            return false;
        }
        match (&self.grapheme, &other.grapheme) {
            (None, None) => true,
            (Some(a), Some(b)) => {
                let a: &Grapheme = &**a;
                let b: &Grapheme = &**b;
                a.index == b.index && a.width == b.width && a.color == b.color && str_equal(
                    a.char.as_str(),
                    b.char.as_str(),
                )
            },
            _ => false,
        }
    }
}

/// Shares the text of a cell.
pub(crate) fn share(g: &Option<Rc<Grapheme>>) -> (r: Option<Rc<Grapheme>>)
    ensures
        grapheme_view(r) == grapheme_view(*g),
{
    match g {
        Some(g) => Some(rc_clone(g)),
        None => None,
    }
}

/// Calls `Rc::clone` (std). Trusted: the clone points at the same value.
#[verifier::external_body]
fn rc_clone<T>(r: &Rc<T>) -> (c: Rc<T>)
    ensures
        c == *r,
{
    Rc::clone(r)
}

} // verus!
