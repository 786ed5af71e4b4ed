use vstd::prelude::*;

use crate::input::mouse::{mouse_read, MouseState};
use crate::utils::text::parse_u32;

verus! {

/// The numbers of an SGR mouse report read so far.
#[derive(Clone, Debug)]
pub struct Mouse {
    pub btn: Option<u32>,
    pub col: Option<u32>,
    pub row: Option<u32>,
    pub(crate) buf: Vec<u8>,
}

impl View for Mouse {
    type V = MouseState;

    closed spec fn view(&self) -> MouseState {
        MouseState { buf: self.buf@, btn: self.btn, col: self.col, row: self.row }
    }
}

impl Mouse {
    /// The public numbers are those of the view.
    pub(crate) proof fn lemma_fields(&self)
        ensures
            self.btn == self@.btn,
            self.col == self@.col,
            self.row == self@.row,
    {
    }

    pub fn new() -> (m: Self)
        ensures
            m@ == MouseState::empty(),
    {
        Mouse { btn: None, col: None, row: None, buf: Vec::new() }
    }

    /// Adds a byte to the number being read.
    pub fn push(&mut self, char: u8)
        ensures
            final(self)@ == (MouseState { buf: old(self)@.buf.push(char), ..old(self)@ }),
    {
        self.buf.push(char)
    }

    /// Reads the pending number into the first of button, column and row
    /// that is still missing.
    pub fn parse(&mut self) -> (r: Option<()>)
        ensures
            (final(self)@, r is Some) == mouse_read(old(self)@),
    {
        let mut buf: Vec<u8> = Vec::new();
        std::mem::swap(&mut buf, &mut self.buf);
        let num = match parse_u32(buf.as_slice()) {
            None => {
                return None;
            },
            Some(n) => Some(n),
        };
        if self.btn.is_none() {
            self.btn = num;
        } else if self.col.is_none() {
            self.col = num;
        } else if self.row.is_none() {
            self.row = num;
        } else {
            return None;
        }
        Some(())
    }
}

} // verus!
