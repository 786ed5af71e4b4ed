use vstd::prelude::*;

use super::mouse::Mouse;
use crate::input::mouse::{has_mask, mouse_read, zero_based, MouseState};

verus! {

/// Information that the terminal reports about itself.
#[derive(Debug)]
pub enum TerminalEvent {
    Name(String),
    TrueColorSupported,
}

/// An input event read from the terminal.
#[derive(Debug)]
pub enum Event {
    KeyPress { key: u8 },
    MouseUp { row: usize, col: usize },
    MouseDown { row: usize, col: usize },
    MouseMove { row: usize, col: usize },
    Scroll { delta: isize },
    Terminal(TerminalEvent),
    Exit,
}

/// The abstract value of a [`TerminalEvent`].
pub enum TerminalEventView {
    Name(Seq<char>),
    TrueColorSupported,
}

/// The abstract value of an [`Event`].
pub enum TEventView {
    KeyPress(u8),
    MouseUp { row: usize, col: usize },
    MouseDown { row: usize, col: usize },
    MouseMove { row: usize, col: usize },
    Scroll(isize),
    Terminal(TerminalEventView),
    Exit,
}

impl View for TerminalEvent {
    type V = TerminalEventView;

    open spec fn view(&self) -> TerminalEventView {
        match self {
            TerminalEvent::Name(name) => TerminalEventView::Name(name@),
            TerminalEvent::TrueColorSupported => TerminalEventView::TrueColorSupported,
        }
    }
}

impl View for Event {
    type V = TEventView;

    open spec fn view(&self) -> TEventView {
        match self {
            Event::KeyPress { key } => TEventView::KeyPress(*key),
            Event::MouseUp { row, col } => TEventView::MouseUp { row: *row, col: *col },
            Event::MouseDown { row, col } => TEventView::MouseDown { row: *row, col: *col },
            Event::MouseMove { row, col } => TEventView::MouseMove { row: *row, col: *col },
            Event::Scroll { delta } => TEventView::Scroll(*delta),
            Event::Terminal(t) => TEventView::Terminal(t@),
            Event::Exit => TEventView::Exit,
        }
    }
}

pub open spec fn tevents_view(events: Seq<Event>) -> Seq<TEventView> {
    events.map_values(|e: Event| e@)
}

/// The event that an SGR mouse report `btn;col;row` stands for.
pub open spec fn tmouse_event(btn: u32, col: u32, row: u32, release: bool) -> TEventView {
    if has_mask(btn, 0x41) {
        TEventView::Scroll(-1isize)
    } else if has_mask(btn, 0x40) {
        TEventView::Scroll(1isize)
    } else {
        let col = zero_based(col);
        let row = zero_based(row);
        if release {
            TEventView::MouseUp { row, col }
        } else if has_mask(btn, 0x20) {
            TEventView::MouseMove { row, col }
        } else {
            TEventView::MouseDown { row, col }
        }
    }
}

/// Reads the last number of a report, then makes its event if button,
/// column and row are all known.
pub open spec fn event_from_mouse(m: MouseState, release: bool) -> (MouseState, Option<TEventView>) {
    let (next, ok) = mouse_read(m);
    if !ok {
        (next, None)
    } else {
        match (next.btn, next.col, next.row) {
            (Some(btn), Some(col), Some(row)) => (next, Some(tmouse_event(btn, col, row, release))),
            _ => (next, None),
        }
    }
}

fn zero_based_exec(v: u32) -> (r: usize)
    ensures
        r == zero_based(v),
{
    if v == 0 {
        usize::MAX
    } else {
        (v - 1) as usize
    }
}

impl Event {
    /// Ends a mouse report: reads its last number, then makes the event.
    pub fn from(mouse: &mut Mouse, release: bool) -> (e: Option<Event>)
        ensures
            (final(mouse)@, match e {
                Some(e) => Some(e@),
                None => None,
            }) == event_from_mouse(old(mouse)@, release),
    {
        if mouse.parse().is_none() {
            return None;
        }
        proof {
            mouse.lemma_fields();
        }
        match (mouse.btn, mouse.col, mouse.row) {
            (Some(btn), Some(col), Some(row)) => Some(
                {
                    if 0x41 & btn == 0x41 {
                        Event::Scroll { delta: -1 }
                    } else if 0x40 & btn == 0x40 {
                        Event::Scroll { delta: 1 }
                    } else {
                        let col = zero_based_exec(col);
                        let row = zero_based_exec(row);
                        if release {
                            Event::MouseUp { row, col }
                        } else if 0x20 & btn == 0x20 {
                            Event::MouseMove { row, col }
                        } else {
                            Event::MouseDown { row, col }
                        }
                    }
                },
            ),
            _ => None,
        }
    }
}

} // verus!
