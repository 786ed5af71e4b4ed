use std::ops::ControlFlow;

use vstd::prelude::*;

use super::parser::{flow_view, opt_event_view, Event, EventView, FlowView, Key, ParseControlFlow};

verus! {

/// Where a modified key sequence (`; modifier key`) is.
#[derive(Clone, Copy, Debug, PartialEq, Eq, Structural)]
pub enum KeyboardState {
    Separator,
    Modifier,
    Key,
}

/// The arrow key that `key` names (`A` up, `B` down, `C` right, `D` left).
pub open spec fn arrow_key(key: u8, alt: bool) -> Option<EventView> {
    if key == 65 {
        Some(EventView::KeyPress(Key { char: 0x11, alt }))
    } else if key == 66 {
        Some(EventView::KeyPress(Key { char: 0x12, alt }))
    } else if key == 67 {
        Some(EventView::KeyPress(Key { char: 0x13, alt }))
    } else if key == 68 {
        Some(EventView::KeyPress(Key { char: 0x14, alt }))
    } else {
        None
    }
}

/// One byte of a modified key sequence, on the state `(alt, where)`:
/// modifier `3` means `alt`.
pub open spec fn keyboard_parse(s: (bool, KeyboardState), key: u8) -> (FlowView, (bool, KeyboardState)) {
    let (alt, state) = s;
    match state {
        KeyboardState::Separator => if key == 59 {
            (FlowView::Continue(None), (alt, KeyboardState::Modifier))
        } else {
            (FlowView::Break(None), s)
        },
        KeyboardState::Modifier => (FlowView::Continue(None), (alt || key == 51, KeyboardState::Key)),
        KeyboardState::Key => (FlowView::Break(arrow_key(key, alt)), s),
    }
}

/// Reader of a modified arrow key sequence.
pub struct Keyboard {
    alt: bool,
    state: KeyboardState,
}

impl View for Keyboard {
    type V = (bool, KeyboardState);

    closed spec fn view(&self) -> (bool, KeyboardState) {
        (self.alt, self.state)
    }
}

impl Keyboard {
    pub fn new() -> (k: Self)
        ensures
            k@ == (false, KeyboardState::Separator),
    {
        Keyboard { alt: false, state: KeyboardState::Separator }
    }

    /// The arrow key event that `key` names, if any.
    pub fn key(key: u8, alt: bool) -> (e: Option<Event>)
        ensures
            opt_event_view(e) == arrow_key(key, alt),
    {
        if key == 65 {
            Some(Event::KeyPress { key: Key { char: 0x11, alt } })
        } else if key == 66 {
            Some(Event::KeyPress { key: Key { char: 0x12, alt } })
        } else if key == 67 {
            Some(Event::KeyPress { key: Key { char: 0x13, alt } })
        } else if key == 68 {
            Some(Event::KeyPress { key: Key { char: 0x14, alt } })
        } else {
            None
        }
    }

    /// Reads one byte of the sequence.
    pub fn parse(&mut self, key: u8) -> (flow: ParseControlFlow)
        ensures
            (flow_view(flow), final(self)@) == keyboard_parse(old(self)@, key),
    {
        self.state = match self.state {
            KeyboardState::Separator => {
                if key == 59 {
                    KeyboardState::Modifier
                } else {
                    return ControlFlow::Break(None);
                }
            },
            KeyboardState::Modifier => {
                if key == 51 {
                    self.alt = true;
                }
                KeyboardState::Key
            },
            KeyboardState::Key => {
                return ControlFlow::Break(Self::key(key, self.alt));
            },
        };
        ControlFlow::Continue(None)
    }
}

} // verus!
