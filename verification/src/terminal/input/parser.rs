use vstd::prelude::*;

use super::dcs::{dcs_event_view, flow_to_dcs_event, DcsEventView, DeviceControl, DeviceControlEvent};
use super::event::{event_from_mouse, tevents_view, Event, TEventView};
use super::mouse::Mouse;
use crate::input::dcs::parser::{dcs_parse, DcsState};
use crate::input::mouse::{mouse_read, MouseState};

verus! {

#[derive(Clone)]
enum State {
    CharSequence,
    EscapeSequence,
    ControlSequence,
    MouseSequence(Mouse),
    DeviceControlSequence(DeviceControl),
}

/// The abstract state of the input parser.
pub enum TParserState {
    Char,
    Escape,
    Control,
    Mouse(MouseState),
    DeviceControl(DcsState),
}

/// The parser state after `key`, and the events that `key` completes.
pub open spec fn tparser_step(s: TParserState, key: u8) -> (TParserState, Seq<TEventView>) {
    match s {
        TParserState::Char => {
            if key == 0x1b {
                (TParserState::Escape, seq![])
            } else if key == 0x03 {
                (TParserState::Char, seq![TEventView::Exit])
            } else {
                (TParserState::Char, seq![TEventView::KeyPress(key)])
            }
        },
        TParserState::Escape => {
            if key == 91 {
                (TParserState::Control, seq![])
            } else if key == 80 {
                (TParserState::DeviceControl(DcsState::Code), seq![])
            } else if key == 0x1b {
                (TParserState::Escape, seq![TEventView::KeyPress(0x1b)])
            } else {
                (TParserState::Char, seq![TEventView::KeyPress(0x1b), TEventView::KeyPress(key)])
            }
        },
        TParserState::Control => {
            if key == 60 {
                (TParserState::Mouse(MouseState::empty()), seq![])
            } else if key == 65 {
                (TParserState::Char, seq![TEventView::KeyPress(0x26)])
            } else if key == 66 {
                (TParserState::Char, seq![TEventView::KeyPress(0x28)])
            } else if key == 67 {
                (TParserState::Char, seq![TEventView::KeyPress(0x27)])
            } else if key == 68 {
                (TParserState::Char, seq![TEventView::KeyPress(0x25)])
            } else {
                (TParserState::Char, seq![])
            }
        },
        TParserState::Mouse(m) => {
            if key == 59 {
                let (next, ok) = mouse_read(m);
                if ok {
                    (TParserState::Mouse(next), seq![])
                } else {
                    (TParserState::Char, seq![])
                }
            } else if key == 109 || key == 77 {
                match event_from_mouse(m, key == 109).1 {
                    Some(e) => (TParserState::Char, seq![e]),
                    None => (TParserState::Char, seq![]),
                }
            } else {
                (TParserState::Mouse(MouseState { buf: m.buf.push(key), ..m }), seq![])
            }
        },
        TParserState::DeviceControl(d) => {
            let (flow, next) = dcs_parse(d, key);
            match flow_to_dcs_event(flow) {
                DcsEventView::Continue => (TParserState::DeviceControl(next), seq![]),
                DcsEventView::Terminal(t) => (TParserState::Char, seq![TEventView::Terminal(t)]),
                _ => (TParserState::Char, seq![]),
            }
        },
    }
}

/// The parser state after `input`, and the events read from it.
pub open spec fn tparse_spec(s: TParserState, input: Seq<u8>) -> (TParserState, Seq<TEventView>)
    decreases input.len(),
{
    if input.len() == 0 {
        (s, seq![])
    } else {
        let (mid, first) = tparse_spec(s, input.drop_last());
        let (last, more) = tparser_step(mid, input.last());
        (last, first + more)
    }
}

/// Parser of the byte stream that a terminal sends.
pub struct Parser {
    state: State,
}


impl View for Parser {
    type V = TParserState;

    closed spec fn view(&self) -> TParserState {
        match self.state {
            State::CharSequence => TParserState::Char,
            State::EscapeSequence => TParserState::Escape,
            State::ControlSequence => TParserState::Control,
            State::MouseSequence(m) => TParserState::Mouse(m@),
            State::DeviceControlSequence(d) => TParserState::DeviceControl(d@),
        }
    }
}

fn emit(events: &mut Vec<Event>, e: Event) -> (s: State)
    ensures
        tevents_view(final(events)@) == tevents_view(old(events)@).push(e@),
        s is CharSequence,
{
    let ghost before = events@;
    events.push(e);
    assert(tevents_view(events@) =~= tevents_view(before).push(e@));
    State::CharSequence
}

impl Parser {
    pub fn new() -> (p: Parser)
        ensures
            p@ == TParserState::Char,
    {
        Parser { state: State::CharSequence }
    }

    /// Parses the bytes that the terminal sent, remembering an unfinished
    /// sequence for the next call.
    pub fn parse(&mut self, input: &[u8]) -> (events: Vec<Event>)
        ensures
            (final(self)@, tevents_view(events@)) == tparse_spec(old(self)@, input@),
    {
        let mut events: Vec<Event> = Vec::new();
        let mut state = State::CharSequence;
        std::mem::swap(&mut state, &mut self.state);
        let ghost start = old(self)@;
        let mut i: usize = 0;
        while i < input.len()
            invariant
                i <= input.len(),
                (Parser { state }@, tevents_view(events@)) == tparse_spec(
                    start,
                    input@.take(i as int),
                ),
            decreases input.len() - i,
        {
            let key = input[i];
            let ghost before = Parser { state }@;
            let ghost before_events = tevents_view(events@);
            state = match state {
                State::CharSequence => {
                    if key == 0x1b {
                        State::EscapeSequence
                    } else if key == 0x03 {
                        emit(&mut events, Event::Exit)
                    } else {
                        emit(&mut events, Event::KeyPress { key })
                    }
                },
                State::EscapeSequence => {
                    if key == 91 {
                        State::ControlSequence
                    } else if key == 80 {
                        State::DeviceControlSequence(DeviceControl::new())
                    } else if key == 0x1b {
                        emit(&mut events, Event::KeyPress { key: 0x1b });
                        State::EscapeSequence
                    } else {
                        emit(&mut events, Event::KeyPress { key: 0x1b });
                        emit(&mut events, Event::KeyPress { key })
                    }
                },
                State::ControlSequence => {
                    if key == 60 {
                        State::MouseSequence(Mouse::new())
                    } else if key == 65 {
                        emit(&mut events, Event::KeyPress { key: 0x26 })
                    } else if key == 66 {
                        emit(&mut events, Event::KeyPress { key: 0x28 })
                    } else if key == 67 {
                        emit(&mut events, Event::KeyPress { key: 0x27 })
                    } else if key == 68 {
                        emit(&mut events, Event::KeyPress { key: 0x25 })
                    } else {
                        State::CharSequence
                    }
                },
                State::MouseSequence(mut mouse) => {
                    if key == 59 {
                        if mouse.parse().is_none() {
                            State::CharSequence
                        } else {
                            State::MouseSequence(mouse)
                        }
                    } else if key == 109 || key == 77 {
                        if let Some(event) = Event::from(&mut mouse, key == 109) {
                            emit(&mut events, event)
                        } else {
                            State::CharSequence
                        }
                    } else {
                        mouse.push(key);
                        State::MouseSequence(mouse)
                    }
                },
                State::DeviceControlSequence(mut dcs) => {
                    let e = dcs.parse(key);
                    match e {
                        DeviceControlEvent::Continue => State::DeviceControlSequence(dcs),
                        DeviceControlEvent::Terminal(terminal) => emit(
                            &mut events,
                            Event::Terminal(terminal),
                        ),
                        _ => State::CharSequence,
                    }
                },
            };
            proof {
                let (s2, evs) = tparser_step(before, key);
                assert(Parser { state }@ == s2);
                assert(tevents_view(events@) =~= before_events + evs);
                assert(input@.take(i + 1).drop_last() =~= input@.take(i as int));
            }
            i = i + 1;
        }
        assert(input@.take(i as int) =~= input@);
        self.state = state;
        events
    }
}

/// Reading the input in two pieces gives the state and the events that
/// reading it at once gives.
pub proof fn lemma_tparse_split(s: TParserState, a: Seq<u8>, b: Seq<u8>)
    ensures
        ({
            let (mid, first) = tparse_spec(s, a);
            let (last, second) = tparse_spec(mid, b);
            tparse_spec(s, a + b) == (last, first + second)
        }),
    decreases b.len(),
{
    if b.len() == 0 {
        assert(a + b =~= a);
        let (mid, first) = tparse_spec(s, a);
        assert(first + seq![] =~= first);
    } else {
        lemma_tparse_split(s, a, b.drop_last());
        assert((a + b).drop_last() =~= a + b.drop_last());
        assert((a + b).last() == b.last());
        let (mid, first) = tparse_spec(s, a);
        let (m2, second0) = tparse_spec(mid, b.drop_last());
        let (last, more) = tparser_step(m2, b.last());
        assert(first + second0 + more =~= first + (second0 + more));
    }
}


/// Bytes other than escape and `ctrl-c`, read between sequences, are each a
/// key press of that byte.
pub proof fn lemma_tplain_text(input: Seq<u8>)
    requires
        forall|i: int| 0 <= i < input.len() ==> #[trigger] input[i] != 0x1b && input[i] != 0x03,
    ensures
        tparse_spec(TParserState::Char, input) == (
            TParserState::Char,
            input.map_values(|k: u8| TEventView::KeyPress(k)),
        ),
    decreases input.len(),
{
    if input.len() > 0 {
        lemma_tplain_text(input.drop_last());
        assert(input.map_values(|k: u8| TEventView::KeyPress(k)) =~= input.drop_last().map_values(
            |k: u8| TEventView::KeyPress(k),
        ).push(TEventView::KeyPress(input.last())));
    } else {
        assert(input.map_values(|k: u8| TEventView::KeyPress(k)) =~= seq![]);
    }
}

} // verus!
