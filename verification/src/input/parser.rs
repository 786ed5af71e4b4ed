use std::ops::ControlFlow;

use vstd::prelude::*;

use super::dcs::{dcs_parse, DcsState, DeviceControl};
use super::mouse::{mouse_parse, Mouse, MouseState};

verus! {

/// A key press: the byte of the key and whether `alt` was held.
#[derive(Clone, Copy, Debug, PartialEq, Eq, Structural)]
pub struct Key {
    pub char: u8,
    pub alt: bool,
}

/// Information that the terminal reports about itself.
#[derive(Debug)]
pub enum TerminalEvent {
    Name(String),
    TrueColorSupported,
}

/// An input event read from the terminal.
#[derive(Debug)]
pub enum Event {
    KeyPress { key: Key },
    MouseUp { row: usize, col: usize },
    MouseDown { row: usize, col: usize },
    MouseMove { row: usize, col: usize },
    Scroll { delta: isize },
    Terminal(TerminalEvent),
    Exit,
}

/// The abstract value of an [`Event`]: strings become their characters.
pub enum EventView {
    KeyPress(Key),
    MouseUp { row: usize, col: usize },
    MouseDown { row: usize, col: usize },
    MouseMove { row: usize, col: usize },
    Scroll(isize),
    TerminalName(Seq<char>),
    TrueColorSupported,
    Exit,
}

impl View for Event {
    type V = EventView;

    open spec fn view(&self) -> EventView {
        match self {
            Event::KeyPress { key } => EventView::KeyPress(*key),
            Event::MouseUp { row, col } => EventView::MouseUp { row: *row, col: *col },
            Event::MouseDown { row, col } => EventView::MouseDown { row: *row, col: *col },
            Event::MouseMove { row, col } => EventView::MouseMove { row: *row, col: *col },
            Event::Scroll { delta } => EventView::Scroll(*delta),
            Event::Terminal(TerminalEvent::Name(name)) => EventView::TerminalName(name@),
            Event::Terminal(TerminalEvent::TrueColorSupported) => EventView::TrueColorSupported,
            Event::Exit => EventView::Exit,
        }
    }
}

pub open spec fn opt_event_view(e: Option<Event>) -> Option<EventView> {
    match e {
        Some(e) => Some(e@),
        None => None,
    }
}

pub open spec fn events_view(events: Seq<Event>) -> Seq<EventView> {
    events.map_values(|e: Event| e@)
}

/// What a sub-parser answers for one byte: stop or go on, with perhaps an
/// event.
pub type ParseControlFlow = ControlFlow<Option<Event>, Option<Event>>;

/// The abstract value of a [`ParseControlFlow`].
pub enum FlowView {
    Break(Option<EventView>),
    Continue(Option<EventView>),
}

/// `n` answers to go on, with no event.
pub open spec fn continues(n: nat) -> Seq<FlowView> {
    Seq::new(n, |i: int| FlowView::Continue(None))
}

pub open spec fn flow_view(f: ParseControlFlow) -> FlowView {
    match f {
        ControlFlow::Break(e) => FlowView::Break(opt_event_view(e)),
        ControlFlow::Continue(e) => FlowView::Continue(opt_event_view(e)),
    }
}

/// The state of the input parser between bytes.
enum Sequence {
    Char,
    Escape,
    Control,
    Mouse(Mouse),
    DeviceControl(DeviceControl),
}

/// The abstract state of the input parser.
pub enum ParserState {
    Char,
    Escape,
    Control,
    Mouse(MouseState),
    DeviceControl(DcsState),
}

pub open spec fn key_event(char: u8) -> EventView {
    EventView::KeyPress(Key { char, alt: false })
}

/// The parser state after `key`, and the events that `key` completes.
pub open spec fn parser_step(s: ParserState, key: u8) -> (ParserState, Seq<EventView>) {
    match s {
        ParserState::Char => {
            if key == 0x1b {
                (ParserState::Escape, seq![])
            } else if key == 0x03 {
                (ParserState::Char, seq![EventView::Exit])
            } else {
                (ParserState::Char, seq![key_event(key)])
            }
        },
        ParserState::Escape => {
            if key == 91 {
                (ParserState::Control, seq![])
            } else if key == 80 {
                (ParserState::DeviceControl(DcsState::Code), seq![])
            } else if key == 0x1b {
                (ParserState::Escape, seq![key_event(0x1b)])
            } else {
                (ParserState::Char, seq![key_event(0x1b), key_event(key)])
            }
        },
        ParserState::Control => {
            if key == 60 {
                (ParserState::Mouse(MouseState::empty()), seq![])
            } else if key == 65 {
                (ParserState::Char, seq![key_event(0x11)])
            } else if key == 66 {
                (ParserState::Char, seq![key_event(0x12)])
            } else if key == 67 {
                (ParserState::Char, seq![key_event(0x13)])
            } else if key == 68 {
                (ParserState::Char, seq![key_event(0x14)])
            } else {
                (ParserState::Char, seq![])
            }
        },
        ParserState::Mouse(m) => {
            let (flow, next) = mouse_parse(m, key);
            sub_step(flow, ParserState::Mouse(next))
        },
        ParserState::DeviceControl(d) => {
            let (flow, next) = dcs_parse(d, key);
            sub_step(flow, ParserState::DeviceControl(next))
        },
    }
}

/// How the parser follows a sub-parser's answer: a break returns to plain
/// characters, a continue keeps the sub-parser; an event is emitted either
/// way.
pub open spec fn sub_step(flow: FlowView, next: ParserState) -> (ParserState, Seq<EventView>) {
    match flow {
        FlowView::Break(None) => (ParserState::Char, seq![]),
        FlowView::Break(Some(e)) => (ParserState::Char, seq![e]),
        FlowView::Continue(None) => (next, seq![]),
        FlowView::Continue(Some(e)) => (next, seq![e]),
    }
}

/// The parser state after `input`, and the events read from it.
pub open spec fn parse_spec(s: ParserState, input: Seq<u8>) -> (ParserState, Seq<EventView>)
    decreases input.len(),
{
    if input.len() == 0 {
        (s, seq![])
    } else {
        let (mid, first) = parse_spec(s, input.drop_last());
        let (last, more) = parser_step(mid, input.last());
        (last, first + more)
    }
}

/// Parser of the byte stream that a terminal sends: keys, mouse reports and
/// device control replies.
pub struct Parser {
    sequence: Sequence,
}

impl View for Parser {
    type V = ParserState;

    closed spec fn view(&self) -> ParserState {
        match self.sequence {
            Sequence::Char => ParserState::Char,
            Sequence::Escape => ParserState::Escape,
            Sequence::Control => ParserState::Control,
            Sequence::Mouse(m) => ParserState::Mouse(m@),
            Sequence::DeviceControl(d) => ParserState::DeviceControl(d@),
        }
    }
}

fn emit(events: &mut Vec<Event>, e: Event)
    ensures
        events_view(final(events)@) == events_view(old(events)@).push(e@),
{
    let ghost before = events@;
    events.push(e);
    assert(events_view(events@) =~= events_view(before).push(e@));
}

fn key_press(char: u8) -> (e: Event)
    ensures
        e@ == key_event(char),
{
    Event::KeyPress { key: Key { char, alt: false } }
}

impl Parser {
    pub fn new() -> (p: Parser)
        ensures
            p@ == ParserState::Char,
    {
        Parser { sequence: Sequence::Char }
    }

    /// Parses the bytes that the terminal sent, remembering an unfinished
    /// sequence for the next call.
    pub fn parse(&mut self, input: &[u8]) -> (events: Vec<Event>)
        ensures
            (final(self)@, events_view(events@)) == parse_spec(old(self)@, input@),
    {
        let mut sequence = Sequence::Char;
        std::mem::swap(&mut sequence, &mut self.sequence);
        let mut events: Vec<Event> = Vec::new();
        let ghost start = old(self)@;
        let mut i: usize = 0;
        while i < input.len()
            invariant
                i <= input.len(),
                (Parser { sequence }@, events_view(events@)) == parse_spec(
                    start,
                    input@.take(i as int),
                ),
            decreases input.len() - i,
        {
            let key = input[i];
            let ghost before = Parser { sequence }@;
            let ghost before_events = events_view(events@);
            sequence = match sequence {
                Sequence::Char => {
                    if key == 0x1b {
                        Sequence::Escape
                    } else if key == 0x03 {
                        emit(&mut events, Event::Exit);
                        Sequence::Char
                    } else {
                        emit(&mut events, key_press(key));
                        Sequence::Char
                    }
                },
                Sequence::Escape => {
                    if key == 91 {
                        Sequence::Control
                    } else if key == 80 {
                        Sequence::DeviceControl(DeviceControl::new())
                    } else if key == 0x1b {
                        emit(&mut events, key_press(0x1b));
                        Sequence::Escape
                    } else {
                        emit(&mut events, key_press(0x1b));
                        emit(&mut events, key_press(key));
                        Sequence::Char
                    }
                },
                Sequence::Control => {
                    if key == 60 {
                        Sequence::Mouse(Mouse::new())
                    } else if key == 65 {
                        emit(&mut events, key_press(0x11));
                        Sequence::Char
                    } else if key == 66 {
                        emit(&mut events, key_press(0x12));
                        Sequence::Char
                    } else if key == 67 {
                        emit(&mut events, key_press(0x13));
                        Sequence::Char
                    } else if key == 68 {
                        emit(&mut events, key_press(0x14));
                        Sequence::Char
                    } else {
                        Sequence::Char
                    }
                },
                Sequence::Mouse(mut mouse) => {
                    let flow = mouse.parse(key);
                    match flow {
                        ControlFlow::Break(None) => Sequence::Char,
                        ControlFlow::Break(Some(e)) => {
                            emit(&mut events, e);
                            Sequence::Char
                        },
                        ControlFlow::Continue(None) => Sequence::Mouse(mouse),
                        ControlFlow::Continue(Some(e)) => {
                            emit(&mut events, e);
                            Sequence::Mouse(mouse)
                        },
                    }
                },
                Sequence::DeviceControl(mut dcs) => {
                    let flow = dcs.parse(key);
                    match flow {
                        ControlFlow::Break(None) => Sequence::Char,
                        ControlFlow::Break(Some(e)) => {
                            emit(&mut events, e);
                            Sequence::Char
                        },
                        ControlFlow::Continue(None) => Sequence::DeviceControl(dcs),
                        ControlFlow::Continue(Some(e)) => {
                            emit(&mut events, e);
                            Sequence::DeviceControl(dcs)
                        },
                    }
                },
            };
            proof {
                let (s2, evs) = parser_step(before, key);
                assert(Parser { sequence }@ == s2);
                assert(events_view(events@) =~= before_events + evs);
                assert(input@.take(i + 1).drop_last() =~= input@.take(i as int));
            }
            i = i + 1;
        }
        assert(input@.take(i as int) =~= input@);
        self.sequence = sequence;
        events
    }
}

/// Reading the input in two pieces gives the state and the events that
/// reading it at once gives: the parser does not depend on how the bytes
/// were split into reads.
pub proof fn lemma_parse_split(s: ParserState, a: Seq<u8>, b: Seq<u8>)
    ensures
        ({
            let (mid, first) = parse_spec(s, a);
            let (last, second) = parse_spec(mid, b);
            parse_spec(s, a + b) == (last, first + second)
        }),
    decreases b.len(),
{
    if b.len() == 0 {
        assert(a + b =~= a);
        let (mid, first) = parse_spec(s, a);
        assert(first + seq![] =~= first);
    } else {
        lemma_parse_split(s, a, b.drop_last());
        assert((a + b).drop_last() =~= a + b.drop_last());
        assert((a + b).last() == b.last());
        let (mid, first) = parse_spec(s, a);
        let (m2, second0) = parse_spec(mid, b.drop_last());
        let (last, more) = parser_step(m2, b.last());
        assert(first + second0 + more =~= first + (second0 + more));
    }
}

/// Bytes other than escape and `ctrl-c`, read between sequences, are each a
/// key press of that byte.
pub proof fn lemma_plain_text(input: Seq<u8>)
    requires
        forall|i: int| 0 <= i < input.len() ==> #[trigger] input[i] != 0x1b && input[i] != 0x03,
    ensures
        parse_spec(ParserState::Char, input) == (
            ParserState::Char,
            input.map_values(|k: u8| key_event(k)),
        ),
    decreases input.len(),
{
    if input.len() > 0 {
        lemma_plain_text(input.drop_last());
        assert(input.map_values(|k: u8| key_event(k)) =~= input.drop_last().map_values(
            |k: u8| key_event(k),
        ).push(key_event(input.last())));
    } else {
        assert(input.map_values(|k: u8| key_event(k)) =~= seq![]);
    }
}

} // verus!
