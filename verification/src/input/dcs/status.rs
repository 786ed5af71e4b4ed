use std::ops::ControlFlow;

use vstd::prelude::*;
use vstd::string::StringSliceAdditionalSpecFns;
use vstd::utf8::{decode_utf8, encode_utf8, valid_utf8};

use crate::input::parser::{continues, flow_view, Event, EventView, FlowView, ParseControlFlow, TerminalEvent};
use crate::utils::text::is_digit;
use crate::utils::unicode::string_from_utf8;

verus! {

/// Where a status reply (`ESC P 1 $ r value ; value ... op ESC \`) is.
#[derive(Clone, Copy, Debug, PartialEq, Eq, Structural)]
pub enum StatusSequence {
    Start,
    Value,
    Terminator,
}

/// The abstract state of a status reply being read.
pub struct StatusState {
    pub code: u8,
    pub op: Option<u8>,
    pub sequence: StatusSequence,
    pub buffer: Seq<u8>,
    pub values: Seq<Seq<char>>,
}

/// Moves the buffered bytes into the values, when they are UTF-8; the
/// buffer is emptied either way.
pub open spec fn status_push_value(s: StatusState) -> StatusState {
    if valid_utf8(s.buffer) {
        StatusState { buffer: seq![], values: s.values.push(decode_utf8(s.buffer)), ..s }
    } else {
        StatusState { buffer: seq![], ..s }
    }
}

/// Ends the values: the last buffered byte is the operation.
pub open spec fn status_terminate(s: StatusState) -> StatusState {
    let t = if s.buffer.len() > 0 {
        StatusState { op: Some(s.buffer.last()), buffer: s.buffer.drop_last(), ..s }
    } else {
        StatusState { op: None, ..s }
    };
    StatusState { sequence: StatusSequence::Terminator, ..status_push_value(t) }
}

/// Reads the `:`-separated numbers at the start of `bytes`, stopping at the
/// first other byte: the number being read, the numbers read before it, and
/// whether it stopped. Numbers wrap around at 256.
pub open spec fn sgr_scan(bytes: Seq<u8>) -> (u8, Seq<u8>, bool)
    decreases bytes.len(),
{
    if bytes.len() == 0 {
        (0, seq![], false)
    } else {
        let (val, set, stopped) = sgr_scan(bytes.drop_last());
        let c = bytes.last();
        if stopped {
            (val, set, true)
        } else if is_digit(c) {
            (((val * 10 + c - 48) % 256) as u8, set, false)
        } else if c == 58 {
            (0, set.push(val), false)
        } else {
            (val, set, true)
        }
    }
}

/// The numbers of an SGR parameter such as `48:2::0:0:0`.
pub open spec fn sgr_params(bytes: Seq<u8>) -> Seq<u8> {
    let (val, set, _) = sgr_scan(bytes);
    set.push(val)
}

/// `true` when the parameter sets a direct (24-bit) foreground or
/// background color: `38:2:...` or `48:2:...` with at least five numbers.
pub open spec fn is_true_color_param(bytes: Seq<u8>) -> bool {
    let set = sgr_params(bytes);
    set.len() > 4 && set[1] == 2 && (set[0] == 38 || set[0] == 48)
}

/// The event of a finished status reply: true color is supported when the
/// reply was successful (code `1`), properly terminated, about `m` (SGR),
/// and one of its values sets a 24-bit color.
pub open spec fn status_event(s: StatusState, key: u8) -> Option<EventView> {
    if key == 92 && s.code == 49 && s.op == Some(109u8) && exists|i: int|
        0 <= i < s.values.len() && #[trigger] is_true_color_param(encode_utf8(s.values[i])) {
        Some(EventView::TrueColorSupported)
    } else {
        None
    }
}

/// One byte of a status reply.
pub open spec fn status_parse(s: StatusState, key: u8) -> (FlowView, StatusState) {
    match s.sequence {
        StatusSequence::Start => if key == 114 {
            (FlowView::Continue(None), StatusState { sequence: StatusSequence::Value, ..s })
        } else {
            (FlowView::Break(None), s)
        },
        StatusSequence::Value => if key == 0x1b {
            (FlowView::Continue(None), status_terminate(s))
        } else if key == 59 {
            (FlowView::Continue(None), status_push_value(s))
        } else {
            (FlowView::Continue(None), StatusState { buffer: s.buffer.push(key), ..s })
        },
        StatusSequence::Terminator => (FlowView::Break(status_event(s, key)), s),
    }
}

/// Reader of a status reply.
#[derive(Clone)]
pub struct StatusParser {
    code: u8,
    op: Option<u8>,
    sequence: StatusSequence,
    buffer: Vec<u8>,
    values: Vec<String>,
}

impl View for StatusParser {
    type V = StatusState;

    closed spec fn view(&self) -> StatusState {
        StatusState {
            code: self.code,
            op: self.op,
            sequence: self.sequence,
            buffer: self.buffer@,
            values: self.values@.map_values(|v: String| v@),
        }
    }
}

/// Whether one value is an SGR parameter that sets a 24-bit color.
fn true_color_param(bytes: &[u8]) -> (b: bool)
    ensures
        b == is_true_color_param(bytes@),
{
    let mut val: u8 = 0;
    let mut set: Vec<u8> = Vec::new();
    let mut i: usize = 0;
    while i < bytes.len()
        invariant_except_break
            i <= bytes.len(),
            (val, set@, false) == sgr_scan(bytes@.take(i as int)),
            i == bytes.len() ==> bytes@.take(i as int) =~= bytes@,
        ensures
            (val, set@) == ({
                let (v, s, _) = sgr_scan(bytes@);
                (v, s)
            }),
        decreases bytes.len() - i,
    {
        let c = bytes[i];
        proof {
            assert(bytes@.take(i + 1).drop_last() =~= bytes@.take(i as int));
        }
        if 48 <= c && c <= 57 {
            val = (((val as u32) * 10 + (c as u32) - 48) % 256) as u8;
        } else if c == 58 {
            set.push(val);
            val = 0;
        } else {
            proof {
                lemma_sgr_scan_stopped(bytes@, i + 1);
            }
            break;
        }
        i = i + 1;
    }
    set.push(val);
    set.len() > 4 && set[1] == 2 && (set[0] == 38 || set[0] == 48)
}

/// Once the scan of a value stops (at a byte other than a digit or `:`),
/// the bytes after that point change nothing.
pub(crate) proof fn lemma_sgr_scan_stopped(bytes: Seq<u8>, k: int)
    requires
        0 < k <= bytes.len(),
        sgr_scan(bytes.take(k)).2,
    ensures
        sgr_scan(bytes) == sgr_scan(bytes.take(k)),
    decreases bytes.len() - k,
{
    if k == bytes.len() {
        assert(bytes.take(k) =~= bytes);
    } else {
        assert(bytes.take(k + 1).drop_last() =~= bytes.take(k));
        lemma_sgr_scan_stopped(bytes, k + 1);
    }
}

impl StatusParser {
    pub fn new(code: u8) -> (p: Self)
        ensures
            p@ == (StatusState {
                code,
                op: None,
                sequence: StatusSequence::Start,
                buffer: seq![],
                values: seq![],
            }),
    {
        let p = StatusParser {
            code,
            op: None,
            sequence: StatusSequence::Start,
            buffer: Vec::new(),
            values: Vec::new(),
        };
        assert(p@.values =~= seq![]);
        p
    }

    /// Reads one byte of the reply.
    pub fn parse(&mut self, key: u8) -> (flow: ParseControlFlow)
        ensures
            (flow_view(flow), final(self)@) == status_parse(old(self)@, key),
    {
        self.sequence = match self.sequence {
            StatusSequence::Start => {
                if key == 114 {
                    StatusSequence::Value
                } else {
                    return ControlFlow::Break(None);
                }
            },
            StatusSequence::Value => {
                if key == 0x1b {
                    self.terminate()
                } else if key == 59 {
                    self.push_value()
                } else {
                    self.push_char(key)
                }
            },
            StatusSequence::Terminator => {
                return ControlFlow::Break(self.parse_event(key));
            },
        };
        ControlFlow::Continue(None)
    }

    fn terminate(&mut self) -> (s: StatusSequence)
        ensures
            s == StatusSequence::Terminator,
            (StatusState { sequence: s, ..final(self)@ }) == status_terminate(old(self)@),
    {
        self.op = self.buffer.pop();
        self.push_value();
        StatusSequence::Terminator
    }

    fn push_char(&mut self, key: u8) -> (s: StatusSequence)
        ensures
            s == StatusSequence::Value,
            final(self)@ == (StatusState { buffer: old(self)@.buffer.push(key), ..old(self)@ }),
    {
        self.buffer.push(key);
        StatusSequence::Value
    }

    fn push_value(&mut self) -> (s: StatusSequence)
        ensures
            s == StatusSequence::Value,
            final(self)@ == status_push_value(old(self)@),
    {
        let mut buffer: Vec<u8> = Vec::new();
        std::mem::swap(&mut buffer, &mut self.buffer);
        let ghost before = self.values@;
        if let Some(str) = string_from_utf8(buffer) {
            self.values.push(str);
            assert(self.values@.map_values(|v: String| v@) =~= before.map_values(
                |v: String| v@,
            ).push(str@));
        }
        StatusSequence::Value
    }

    fn parse_event(&self, key: u8) -> (e: Option<Event>)
        ensures
            match e {
                Some(e) => Some(e@),
                None => None,
            } == status_event(self@, key),
    {
        let op_is_sgr = match self.op {
            Some(op) => op == 109,
            None => false,
        };
        if key == 92 && self.code == 49 && op_is_sgr {
            let mut i: usize = 0;
            while i < self.values.len()
                invariant
                    i <= self.values.len(),
                    key == 92 && self@.code == 49 && self@.op == Some(109u8),
                    forall|j: int|
                        0 <= j < i ==> !is_true_color_param(
                            #[trigger] encode_utf8(self@.values[j]),
                        ),
                decreases self.values.len() - i,
            {
                let value = &self.values[i];
                let bytes = value.as_str().as_bytes();
                assert(self@.values[i as int] == value@);
                assert(bytes@ == encode_utf8(value@));
                if true_color_param(bytes) {
                    assert(is_true_color_param(encode_utf8(self@.values[i as int])));
                    return Some(Event::Terminal(TerminalEvent::TrueColorSupported));
                }
                i = i + 1;
            }
        }
        None
    }
}


/// A status reader that has read nothing, for reply code `code`.
pub open spec fn status_start(code: u8) -> StatusState {
    StatusState { code, op: None, sequence: StatusSequence::Start, buffer: seq![], values: seq![] }
}

/// The answers of a status reader fed `bytes` one at a time from state
/// `s`, and its state afterwards.
pub open spec fn status_run(s: StatusState, bytes: Seq<u8>) -> (Seq<FlowView>, StatusState)
    decreases bytes.len(),
{
    if bytes.len() == 0 {
        (seq![], s)
    } else {
        let (flow, next) = status_parse(s, bytes[0]);
        let (flows, last) = status_run(next, bytes.drop_first());
        (seq![flow] + flows, last)
    }
}

proof fn lemma_status_run_split(s: StatusState, a: Seq<u8>, b: Seq<u8>)
    ensures
        ({
            let (first, mid) = status_run(s, a);
            let (second, last) = status_run(mid, b);
            status_run(s, a + b) == (first + second, last)
        }),
    decreases a.len(),
{
    if a.len() == 0 {
        assert(a + b =~= b);
        assert(seq![] + status_run(s, b).0 =~= status_run(s, b).0);
    } else {
        let (flow, next) = status_parse(s, a[0]);
        lemma_status_run_split(next, a.drop_first(), b);
        assert((a + b).drop_first() =~= a.drop_first() + b);
        assert((a + b)[0] == a[0]);
        let (first, mid) = status_run(next, a.drop_first());
        let (second, last) = status_run(mid, b);
        assert(seq![flow] + (first + second) =~= (seq![flow] + first) + second);
    }
}

/// The fold follows the reader byte by byte: one more byte, fed to the
/// state that the fold reached, adds the answer that `StatusParser::parse` gives for it
/// (see its `ensures`); so a reader fed bytes one call at a time answers
/// what the fold gives.
pub proof fn lemma_status_run_snoc(s: StatusState, a: Seq<u8>, k: u8)
    ensures
        ({
            let (first, mid) = status_run(s, a);
            status_run(s, a + seq![k]) == (first.push(status_parse(mid, k).0), status_parse(mid, k).1)
        }),
{
    lemma_status_run_split(s, a, seq![k]);
    let mid = status_run(s, a).1;
    let (flow, next) = status_parse(mid, k);
    assert(seq![k].drop_first() =~= Seq::<u8>::empty());
    assert(status_run(next, Seq::<u8>::empty()) == (Seq::<FlowView>::empty(), next));
    assert(status_run(mid, seq![k]).0 =~= seq![flow]);
    assert(status_run(s, a).0 + seq![flow] =~= status_run(s, a).0.push(flow));
}

/// Bytes that may stand among a reply's values: no escape.
pub open spec fn is_status_text(b: Seq<u8>) -> bool {
    forall|i: int| 0 <= i < b.len() ==> #[trigger] b[i] != 0x1b
}

/// The bytes of the values go on, and leave the reader among the values.
proof fn lemma_status_values(s: StatusState, b: Seq<u8>)
    requires
        s.sequence == StatusSequence::Value,
        is_status_text(b),
    ensures
        status_run(s, b).0 == continues(b.len()),
        status_run(s, b).1.sequence == StatusSequence::Value,
        status_run(s, b).1.code == s.code,
    decreases b.len(),
{
    if b.len() == 0 {
        assert(continues(0) =~= seq![]);
    } else {
        assert(b[0] != 0x1b);
        let next = status_parse(s, b[0]).1;
        assert(is_status_text(b.drop_first())) by {
            assert forall|i: int| 0 <= i < b.drop_first().len() implies #[trigger] b.drop_first()[i]
                != 0x1b by {
                assert(b.drop_first()[i] == b[i + 1]);
            }
        }
        lemma_status_values(next, b.drop_first());
        assert(seq![FlowView::Continue(None)] + continues((b.len() - 1) as nat) =~= continues(
            b.len(),
        ));
    }
}

/// A whole status reply read byte by byte: a first byte other than `r`
/// ends it at once with no event; otherwise every byte goes on up to and
/// including the escape after the values, and the byte after it ends the
/// reply with the reply's event (see [`status_event`]) for the values and
/// operation read.
pub proof fn lemma_status_reply(code: u8, k0: u8, values: Seq<u8>, k: u8)
    requires
        is_status_text(values),
    ensures
        k0 != 114 ==> status_run(status_start(code), seq![k0]).0 == seq![FlowView::Break(None)],
        ({
            let read = status_run(status_start(code), seq![114u8] + values + seq![0x1bu8]).1;
            &&& read.sequence == StatusSequence::Terminator
            &&& read.code == code
            &&& status_run(status_start(code), seq![114u8] + values + seq![0x1bu8] + seq![k]).0
                == continues(values.len() + 2).push(FlowView::Break(status_event(read, k)))
        }),
{
    let s = status_start(code);
    lemma_status_run_snoc(s, Seq::<u8>::empty(), k0);
    assert(Seq::<u8>::empty() + seq![k0] =~= seq![k0]);
    let r = seq![114u8];
    lemma_status_run_snoc(s, Seq::<u8>::empty(), 114u8);
    assert(Seq::<u8>::empty() + r =~= r);
    let s1 = StatusState { sequence: StatusSequence::Value, ..s };
    assert(status_run(s, r) == (seq![FlowView::Continue(None)], s1));
    lemma_status_values(s1, values);
    lemma_status_run_split(s, r, values);
    assert(seq![FlowView::Continue(None)] + continues(values.len()) =~= continues(
        values.len() + 1,
    ));
    let a = r + values;
    lemma_status_run_snoc(s, a, 0x1bu8);
    lemma_status_run_snoc(s, a + seq![0x1bu8], k);
    assert(continues(values.len() + 1).push(FlowView::Continue(None)) =~= continues(
        values.len() + 2,
    ));
}

} // verus!
