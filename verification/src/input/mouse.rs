use std::ops::ControlFlow;

use vstd::prelude::*;

use super::parser::{continues, flow_view, Event, EventView, FlowView, ParseControlFlow};
use crate::utils::text::{parse_u32, parse_unsigned};

verus! {

/// The abstract state of a mouse report being read: the digits of the
/// current number, and the button, column and row read so far.
pub struct MouseState {
    pub buf: Seq<u8>,
    pub btn: Option<u32>,
    pub col: Option<u32>,
    pub row: Option<u32>,
}

impl MouseState {
    pub open spec fn empty() -> MouseState {
        MouseState { buf: seq![], btn: None, col: None, row: None }
    }
}

/// Reads the pending number into the first of button, column and row that
/// is still missing; fails when the number is malformed or all three are
/// already there. The pending digits are dropped either way.
pub open spec fn mouse_read(m: MouseState) -> (MouseState, bool) {
    let cleared = MouseState { buf: seq![], ..m };
    match parse_unsigned(m.buf, u32::MAX as nat) {
        None => (cleared, false),
        Some(n) => {
            let num = Some(n as u32);
            if m.btn is None {
                (MouseState { btn: num, ..cleared }, true)
            } else if m.col is None {
                (MouseState { col: num, ..cleared }, true)
            } else if m.row is None {
                (MouseState { row: num, ..cleared }, true)
            } else {
                (cleared, false)
            }
        },
    }
}

/// `true` when every bit of `mask` is set in `btn`.
pub open spec fn has_mask(btn: u32, mask: u32) -> bool {
    mask & btn == mask
}

/// A one-based terminal coordinate made zero-based; 0 wraps around.
pub open spec fn zero_based(v: u32) -> usize {
    if v == 0 {
        usize::MAX
    } else {
        (v - 1) as usize
    }
}

/// The event that an SGR mouse report `btn;col;row` stands for; `release`
/// tells a release (`m`) from a press or motion (`M`).
pub open spec fn mouse_event(btn: u32, col: u32, row: u32, release: bool) -> EventView {
    if has_mask(btn, 0x41) {
        EventView::Scroll(-1isize)
    } else if has_mask(btn, 0x40) {
        EventView::Scroll(1isize)
    } else {
        let col = zero_based(col);
        let row = zero_based(row);
        if release {
            EventView::MouseUp { row, col }
        } else if has_mask(btn, 0x20) {
            EventView::MouseMove { row, col }
        } else {
            EventView::MouseDown { row, col }
        }
    }
}

/// Ends a report on `key` (`m` or `M`): reads the last number, then makes
/// the event if button, column and row are all known.
pub open spec fn mouse_get(m: MouseState, key: u8) -> (MouseState, Option<EventView>) {
    let (next, ok) = mouse_read(m);
    if !ok {
        (next, None)
    } else {
        match (next.btn, next.col, next.row) {
            (Some(btn), Some(col), Some(row)) => (next, Some(mouse_event(btn, col, row, key == 109))),
            _ => (next, None),
        }
    }
}

/// One byte of a mouse report: `m`/`M` end it, `;` separates numbers, any
/// other byte is part of the current number.
pub open spec fn mouse_parse(m: MouseState, key: u8) -> (FlowView, MouseState) {
    if key == 109 || key == 77 {
        let (next, e) = mouse_get(m, key);
        (FlowView::Break(e), next)
    } else if key == 59 {
        let (next, ok) = mouse_read(m);
        if ok {
            (FlowView::Continue(None), next)
        } else {
            (FlowView::Break(None), next)
        }
    } else {
        (FlowView::Continue(None), MouseState { buf: m.buf.push(key), ..m })
    }
}

/// Reader of an SGR mouse report (`ESC [ <` btn `;` col `;` row `M`/`m`).
#[derive(Clone, Debug)]
pub struct Mouse {
    buf: Vec<u8>,
    btn: Option<u32>,
    col: Option<u32>,
    row: Option<u32>,
}

impl View for Mouse {
    type V = MouseState;

    closed spec fn view(&self) -> MouseState {
        MouseState { buf: self.buf@, btn: self.btn, col: self.col, row: self.row }
    }
}

fn zero_based_exec(v: u32) -> (r: usize)
    ensures
        r == zero_based(v),
{
    if v == 0 {
        usize::MAX
    } else {
        (v - 1) as usize
    }
}

impl Mouse {
    pub fn new() -> (m: Mouse)
        ensures
            m@ == MouseState::empty(),
    {
        Mouse { buf: Vec::new(), btn: None, col: None, row: None }
    }

    /// Reads one byte of the report.
    pub fn parse(&mut self, key: u8) -> (flow: ParseControlFlow)
        ensures
            (flow_view(flow), final(self)@) == mouse_parse(old(self)@, key),
    {
        if key == 109 || key == 77 {
            ControlFlow::Break(self.get(key))
        } else if key == 59 {
            if self.read() {
                ControlFlow::Continue(None)
            } else {
                ControlFlow::Break(None)
            }
        } else {
            self.buf.push(key);
            ControlFlow::Continue(None)
        }
    }

    fn read(&mut self) -> (ok: bool)
        ensures
            (final(self)@, ok) == mouse_read(old(self)@),
    {
        let mut buf: Vec<u8> = Vec::new();
        std::mem::swap(&mut buf, &mut self.buf);
        let num = match parse_u32(buf.as_slice()) {
            None => {
                return false;
            },
            Some(n) => Some(n),
        };
        if self.btn.is_none() {
            self.btn = num;
        } else if self.col.is_none() {
            self.col = num;
        } else if self.row.is_none() {
            self.row = num;
        } else {
            return false;
        }
        true
    }

    fn get(&mut self, key: u8) -> (e: Option<Event>)
        ensures
            (final(self)@, match e {
                Some(e) => Some(e@),
                None => None,
            }) == mouse_get(old(self)@, key),
    {
        if !self.read() {
            return None;
        }
        match (self.btn, self.col, self.row) {
            (Some(btn), Some(col), Some(row)) => {
                if 0x41 & btn == 0x41 {
                    Some(Event::Scroll { delta: -1 })
                } else if 0x40 & btn == 0x40 {
                    Some(Event::Scroll { delta: 1 })
                } else {
                    let col = zero_based_exec(col);
                    let row = zero_based_exec(row);
                    if key == 109 {
                        Some(Event::MouseUp { row, col })
                    } else if 0x20 & btn == 0x20 {
                        Some(Event::MouseMove { row, col })
                    } else {
                        Some(Event::MouseDown { row, col })
                    }
                }
            },
            _ => None,
        }
    }
}


/// The answers of a mouse reader fed `bytes` one at a time from state `m`,
/// and its state afterwards.
pub open spec fn mouse_run(m: MouseState, bytes: Seq<u8>) -> (Seq<FlowView>, MouseState)
    decreases bytes.len(),
{
    if bytes.len() == 0 {
        (seq![], m)
    } else {
        let (flow, next) = mouse_parse(m, bytes[0]);
        let (flows, last) = mouse_run(next, bytes.drop_first());
        (seq![flow] + flows, last)
    }
}

/// The fold follows the reader byte by byte: one more byte, fed to the
/// state that the fold reached, adds the answer that `Mouse::parse` gives for it
/// (see its `ensures`); so a reader fed bytes one call at a time answers
/// what the fold gives.
pub proof fn lemma_mouse_run_snoc(m: MouseState, a: Seq<u8>, k: u8)
    ensures
        ({
            let (first, mid) = mouse_run(m, a);
            mouse_run(m, a + seq![k]) == (first.push(mouse_parse(mid, k).0), mouse_parse(mid, k).1)
        }),
{
    lemma_mouse_run_split(m, a, seq![k]);
    lemma_mouse_run_one(mouse_run(m, a).1, k);
    assert(mouse_run(m, a).0 + seq![mouse_parse(mouse_run(m, a).1, k).0] =~= mouse_run(m, a).0.push(
        mouse_parse(mouse_run(m, a).1, k).0,
    ));
}

/// Bytes of one number of a report: no `;`, `m` or `M`.
pub open spec fn is_field(b: Seq<u8>) -> bool {
    forall|i: int| 0 <= i < b.len() ==> #[trigger] b[i] != 59 && b[i] != 109 && b[i] != 77
}

/// The number that the bytes of a field write, if any.
pub open spec fn field_number(b: Seq<u8>) -> Option<nat> {
    parse_unsigned(b, u32::MAX as nat)
}

proof fn lemma_mouse_run_split(m: MouseState, a: Seq<u8>, b: Seq<u8>)
    ensures
        ({
            let (first, mid) = mouse_run(m, a);
            let (second, last) = mouse_run(mid, b);
            mouse_run(m, a + b) == (first + second, last)
        }),
    decreases a.len(),
{
    if a.len() == 0 {
        assert(a + b =~= b);
        assert(seq![] + mouse_run(m, b).0 =~= mouse_run(m, b).0);
    } else {
        let (flow, next) = mouse_parse(m, a[0]);
        lemma_mouse_run_split(next, a.drop_first(), b);
        assert((a + b).drop_first() =~= a.drop_first() + b);
        assert((a + b)[0] == a[0]);
        let (first, mid) = mouse_run(next, a.drop_first());
        let (second, last) = mouse_run(mid, b);
        assert(seq![flow] + (first + second) =~= (seq![flow] + first) + second);
    }
}

proof fn lemma_mouse_run_one(m: MouseState, k: u8)
    ensures
        mouse_run(m, seq![k]) == (seq![mouse_parse(m, k).0], mouse_parse(m, k).1),
{
    let (flow, next) = mouse_parse(m, k);
    assert(seq![k].drop_first() =~= Seq::<u8>::empty());
    assert(mouse_run(next, Seq::<u8>::empty()) == (Seq::<FlowView>::empty(), next));
    assert(seq![flow] + Seq::<FlowView>::empty() =~= seq![flow]);
}

/// The bytes of a field go on, and gather into the current number.
proof fn lemma_mouse_field(m: MouseState, f: Seq<u8>)
    requires
        is_field(f),
    ensures
        mouse_run(m, f) == (continues(f.len()), MouseState { buf: m.buf + f, ..m }),
    decreases f.len(),
{
    if f.len() == 0 {
        assert(m.buf + f =~= m.buf);
        assert(continues(0) =~= seq![]);
    } else {
        assert(f[0] != 59 && f[0] != 109 && f[0] != 77);
        let next = MouseState { buf: m.buf.push(f[0]), ..m };
        assert(is_field(f.drop_first())) by {
            assert forall|i: int| 0 <= i < f.drop_first().len() implies #[trigger] f.drop_first()[i]
                != 59 && f.drop_first()[i] != 109 && f.drop_first()[i] != 77 by {
                assert(f.drop_first()[i] == f[i + 1]);
            }
        }
        lemma_mouse_field(next, f.drop_first());
        assert(next.buf + f.drop_first() =~= m.buf + f);
        assert(seq![FlowView::Continue(None)] + continues((f.len() - 1) as nat) =~= continues(
            f.len(),
        ));
    }
}

/// Feeding a field and then one byte.
proof fn lemma_mouse_field_then(m: MouseState, f: Seq<u8>, k: u8)
    requires
        is_field(f),
    ensures
        ({
            let gathered = MouseState { buf: m.buf + f, ..m };
            mouse_run(m, f + seq![k]) == (
                continues(f.len()).push(mouse_parse(gathered, k).0),
                mouse_parse(gathered, k).1,
            )
        }),
{
    lemma_mouse_field(m, f);
    lemma_mouse_run_split(m, f, seq![k]);
    lemma_mouse_run_one(MouseState { buf: m.buf + f, ..m }, k);
    assert(continues(f.len()) + seq![mouse_parse(MouseState { buf: m.buf + f, ..m }, k).0]
        =~= continues(f.len()).push(mouse_parse(MouseState { buf: m.buf + f, ..m }, k).0));
}

/// A whole SGR mouse report read byte by byte: every byte goes on until the
/// last; a full report `btn;col;row` ended by `m` or `M` gives its event,
/// while a first number that is not one, a report ended after two numbers,
/// or a fourth number each abandon the report with no event at the byte
/// that ends them.
pub proof fn lemma_mouse_report(
    b1: Seq<u8>,
    b2: Seq<u8>,
    b3: Seq<u8>,
    b4: Seq<u8>,
    key: u8,
)
    requires
        is_field(b1),
        is_field(b2),
        is_field(b3),
        is_field(b4),
        key == 109 || key == 77,
    ensures
        field_number(b1) is None ==> mouse_run(MouseState::empty(), b1 + seq![59u8]).0
            == continues(b1.len()).push(FlowView::Break(None)),
        field_number(b1) is Some && field_number(b2) is Some ==> mouse_run(
            MouseState::empty(),
            b1 + seq![59u8] + b2 + seq![key],
        ).0 == continues(b1.len() + b2.len() + 1).push(FlowView::Break(None)),
        field_number(b1) is Some && field_number(b2) is Some && field_number(b3) is Some
            ==> mouse_run(MouseState::empty(), b1 + seq![59u8] + b2 + seq![59u8] + b3 + seq![key]).0
            == continues(b1.len() + b2.len() + b3.len() + 2).push(
            FlowView::Break(
                Some(
                    mouse_event(
                        field_number(b1)->0 as u32,
                        field_number(b2)->0 as u32,
                        field_number(b3)->0 as u32,
                        key == 109,
                    ),
                ),
            ),
        ),
        field_number(b1) is Some && field_number(b2) is Some && field_number(b3) is Some
            ==> mouse_run(
            MouseState::empty(),
            b1 + seq![59u8] + b2 + seq![59u8] + b3 + seq![59u8] + b4 + seq![59u8],
        ).0 == continues(b1.len() + b2.len() + b3.len() + b4.len() + 3).push(
            FlowView::Break(None),
        ),
{
    let e = MouseState::empty();
    let sep = seq![59u8];
    // first number
    lemma_mouse_field_then(e, b1, 59);
    assert(e.buf + b1 =~= b1);
    let s1 = mouse_parse(MouseState { buf: b1, ..e }, 59).1;
    let p1 = b1 + sep;
    if field_number(b1) is Some {
        // second number
        lemma_mouse_field_then(s1, b2, 59);
        lemma_mouse_field_then(s1, b2, key);
        assert(s1.buf + b2 =~= b2);
        lemma_mouse_run_split(e, p1, b2 + sep);
        lemma_mouse_run_split(e, p1, b2 + seq![key]);
        assert(p1 + (b2 + sep) =~= b1 + sep + b2 + sep);
        assert(p1 + (b2 + seq![key]) =~= b1 + sep + b2 + seq![key]);
        assert(continues(b1.len()).push(FlowView::Continue(None)) + continues(b2.len()).push(
            FlowView::Break(None),
        ) =~= continues(b1.len() + b2.len() + 1).push(FlowView::Break(None)));
        if field_number(b2) is Some {
            let s2 = mouse_parse(MouseState { buf: b2, ..s1 }, 59).1;
            let p2 = b1 + sep + b2 + sep;
            lemma_mouse_field_then(s2, b3, key);
            lemma_mouse_field_then(s2, b3, 59);
            assert(s2.buf + b3 =~= b3);
            lemma_mouse_run_split(e, p2, b3 + seq![key]);
            lemma_mouse_run_split(e, p2, b3 + sep);
            assert(p2 + (b3 + seq![key]) =~= b1 + sep + b2 + sep + b3 + seq![key]);
            assert(p2 + (b3 + sep) =~= b1 + sep + b2 + sep + b3 + sep);
            let ev = FlowView::Break(
                Some(
                    mouse_event(
                        field_number(b1)->0 as u32,
                        field_number(b2)->0 as u32,
                        field_number(b3)->0 as u32,
                        key == 109,
                    ),
                ),
            );
            if field_number(b3) is Some {
                assert(continues(b1.len()).push(FlowView::Continue(None)) + continues(
                    b2.len(),
                ).push(FlowView::Continue(None)) + continues(b3.len()).push(ev) =~= continues(
                    b1.len() + b2.len() + b3.len() + 2,
                ).push(ev));
                let s3 = mouse_parse(MouseState { buf: b3, ..s2 }, 59).1;
                let p3 = b1 + sep + b2 + sep + b3 + sep;
                lemma_mouse_field_then(s3, b4, 59);
                assert(s3.buf + b4 =~= b4);
                lemma_mouse_run_split(e, p3, b4 + sep);
                assert(p3 + (b4 + sep) =~= b1 + sep + b2 + sep + b3 + sep + b4 + sep);
                assert(continues(b1.len()).push(FlowView::Continue(None)) + continues(
                    b2.len(),
                ).push(FlowView::Continue(None)) + continues(b3.len()).push(
                    FlowView::Continue(None),
                ) + continues(b4.len()).push(FlowView::Break(None)) =~= continues(
                    b1.len() + b2.len() + b3.len() + b4.len() + 3,
                ).push(FlowView::Break(None)));
            }
        }
    }
}

/// The kind of event that a full SGR report `btn;col;row` gives is read
/// off the button's bits: with neither scroll bit pattern (bit `0x40`
/// clear), a report ended by `m` is a release, and one ended by `M` is a
/// motion when bit `0x20` is set (as any-event tracking reports a pointer
/// that moves, with or without a button held) and a press otherwise; with
/// bit `0x40` set it is a scroll, up when bit `0x01` is set too. Column and
/// row are one-based in the report and zero-based in the event.
pub proof fn lemma_mouse_report_kind(b1: Seq<u8>, b2: Seq<u8>, b3: Seq<u8>, key: u8)
    requires
        is_field(b1),
        is_field(b2),
        is_field(b3),
        key == 109 || key == 77,
        field_number(b1) is Some,
        field_number(b2) matches Some(n) && n >= 1,
        field_number(b3) matches Some(n) && n >= 1,
    ensures
        ({
            let btn = field_number(b1)->0 as u32;
            let col = (field_number(b2)->0 - 1) as usize;
            let row = (field_number(b3)->0 - 1) as usize;
            let flows = mouse_run(
                MouseState::empty(),
                b1 + seq![59u8] + b2 + seq![59u8] + b3 + seq![key],
            ).0;
            let n = b1.len() + b2.len() + b3.len() + 2;
            &&& btn & 0x40 == 0 && key == 109 ==> flows == continues(n).push(
                FlowView::Break(Some(EventView::MouseUp { row, col })),
            )
            &&& btn & 0x40 == 0 && key == 77 && btn & 0x20 != 0 ==> flows == continues(n).push(
                FlowView::Break(Some(EventView::MouseMove { row, col })),
            )
            &&& btn & 0x40 == 0 && key == 77 && btn & 0x20 == 0 ==> flows == continues(n).push(
                FlowView::Break(Some(EventView::MouseDown { row, col })),
            )
            &&& btn & 0x41 == 0x41 ==> flows == continues(n).push(
                FlowView::Break(Some(EventView::Scroll(-1isize))),
            )
            &&& btn & 0x41 == 0x40 ==> flows == continues(n).push(
                FlowView::Break(Some(EventView::Scroll(1isize))),
            )
        }),
{
    lemma_mouse_report(b1, b2, b3, b3, key);
    let btn = field_number(b1)->0 as u32;
    assert(btn & 0x40 == 0 ==> !(0x41 & btn == 0x41) && !(0x40 & btn == 0x40)) by (bit_vector);
    assert(btn & 0x20 != 0 <==> 0x20 & btn == 0x20) by (bit_vector);
    assert(btn & 0x41 == 0x41 ==> 0x41 & btn == 0x41) by (bit_vector);
    assert(btn & 0x41 == 0x40 ==> !(0x41 & btn == 0x41) && 0x40 & btn == 0x40) by (bit_vector);
    assert(field_number(b2)->0 <= u32::MAX && field_number(b3)->0 <= u32::MAX);
}

} // verus!
