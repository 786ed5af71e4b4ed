use std::ops::ControlFlow;

use vstd::prelude::*;
use vstd::utf8::{decode_utf8, valid_utf8};

use crate::input::parser::{continues, flow_view, Event, EventView, FlowView, ParseControlFlow, TerminalEvent};
use crate::utils::text::{decode_hex, hex_bytes};
use crate::utils::unicode::string_from_utf8;

verus! {

/// Where a resource reply (`ESC P 1 + r name = value ESC \`) is.
#[derive(Clone, Copy, Debug, PartialEq, Eq, Structural)]
pub enum ResourceSequence {
    Start,
    Name,
    Value,
    Terminator,
}

/// The abstract state of a resource reply being read.
pub struct ResourceState {
    pub code: u8,
    pub sequence: ResourceSequence,
    pub name: Seq<u8>,
    pub value: Seq<u8>,
}

/// The text that a hex string encodes: its bytes, when they are UTF-8.
pub open spec fn hex_text(s: Seq<u8>) -> Option<Seq<char>> {
    match hex_bytes(s) {
        Some(b) => if valid_utf8(b) {
            Some(decode_utf8(b))
        } else {
            None
        },
        None => None,
    }
}

/// The event of a finished resource reply: the terminal's name, when the
/// reply was successful (code `1`), properly terminated, and about `TN`.
pub open spec fn resource_event(r: ResourceState, key: u8) -> Option<EventView> {
    if key == 92 && r.code == 49 {
        match (hex_text(r.name), hex_text(r.value)) {
            (Some(name), Some(value)) => if name == seq!['T', 'N'] {
                Some(EventView::TerminalName(value))
            } else {
                None
            },
            _ => None,
        }
    } else {
        None
    }
}

/// One byte of a resource reply.
pub open spec fn resource_parse(r: ResourceState, key: u8) -> (FlowView, ResourceState) {
    match r.sequence {
        ResourceSequence::Start => if key == 114 {
            (FlowView::Continue(None), ResourceState { sequence: ResourceSequence::Name, ..r })
        } else {
            (FlowView::Break(None), r)
        },
        ResourceSequence::Name => if key == 0x1b {
            (FlowView::Continue(None), ResourceState { sequence: ResourceSequence::Terminator, ..r })
        } else if key == 61 {
            (FlowView::Continue(None), ResourceState { sequence: ResourceSequence::Value, ..r })
        } else {
            (FlowView::Continue(None), ResourceState { name: r.name.push(key), ..r })
        },
        ResourceSequence::Value => if key == 0x1b {
            (FlowView::Continue(None), ResourceState { sequence: ResourceSequence::Terminator, ..r })
        } else {
            (FlowView::Continue(None), ResourceState { value: r.value.push(key), ..r })
        },
        ResourceSequence::Terminator => (FlowView::Break(resource_event(r, key)), r),
    }
}

/// Reader of a resource reply.
#[derive(Clone)]
pub struct ResourceParser {
    code: u8,
    sequence: ResourceSequence,
    name: Vec<u8>,
    value: Vec<u8>,
}

impl View for ResourceParser {
    type V = ResourceState;

    closed spec fn view(&self) -> ResourceState {
        ResourceState {
            code: self.code,
            sequence: self.sequence,
            name: self.name@,
            value: self.value@,
        }
    }
}

impl ResourceParser {
    pub fn new(code: u8) -> (p: Self)
        ensures
            p@ == (ResourceState {
                code,
                sequence: ResourceSequence::Start,
                name: seq![],
                value: seq![],
            }),
    {
        ResourceParser { code, sequence: ResourceSequence::Start, name: Vec::new(), value: Vec::new() }
    }

    /// Reads one byte of the reply.
    pub fn parse(&mut self, key: u8) -> (flow: ParseControlFlow)
        ensures
            (flow_view(flow), final(self)@) == resource_parse(old(self)@, key),
    {
        self.sequence = match self.sequence {
            ResourceSequence::Start => {
                if key == 114 {
                    ResourceSequence::Name
                } else {
                    return ControlFlow::Break(None);
                }
            },
            ResourceSequence::Name => {
                if key == 0x1b {
                    ResourceSequence::Terminator
                } else if key == 61 {
                    ResourceSequence::Value
                } else {
                    self.push_char(key)
                }
            },
            ResourceSequence::Value => {
                if key == 0x1b {
                    ResourceSequence::Terminator
                } else {
                    self.push_char(key)
                }
            },
            ResourceSequence::Terminator => {
                return ControlFlow::Break(self.parse_event(key));
            },
        };
        ControlFlow::Continue(None)
    }

    fn push_char(&mut self, key: u8) -> (s: ResourceSequence)
        ensures
            s == old(self)@.sequence,
            final(self)@ == match old(self)@.sequence {
                ResourceSequence::Name => ResourceState { name: old(self)@.name.push(key), ..old(self)@ },
                ResourceSequence::Value => ResourceState { value: old(self)@.value.push(key), ..old(self)@ },
                _ => old(self)@,
            },
    {
        match self.sequence {
            ResourceSequence::Name => self.name.push(key),
            ResourceSequence::Value => self.value.push(key),
            _ => {},
        }
        self.sequence
    }

    fn parse_event(&self, key: u8) -> (e: Option<Event>)
        ensures
            match e {
                Some(e) => Some(e@),
                None => None,
            } == resource_event(self@, key),
    {
        if key == 92 && self.code == 49 {
            let name = read_hex_string(self.name.as_slice());
            let value = read_hex_string(self.value.as_slice());
            if let (Some(name), Some(value)) = (name, value) {
                let tn = "TN".to_owned();
                proof {
                    reveal_strlit("TN");
                    assert(tn@ =~= seq!['T', 'N']);
                }
                if name == tn {
                    return Some(Event::Terminal(TerminalEvent::Name(value)));
                }
            }
        }
        None
    }
}

/// Decodes text written as hexadecimal bytes, two characters per byte; an
/// odd last character is ignored.
pub fn read_hex_string(str: &[u8]) -> (s: Option<String>)
    ensures
        match s {
            Some(s) => hex_text(str@) == Some(s@),
            None => hex_text(str@) is None,
        },
{
    match decode_hex(str) {
        None => None,
        Some(vec) => string_from_utf8(vec),
    }
}


/// A resource reader that has read nothing, for reply code `code`.
pub open spec fn resource_start(code: u8) -> ResourceState {
    ResourceState { code, sequence: ResourceSequence::Start, name: seq![], value: seq![] }
}

/// The answers of a resource reader fed `bytes` one at a time from state
/// `r`, and its state afterwards.
pub open spec fn resource_run(r: ResourceState, bytes: Seq<u8>) -> (Seq<FlowView>, ResourceState)
    decreases bytes.len(),
{
    if bytes.len() == 0 {
        (seq![], r)
    } else {
        let (flow, next) = resource_parse(r, bytes[0]);
        let (flows, last) = resource_run(next, bytes.drop_first());
        (seq![flow] + flows, last)
    }
}

proof fn lemma_resource_run_split(r: ResourceState, a: Seq<u8>, b: Seq<u8>)
    ensures
        ({
            let (first, mid) = resource_run(r, a);
            let (second, last) = resource_run(mid, b);
            resource_run(r, a + b) == (first + second, last)
        }),
    decreases a.len(),
{
    if a.len() == 0 {
        assert(a + b =~= b);
        assert(seq![] + resource_run(r, b).0 =~= resource_run(r, b).0);
    } else {
        let (flow, next) = resource_parse(r, a[0]);
        lemma_resource_run_split(next, a.drop_first(), b);
        assert((a + b).drop_first() =~= a.drop_first() + b);
        assert((a + b)[0] == a[0]);
        let (first, mid) = resource_run(next, a.drop_first());
        let (second, last) = resource_run(mid, b);
        assert(seq![flow] + (first + second) =~= (seq![flow] + first) + second);
    }
}

/// The fold follows the reader byte by byte: one more byte, fed to the
/// state that the fold reached, adds the answer that `ResourceParser::parse` gives for it
/// (see its `ensures`); so a reader fed bytes one call at a time answers
/// what the fold gives.
pub proof fn lemma_resource_run_snoc(r: ResourceState, a: Seq<u8>, k: u8)
    ensures
        ({
            let (first, mid) = resource_run(r, a);
            resource_run(r, a + seq![k]) == (
                first.push(resource_parse(mid, k).0),
                resource_parse(mid, k).1,
            )
        }),
{
    lemma_resource_run_split(r, a, seq![k]);
    let mid = resource_run(r, a).1;
    let (flow, next) = resource_parse(mid, k);
    assert(seq![k].drop_first() =~= Seq::<u8>::empty());
    assert(resource_run(next, Seq::<u8>::empty()) == (Seq::<FlowView>::empty(), next));
    assert(resource_run(mid, seq![k]).0 =~= seq![flow]);
    assert(resource_run(r, a).0 + seq![flow] =~= resource_run(r, a).0.push(flow));
}

/// Bytes that may stand in a resource's name: no escape and no `=`.
pub open spec fn is_name_text(b: Seq<u8>) -> bool {
    forall|i: int| 0 <= i < b.len() ==> #[trigger] b[i] != 0x1b && b[i] != 61
}

/// Bytes that may stand in a resource's value: no escape.
pub open spec fn is_value_text(b: Seq<u8>) -> bool {
    forall|i: int| 0 <= i < b.len() ==> #[trigger] b[i] != 0x1b
}

/// The bytes of a name go on, and gather into the name.
proof fn lemma_resource_name(r: ResourceState, n: Seq<u8>)
    requires
        r.sequence == ResourceSequence::Name,
        is_name_text(n),
    ensures
        resource_run(r, n) == (continues(n.len()), ResourceState { name: r.name + n, ..r }),
    decreases n.len(),
{
    if n.len() == 0 {
        assert(r.name + n =~= r.name);
        assert(continues(0) =~= seq![]);
    } else {
        assert(n[0] != 0x1b && n[0] != 61);
        let next = ResourceState { name: r.name.push(n[0]), ..r };
        assert(is_name_text(n.drop_first())) by {
            assert forall|i: int| 0 <= i < n.drop_first().len() implies #[trigger] n.drop_first()[i]
                != 0x1b && n.drop_first()[i] != 61 by {
                assert(n.drop_first()[i] == n[i + 1]);
            }
        }
        lemma_resource_name(next, n.drop_first());
        assert(next.name + n.drop_first() =~= r.name + n);
        assert(seq![FlowView::Continue(None)] + continues((n.len() - 1) as nat) =~= continues(
            n.len(),
        ));
    }
}

/// The bytes of a value go on, and gather into the value.
proof fn lemma_resource_value(r: ResourceState, v: Seq<u8>)
    requires
        r.sequence == ResourceSequence::Value,
        is_value_text(v),
    ensures
        resource_run(r, v) == (continues(v.len()), ResourceState { value: r.value + v, ..r }),
    decreases v.len(),
{
    if v.len() == 0 {
        assert(r.value + v =~= r.value);
        assert(continues(0) =~= seq![]);
    } else {
        assert(v[0] != 0x1b);
        let next = ResourceState { value: r.value.push(v[0]), ..r };
        assert(is_value_text(v.drop_first())) by {
            assert forall|i: int| 0 <= i < v.drop_first().len() implies #[trigger] v.drop_first()[i]
                != 0x1b by {
                assert(v.drop_first()[i] == v[i + 1]);
            }
        }
        lemma_resource_value(next, v.drop_first());
        assert(next.value + v.drop_first() =~= r.value + v);
        assert(seq![FlowView::Continue(None)] + continues((v.len() - 1) as nat) =~= continues(
            v.len(),
        ));
    }
}

/// A whole resource reply read byte by byte: a first byte other than `r`
/// ends it at once with no event; otherwise every byte goes on up to and
/// including the escape after the name (and the `=` and value, when there
/// is one), and the byte after the escape ends it with the event of the
/// reply: the terminal's name exactly when that byte is `\`, the code is
/// `1`, the name decodes from hex to `TN` and the value from hex to UTF-8.
pub proof fn lemma_resource_reply(code: u8, k0: u8, name: Seq<u8>, value: Seq<u8>, k: u8)
    requires
        is_name_text(name),
        is_value_text(value),
    ensures
        k0 != 114 ==> resource_run(resource_start(code), seq![k0]).0 == seq![
            FlowView::Break(None),
        ],
        resource_run(
            resource_start(code),
            seq![114u8] + name + seq![61u8] + value + seq![0x1bu8] + seq![k],
        ).0 == continues(name.len() + value.len() + 3).push(
            FlowView::Break(
                resource_event(
                    ResourceState {
                        code,
                        sequence: ResourceSequence::Terminator,
                        name,
                        value,
                    },
                    k,
                ),
            ),
        ),
        resource_run(resource_start(code), seq![114u8] + name + seq![0x1bu8] + seq![k]).0
            == continues(name.len() + 2).push(
            FlowView::Break(
                resource_event(
                    ResourceState {
                        code,
                        sequence: ResourceSequence::Terminator,
                        name,
                        value: seq![],
                    },
                    k,
                ),
            ),
        ),
{
    let s = resource_start(code);
    lemma_resource_run_snoc(s, Seq::<u8>::empty(), k0);
    assert(Seq::<u8>::empty() + seq![k0] =~= seq![k0]);
    let r = seq![114u8];
    lemma_resource_run_snoc(s, Seq::<u8>::empty(), 114u8);
    assert(Seq::<u8>::empty() + r =~= r);
    let s1 = ResourceState { sequence: ResourceSequence::Name, ..s };
    assert(resource_run(s, r) == (seq![FlowView::Continue(None)], s1));
    lemma_resource_name(s1, name);
    lemma_resource_run_split(s, r, name);
    let s2 = ResourceState { name: s1.name + name, ..s1 };
    assert(s1.name + name =~= name);
    let a = r + name;
    assert(resource_run(s, a) == (seq![FlowView::Continue(None)] + continues(name.len()), s2));
    assert(seq![FlowView::Continue(None)] + continues(name.len()) =~= continues(name.len() + 1));
    // without a value
    lemma_resource_run_snoc(s, a, 0x1bu8);
    let t = ResourceState { sequence: ResourceSequence::Terminator, ..s2 };
    lemma_resource_run_snoc(s, a + seq![0x1bu8], k);
    assert(continues(name.len() + 1).push(FlowView::Continue(None)) =~= continues(
        name.len() + 2,
    ));
    // with a value
    lemma_resource_run_snoc(s, a, 61u8);
    let s3 = ResourceState { sequence: ResourceSequence::Value, ..s2 };
    let b = a + seq![61u8];
    lemma_resource_value(s3, value);
    lemma_resource_run_split(s, b, value);
    let s4 = ResourceState { value: s3.value + value, ..s3 };
    assert(s3.value + value =~= value);
    assert(continues(name.len() + 1).push(FlowView::Continue(None)) + continues(value.len())
        =~= continues(name.len() + value.len() + 2));
    let c = b + value;
    lemma_resource_run_snoc(s, c, 0x1bu8);
    lemma_resource_run_snoc(s, c + seq![0x1bu8], k);
    assert(continues(name.len() + value.len() + 2).push(FlowView::Continue(None)) =~= continues(
        name.len() + value.len() + 3,
    ));
}

} // verus!
