use std::ops::ControlFlow;

use vstd::prelude::*;

use super::resource::{
    resource_parse, resource_run, resource_start, ResourceParser, ResourceSequence, ResourceState,
};
use super::status::{
    status_parse, status_run, status_start, StatusParser, StatusSequence, StatusState,
};
use crate::input::parser::{flow_view, FlowView, ParseControlFlow};

verus! {

enum Sequence {
    Code,
    Type(u8),
    Status(StatusParser),
    Resource(ResourceParser),
}

/// The abstract state of a device control string (`ESC P ...`) being read.
pub enum DcsState {
    Code,
    Type(u8),
    Status(StatusState),
    Resource(ResourceState),
}

/// One byte of a device control string: a reply code (`0` or `1`), then its
/// type (`$` for a status, `+` for a resource), then the reply itself.
pub open spec fn dcs_parse(d: DcsState, key: u8) -> (FlowView, DcsState) {
    match d {
        DcsState::Code => if key == 48 || key == 49 {
            (FlowView::Continue(None), DcsState::Type(key))
        } else {
            (FlowView::Break(None), d)
        },
        DcsState::Type(code) => if key == 36 {
            (
                FlowView::Continue(None),
                DcsState::Status(
                    StatusState {
                        code,
                        op: None,
                        sequence: StatusSequence::Start,
                        buffer: seq![],
                        values: seq![],
                    },
                ),
            )
        } else if key == 43 {
            (
                FlowView::Continue(None),
                DcsState::Resource(
                    ResourceState {
                        code,
                        sequence: ResourceSequence::Start,
                        name: seq![],
                        value: seq![],
                    },
                ),
            )
        } else {
            (FlowView::Break(None), d)
        },
        DcsState::Status(s) => {
            let (flow, next) = status_parse(s, key);
            (flow, DcsState::Status(next))
        },
        DcsState::Resource(r) => {
            let (flow, next) = resource_parse(r, key);
            (flow, DcsState::Resource(next))
        },
    }
}

/// Reader of a device control string.
pub struct DeviceControl {
    sequence: Sequence,
}

impl View for DeviceControl {
    type V = DcsState;

    closed spec fn view(&self) -> DcsState {
        match self.sequence {
            Sequence::Code => DcsState::Code,
            Sequence::Type(code) => DcsState::Type(code),
            Sequence::Status(s) => DcsState::Status(s@),
            Sequence::Resource(r) => DcsState::Resource(r@),
        }
    }
}

impl DeviceControl {
    pub fn new() -> (d: Self)
        ensures
            d@ == DcsState::Code,
    {
        DeviceControl { sequence: Sequence::Code }
    }

    /// Reads one byte of the string.
    pub fn parse(&mut self, key: u8) -> (flow: ParseControlFlow)
        ensures
            (flow_view(flow), final(self)@) == dcs_parse(old(self)@, key),
    {
        let mut sequence = Sequence::Code;
        std::mem::swap(&mut sequence, &mut self.sequence);
        match sequence {
            Sequence::Code => {
                if key == 48 || key == 49 {
                    self.sequence = Sequence::Type(key);
                    ControlFlow::Continue(None)
                } else {
                    self.sequence = Sequence::Code;
                    ControlFlow::Break(None)
                }
            },
            Sequence::Type(code) => {
                if key == 36 {
                    self.sequence = Sequence::Status(StatusParser::new(code));
                    ControlFlow::Continue(None)
                } else if key == 43 {
                    self.sequence = Sequence::Resource(ResourceParser::new(code));
                    ControlFlow::Continue(None)
                } else {
                    self.sequence = Sequence::Type(code);
                    ControlFlow::Break(None)
                }
            },
            Sequence::Status(mut status) => {
                let flow = status.parse(key);
                self.sequence = Sequence::Status(status);
                flow
            },
            Sequence::Resource(mut resource) => {
                let flow = resource.parse(key);
                self.sequence = Sequence::Resource(resource);
                flow
            },
        }
    }
}


/// The answers of a device control reader fed `bytes` one at a time from
/// state `d`, and its state afterwards.
pub open spec fn dcs_run(d: DcsState, bytes: Seq<u8>) -> (Seq<FlowView>, DcsState)
    decreases bytes.len(),
{
    if bytes.len() == 0 {
        (seq![], d)
    } else {
        let (flow, next) = dcs_parse(d, bytes[0]);
        let (flows, last) = dcs_run(next, bytes.drop_first());
        (seq![flow] + flows, last)
    }
}

proof fn lemma_dcs_run_split(d: DcsState, a: Seq<u8>, b: Seq<u8>)
    ensures
        ({
            let (first, mid) = dcs_run(d, a);
            let (second, last) = dcs_run(mid, b);
            dcs_run(d, a + b) == (first + second, last)
        }),
    decreases a.len(),
{
    if a.len() == 0 {
        assert(a + b =~= b);
        assert(seq![] + dcs_run(d, b).0 =~= dcs_run(d, b).0);
    } else {
        let (flow, next) = dcs_parse(d, a[0]);
        lemma_dcs_run_split(next, a.drop_first(), b);
        assert((a + b).drop_first() =~= a.drop_first() + b);
        assert((a + b)[0] == a[0]);
        let (first, mid) = dcs_run(next, a.drop_first());
        let (second, last) = dcs_run(mid, b);
        assert(seq![flow] + (first + second) =~= (seq![flow] + first) + second);
    }
}

/// The fold follows the reader byte by byte: one more byte, fed to the
/// state that the fold reached, adds the answer that `DeviceControl::parse` gives for it
/// (see its `ensures`); so a reader fed bytes one call at a time answers
/// what the fold gives.
pub proof fn lemma_dcs_run_snoc(d: DcsState, a: Seq<u8>, k: u8)
    ensures
        ({
            let (first, mid) = dcs_run(d, a);
            dcs_run(d, a + seq![k]) == (first.push(dcs_parse(mid, k).0), dcs_parse(mid, k).1)
        }),
{
    lemma_dcs_run_split(d, a, seq![k]);
    let mid = dcs_run(d, a).1;
    let (flow, next) = dcs_parse(mid, k);
    assert(seq![k].drop_first() =~= Seq::<u8>::empty());
    assert(dcs_run(next, Seq::<u8>::empty()) == (Seq::<FlowView>::empty(), next));
    assert(dcs_run(mid, seq![k]).0 =~= seq![flow]);
    assert(dcs_run(d, a).0 + seq![flow] =~= dcs_run(d, a).0.push(flow));
}

/// Once a status reply has begun, the device control reader answers what
/// the status reader answers.
proof fn lemma_dcs_status(s: StatusState, bytes: Seq<u8>)
    ensures
        dcs_run(DcsState::Status(s), bytes) == (
            status_run(s, bytes).0,
            DcsState::Status(status_run(s, bytes).1),
        ),
    decreases bytes.len(),
{
    if bytes.len() > 0 {
        lemma_dcs_status(status_parse(s, bytes[0]).1, bytes.drop_first());
    }
}

/// Once a resource reply has begun, the device control reader answers what
/// the resource reader answers.
proof fn lemma_dcs_resource(r: ResourceState, bytes: Seq<u8>)
    ensures
        dcs_run(DcsState::Resource(r), bytes) == (
            resource_run(r, bytes).0,
            DcsState::Resource(resource_run(r, bytes).1),
        ),
    decreases bytes.len(),
{
    if bytes.len() > 0 {
        lemma_dcs_resource(resource_parse(r, bytes[0]).1, bytes.drop_first());
    }
}

/// A whole device control string read byte by byte: a first byte other
/// than `0` or `1` ends it at once; after one of them, a second byte other
/// than `$` or `+` ends it; both go on otherwise, and every later byte gets
/// the answer that a status reader (after `$`) or a resource reader (after
/// `+`) for that code gives when fed the later bytes in order.
pub proof fn lemma_dcs_string(k1: u8, k2: u8, rest: Seq<u8>)
    ensures
        !(k1 == 48 || k1 == 49) ==> dcs_run(DcsState::Code, seq![k1]).0 == seq![
            FlowView::Break(None),
        ],
        (k1 == 48 || k1 == 49) && !(k2 == 36 || k2 == 43) ==> dcs_run(
            DcsState::Code,
            seq![k1, k2],
        ).0 == seq![FlowView::Continue(None), FlowView::Break(None)],
        (k1 == 48 || k1 == 49) && k2 == 36 ==> dcs_run(DcsState::Code, seq![k1, k2] + rest) == (
            seq![FlowView::Continue(None), FlowView::Continue(None)] + status_run(
                status_start(k1),
                rest,
            ).0,
            DcsState::Status(status_run(status_start(k1), rest).1),
        ),
        (k1 == 48 || k1 == 49) && k2 == 43 ==> dcs_run(DcsState::Code, seq![k1, k2] + rest) == (
            seq![FlowView::Continue(None), FlowView::Continue(None)] + resource_run(
                resource_start(k1),
                rest,
            ).0,
            DcsState::Resource(resource_run(resource_start(k1), rest).1),
        ),
{
    reveal_with_fuel(dcs_run, 3);
    assert(seq![k1].drop_first() =~= Seq::<u8>::empty());
    assert(seq![k1, k2].drop_first() =~= seq![k2]);
    assert(seq![k2].drop_first() =~= Seq::<u8>::empty());
    let all = seq![k1, k2] + rest;
    assert(all[0] == k1);
    assert(all.drop_first()[0] == k2);
    assert(all.drop_first().drop_first() =~= rest);
    lemma_dcs_status(status_start(k1), rest);
    lemma_dcs_resource(resource_start(k1), rest);
    let c = FlowView::Continue(None);
    assert(seq![c] + (seq![c] + status_run(status_start(k1), rest).0) =~= seq![c, c] + status_run(
        status_start(k1),
        rest,
    ).0);
    assert(seq![c] + (seq![c] + resource_run(resource_start(k1), rest).0) =~= seq![c, c]
        + resource_run(resource_start(k1), rest).0);
    assert(seq![FlowView::Break(None)] + Seq::<FlowView>::empty() =~= seq![FlowView::Break(None)]);
    assert(seq![c] + seq![FlowView::Break(None)] =~= seq![c, FlowView::Break(None)]);
}

} // verus!
