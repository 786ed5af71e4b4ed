use vstd::prelude::*;
use vstd::string::StringSliceAdditionalSpecFns;
use vstd::utf8::encode_utf8;

use super::event::{TerminalEvent, TerminalEventView};
use crate::input::dcs::parser::{dcs_parse, DcsState};
use crate::input::dcs::resource::{
    read_hex_string, resource_event, resource_parse, ResourceSequence, ResourceState,
};
use crate::input::dcs::status::{
    is_true_color_param, sgr_params, sgr_scan, status_event, status_parse, status_push_value,
    StatusSequence, StatusState,
};
use crate::input::parser::{EventView, FlowView};
use crate::utils::unicode::string_from_utf8;

verus! {

#[derive(Clone)]
enum State {
    Code,
    Type(u8),
    Status(DeviceControlStatus),
    Resource(DeviceControlResource),
}

/// What the device control reader answers for one byte.
pub enum DeviceControlEvent {
    Break,
    Continue,
    Terminal(TerminalEvent),
    TrueColorSupported,
}

/// The abstract value of a [`DeviceControlEvent`].
pub enum DcsEventView {
    Break,
    Continue,
    Terminal(TerminalEventView),
    TrueColorSupported,
}

pub open spec fn dcs_event_view(e: DeviceControlEvent) -> DcsEventView {
    match e {
        DeviceControlEvent::Break => DcsEventView::Break,
        DeviceControlEvent::Continue => DcsEventView::Continue,
        DeviceControlEvent::Terminal(t) => DcsEventView::Terminal(t@),
        DeviceControlEvent::TrueColorSupported => DcsEventView::TrueColorSupported,
    }
}

/// The same answer as a sub-parser's control flow: going on, stopping, or
/// stopping with what the terminal reported.
pub open spec fn flow_to_dcs_event(f: FlowView) -> DcsEventView {
    match f {
        FlowView::Continue(_) => DcsEventView::Continue,
        FlowView::Break(Some(EventView::TerminalName(name))) => DcsEventView::Terminal(
            TerminalEventView::Name(name),
        ),
        FlowView::Break(Some(EventView::TrueColorSupported)) => DcsEventView::Terminal(
            TerminalEventView::TrueColorSupported,
        ),
        FlowView::Break(_) => DcsEventView::Break,
    }
}

/// Reader of a device control string (`ESC P ...`).
#[derive(Clone)]
pub struct DeviceControl {
    state: State,
}

impl View for DeviceControl {
    type V = DcsState;

    closed spec fn view(&self) -> DcsState {
        match self.state {
            State::Code => DcsState::Code,
            State::Type(code) => DcsState::Type(code),
            State::Status(s) => DcsState::Status(s@),
            State::Resource(r) => DcsState::Resource(r@),
        }
    }
}

impl DeviceControl {
    pub fn new() -> (d: Self)
        ensures
            d@ == DcsState::Code,
    {
        DeviceControl { state: State::Code }
    }

    /// Reads one byte of the string.
    pub fn parse(&mut self, key: u8) -> (e: DeviceControlEvent)
        ensures
            ({
                let (flow, next) = dcs_parse(old(self)@, key);
                dcs_event_view(e) == flow_to_dcs_event(flow) && final(self)@ == next
            }),
    {
        let mut state = State::Code;
        std::mem::swap(&mut state, &mut self.state);
        match state {
            State::Code => {
                if key == 48 || key == 49 {
                    self.state = State::Type(key);
                } else {
                    self.state = State::Code;
                    return DeviceControlEvent::Break;
                }
            },
            State::Type(code) => {
                if key == 36 {
                    self.state = State::Status(DeviceControlStatus::new(code));
                } else if key == 43 {
                    self.state = State::Resource(DeviceControlResource::new(code));
                } else {
                    self.state = State::Type(code);
                    return DeviceControlEvent::Break;
                }
            },
            State::Status(mut status) => {
                let e = status.parse(key);
                self.state = State::Status(status);
                return e;
            },
            State::Resource(mut resource) => {
                let e = resource.parse(key);
                self.state = State::Resource(resource);
                return e;
            },
        }
        DeviceControlEvent::Continue
    }
}

#[derive(Clone)]
enum DeviceControlResourceState {
    Start,
    Name,
    Value,
    Terminator,
}

#[derive(Clone)]
struct DeviceControlResource {
    code: u8,
    state: DeviceControlResourceState,
    name: Vec<u8>,
    value: Vec<u8>,
}

impl View for DeviceControlResource {
    type V = ResourceState;

    closed spec fn view(&self) -> ResourceState {
        ResourceState {
            code: self.code,
            sequence: match self.state {
                DeviceControlResourceState::Start => ResourceSequence::Start,
                DeviceControlResourceState::Name => ResourceSequence::Name,
                DeviceControlResourceState::Value => ResourceSequence::Value,
                DeviceControlResourceState::Terminator => ResourceSequence::Terminator,
            },
            name: self.name@,
            value: self.value@,
        }
    }
}

impl DeviceControlResource {
    fn new(code: u8) -> (r: Self)
        ensures
            r@ == (ResourceState {
                code,
                sequence: ResourceSequence::Start,
                name: seq![],
                value: seq![],
            }),
    {
        DeviceControlResource {
            code,
            state: DeviceControlResourceState::Start,
            name: Vec::new(),
            value: Vec::new(),
        }
    }

    fn parse(&mut self, key: u8) -> (e: DeviceControlEvent)
        ensures
            ({
                let (flow, next) = resource_parse(old(self)@, key);
                dcs_event_view(e) == flow_to_dcs_event(flow) && final(self)@ == next
            }),
    {
        match self.state {
            DeviceControlResourceState::Start => {
                if key == 114 {
                    self.state = DeviceControlResourceState::Name;
                } else {
                    return DeviceControlEvent::Break;
                }
            },
            DeviceControlResourceState::Name => {
                if key == 0x1b {
                    self.state = DeviceControlResourceState::Terminator;
                } else if key == 61 {
                    self.state = DeviceControlResourceState::Value;
                } else {
                    self.name.push(key);
                }
            },
            DeviceControlResourceState::Value => {
                if key == 0x1b {
                    self.state = DeviceControlResourceState::Terminator;
                } else {
                    self.value.push(key);
                }
            },
            DeviceControlResourceState::Terminator => {
                if key == 92 && self.code == 49 {
                    let name = read_hex_string(self.name.as_slice());
                    let value = read_hex_string(self.value.as_slice());
                    if let (Some(name), Some(value)) = (name, value) {
                        let tn = "TN".to_owned();
                        proof {
                            reveal_strlit("TN");
                            assert(tn@ =~= seq!['T', 'N']);
                        }
                        if name == tn {
                            return DeviceControlEvent::Terminal(TerminalEvent::Name(value));
                        }
                    }
                }
                return DeviceControlEvent::Break;
            },
        }
        DeviceControlEvent::Continue
    }
}

#[derive(Clone)]
enum DeviceControlStatusState {
    Start,
    Value,
    Terminator,
}

#[derive(Clone)]
struct DeviceControlStatus {
    code: u8,
    op: Option<u8>,
    state: DeviceControlStatusState,
    buffer: Vec<u8>,
    values: Vec<String>,
}

impl View for DeviceControlStatus {
    type V = StatusState;

    closed spec fn view(&self) -> StatusState {
        StatusState {
            code: self.code,
            op: self.op,
            sequence: match self.state {
                DeviceControlStatusState::Start => StatusSequence::Start,
                DeviceControlStatusState::Value => StatusSequence::Value,
                DeviceControlStatusState::Terminator => StatusSequence::Terminator,
            },
            buffer: self.buffer@,
            values: self.values@.map_values(|v: String| v@),
        }
    }
}

/// Whether one value is an SGR parameter that sets a 24-bit color.
fn true_color_value(bytes: &[u8]) -> (b: bool)
    ensures
        b == is_true_color_param(bytes@),
{
    let mut val: u8 = 0;
    let mut set: Vec<u8> = Vec::new();
    let mut i: usize = 0;
    while i < bytes.len()
        invariant_except_break
            i <= bytes.len(),
            (val, set@, false) == sgr_scan(bytes@.take(i as int)),
            i == bytes.len() ==> bytes@.take(i as int) =~= bytes@,
        ensures
            (val, set@) == ({
                let (v, s, _) = sgr_scan(bytes@);
                (v, s)
            }),
        decreases bytes.len() - i,
    {
        let c = bytes[i];
        proof {
            assert(bytes@.take(i + 1).drop_last() =~= bytes@.take(i as int));
        }
        if 48 <= c && c <= 57 {
            val = (((val as u32) * 10 + (c as u32) - 48) % 256) as u8;
        } else if c == 58 {
            set.push(val);
            val = 0;
        } else {
            proof {
                crate::input::dcs::status::lemma_sgr_scan_stopped(bytes@, i + 1);
            }
            break;
        }
        i = i + 1;
    }
    set.push(val);
    set.len() > 4 && set[1] == 2 && (set[0] == 38 || set[0] == 48)
}

impl DeviceControlStatus {
    fn new(code: u8) -> (s: Self)
        ensures
            s@ == (StatusState {
                code,
                op: None,
                sequence: StatusSequence::Start,
                buffer: seq![],
                values: seq![],
            }),
    {
        let s = DeviceControlStatus {
            code,
            op: None,
            state: DeviceControlStatusState::Start,
            buffer: Vec::new(),
            values: Vec::new(),
        };
        assert(s@.values =~= seq![]);
        s
    }

    fn parse(&mut self, key: u8) -> (e: DeviceControlEvent)
        ensures
            ({
                let (flow, next) = status_parse(old(self)@, key);
                dcs_event_view(e) == flow_to_dcs_event(flow) && final(self)@ == next
            }),
    {
        match self.state {
            DeviceControlStatusState::Start => {
                if key == 114 {
                    self.state = DeviceControlStatusState::Value;
                } else {
                    return DeviceControlEvent::Break;
                }
            },
            DeviceControlStatusState::Value => {
                if key == 59 || key == 0x1b {
                    let ghost before = self@;
                    if key == 0x1b {
                        self.op = self.buffer.pop();
                        self.state = DeviceControlStatusState::Terminator;
                    }
                    let ghost mid = self@;
                    let mut buffer: Vec<u8> = Vec::new();
                    std::mem::swap(&mut buffer, &mut self.buffer);
                    let ghost values = self.values@;
                    if let Some(str) = string_from_utf8(buffer) {
                        self.values.push(str);
                        assert(self.values@.map_values(|v: String| v@) =~= values.map_values(
                            |v: String| v@,
                        ).push(str@));
                    }
                    assert(self@ == status_push_value(mid));
                } else {
                    self.buffer.push(key);
                }
            },
            DeviceControlStatusState::Terminator => {
                let op_is_sgr = match self.op {
                    Some(op) => op == 109,
                    None => false,
                };
                if key == 92 && self.code == 49 && op_is_sgr {
                    let mut i: usize = 0;
                    while i < self.values.len()
                        invariant
                            i <= self.values.len(),
                            key == 92 && self@.code == 49 && self@.op == Some(109u8),
                            self@ == old(self)@,
                            old(self)@.sequence == StatusSequence::Terminator,
                            forall|j: int|
                                0 <= j < i ==> !is_true_color_param(
                                    #[trigger] encode_utf8(self@.values[j]),
                                ),
                        decreases self.values.len() - i,
                    {
                        let value = &self.values[i];
                        let bytes = value.as_str().as_bytes();
                        assert(self@.values[i as int] == value@);
                        assert(bytes@ == encode_utf8(value@));
                        if true_color_value(bytes) {
                            assert(is_true_color_param(encode_utf8(self@.values[i as int])));
                            return DeviceControlEvent::Terminal(TerminalEvent::TrueColorSupported);
                        }
                        i = i + 1;
                    }
                }
                return DeviceControlEvent::Break;
            },
        }
        DeviceControlEvent::Continue
    }
}

} // verus!
