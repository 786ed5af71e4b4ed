pub mod dcs;
pub mod event;
pub mod listen;
pub mod mouse;
pub mod parser;

pub use dcs::{DeviceControl, DeviceControlEvent};
pub use event::{Event, TerminalEvent};
pub use mouse::Mouse;
pub use parser::Parser;
