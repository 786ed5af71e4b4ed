pub mod dcs;
pub mod keyboard;
pub mod listen;
pub mod mouse;
pub mod parser;
pub mod tty;

pub use dcs::DeviceControl;
pub use keyboard::Keyboard;
pub use mouse::Mouse;
pub use parser::{Event, EventView, FlowView, Key, ParseControlFlow, Parser, TerminalEvent};
