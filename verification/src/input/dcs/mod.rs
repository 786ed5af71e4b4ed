pub mod parser;
pub mod resource;
pub mod status;

pub use parser::{dcs_parse, DcsState, DeviceControl};
pub use resource::{read_hex_string, ResourceParser};
pub use status::StatusParser;
