pub mod events;
pub mod shell;

pub use events::{dispatch, handle_event, BrowserCommand};
