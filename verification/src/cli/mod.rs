pub mod parser;
pub mod program;

pub use parser::{CommandLine, CommandLineProgram};
