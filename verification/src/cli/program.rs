use vstd::prelude::*;

verus! {

/// The program a command line selects.
#[derive(Clone, Debug)]
pub enum CommandLineProgram {
    Main,
    Help,
    Version,
}

} // verus!
