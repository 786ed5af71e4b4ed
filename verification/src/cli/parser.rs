use vstd::prelude::*;

use crate::utils::text::str_equal;

verus! {

/// The command line of a browser run: its arguments and whether `-d` or
/// `--debug` was among them.
pub struct CommandLine {
    pub args: Vec<String>,
    pub debug: bool,
}

/// What the command line asks for.
pub enum CommandLineProgram {
    Help,
    Version,
    Main(CommandLine),
}

/// The abstract value of a [`CommandLineProgram`], arguments aside.
pub enum ProgramView {
    Help,
    Version,
    Main { debug: bool },
}

/// The characters of each argument.
pub open spec fn arg_views(args: Seq<String>) -> Seq<Seq<char>> {
    args.map_values(|a: String| a@)
}

/// `-d` or `--debug`.
pub open spec fn is_debug_flag(a: Seq<char>) -> bool {
    a == seq!['-', 'd'] || a == seq!['-', '-', 'd', 'e', 'b', 'u', 'g']
}

/// `-h` or `--help`.
pub open spec fn is_help_flag(a: Seq<char>) -> bool {
    a == seq!['-', 'h'] || a == seq!['-', '-', 'h', 'e', 'l', 'p']
}

/// `-v` or `--version`.
pub open spec fn is_version_flag(a: Seq<char>) -> bool {
    a == seq!['-', 'v'] || a == seq!['-', '-', 'v', 'e', 'r', 's', 'i', 'o', 'n']
}

/// Reads the arguments from `i` on, `debug` telling whether a debug flag
/// came before: the first help or version flag decides, and without one the
/// browser runs, in debug mode when a debug flag occurs.
pub open spec fn program_from(args: Seq<Seq<char>>, i: int, debug: bool) -> ProgramView
    decreases args.len() - i,
{
    if i < 0 || i >= args.len() {
        ProgramView::Main { debug }
    } else if is_debug_flag(args[i]) {
        program_from(args, i + 1, true)
    } else if is_help_flag(args[i]) {
        ProgramView::Help
    } else if is_version_flag(args[i]) {
        ProgramView::Version
    } else {
        program_from(args, i + 1, debug)
    }
}

impl CommandLineProgram {
    /// The abstract value.
    pub open spec fn spec_view(&self) -> ProgramView {
        match self {
            CommandLineProgram::Help => ProgramView::Help,
            CommandLineProgram::Version => ProgramView::Version,
            CommandLineProgram::Main(c) => ProgramView::Main { debug: c.debug },
        }
    }

    /// Reads the program's arguments (the program's own path first, as the
    /// environment gives them). The arguments are kept whole in `Main`.
    pub fn parse(args: Vec<String>) -> (p: CommandLineProgram)
        ensures
            p.spec_view() == program_from(arg_views(args@), 0, false),
            p matches CommandLineProgram::Main(c) ==> c.args@ == args@,
    {
        let ghost views = arg_views(args@);
        let d = "-d";
        let debug_long = "--debug";
        let h = "-h";
        let help_long = "--help";
        let v = "-v";
        let version_long = "--version";
        proof {
            reveal_strlit("-d");
            reveal_strlit("--debug");
            reveal_strlit("-h");
            reveal_strlit("--help");
            reveal_strlit("-v");
            reveal_strlit("--version");
        }
        let mut debug = false;
        let mut i: usize = 0;
        while i < args.len()
            invariant
                i <= args.len(),
                views == arg_views(args@),
                program_from(views, 0, false) == program_from(views, i as int, debug),
                d@ == seq!['-', 'd'],
                debug_long@ == seq!['-', '-', 'd', 'e', 'b', 'u', 'g'],
                h@ == seq!['-', 'h'],
                help_long@ == seq!['-', '-', 'h', 'e', 'l', 'p'],
                v@ == seq!['-', 'v'],
                version_long@ == seq!['-', '-', 'v', 'e', 'r', 's', 'i', 'o', 'n'],
            decreases args.len() - i,
        {
            let arg = args[i].as_str();
            assert(arg@ == views[i as int]);
            if str_equal(arg, d) || str_equal(arg, debug_long) {
                debug = true;
            } else if str_equal(arg, h) || str_equal(arg, help_long) {
                return CommandLineProgram::Help;
            } else if str_equal(arg, v) || str_equal(arg, version_long) {
                return CommandLineProgram::Version;
            }
            i = i + 1;
        }
        CommandLineProgram::Main(CommandLine { args, debug })
    }
}


/// Reading from argument `i` on, with no help or version flag among the
/// rest, runs the browser, in debug mode exactly when a debug flag came
/// before or comes among the rest.
proof fn lemma_program_from_main(args: Seq<Seq<char>>, i: int, debug: bool)
    requires
        0 <= i <= args.len(),
        forall|j: int|
            i <= j < args.len() ==> !(#[trigger] args[j] == seq!['-', 'h'] || args[j] == seq![
                '-',
                '-',
                'h',
                'e',
                'l',
                'p',
            ] || args[j] == seq!['-', 'v'] || args[j] == seq![
                '-',
                '-',
                'v',
                'e',
                'r',
                's',
                'i',
                'o',
                'n',
            ]),
    ensures
        program_from(args, i, debug) == (ProgramView::Main {
            debug: debug || exists|j: int|
                i <= j < args.len() && (#[trigger] args[j] == seq!['-', 'd'] || args[j] == seq![
                    '-',
                    '-',
                    'd',
                    'e',
                    'b',
                    'u',
                    'g',
                ]),
        }),
    decreases args.len() - i,
{
    if i < args.len() {
        let a = args[i];
        let next_debug = debug || a == seq!['-', 'd'] || a == seq!['-', '-', 'd', 'e', 'b', 'u', 'g'];
        lemma_program_from_main(args, i + 1, next_debug);
        let d1 = exists|j: int|
            i <= j < args.len() && (#[trigger] args[j] == seq!['-', 'd'] || args[j] == seq![
                '-',
                '-',
                'd',
                'e',
                'b',
                'u',
                'g',
            ]);
        let d2 = exists|j: int|
            i + 1 <= j < args.len() && (#[trigger] args[j] == seq!['-', 'd'] || args[j] == seq![
                '-',
                '-',
                'd',
                'e',
                'b',
                'u',
                'g',
            ]);
        if d1 {
            let j = choose|j: int|
                i <= j < args.len() && (#[trigger] args[j] == seq!['-', 'd'] || args[j] == seq![
                    '-',
                    '-',
                    'd',
                    'e',
                    'b',
                    'u',
                    'g',
                ]);
            if j > i {
                assert(d2);
            }
        }
        if d2 {
            assert(d1);
        }
        assert(!(a == seq!['-', 'h'] || a == seq!['-', '-', 'h', 'e', 'l', 'p'] || a == seq![
            '-',
            'v',
        ] || a == seq!['-', '-', 'v', 'e', 'r', 's', 'i', 'o', 'n']));
    }
}

/// A command line without a help or version flag runs the browser with its
/// arguments, in debug mode exactly when one of them is `-d` or `--debug`.
pub proof fn lemma_debug_flag(args: Seq<Seq<char>>)
    requires
        forall|j: int|
            0 <= j < args.len() ==> !(#[trigger] args[j] == seq!['-', 'h'] || args[j] == seq![
                '-',
                '-',
                'h',
                'e',
                'l',
                'p',
            ] || args[j] == seq!['-', 'v'] || args[j] == seq![
                '-',
                '-',
                'v',
                'e',
                'r',
                's',
                'i',
                'o',
                'n',
            ]),
    ensures
        program_from(args, 0, false) == (ProgramView::Main {
            debug: exists|j: int|
                0 <= j < args.len() && (#[trigger] args[j] == seq!['-', 'd'] || args[j] == seq![
                    '-',
                    '-',
                    'd',
                    'e',
                    'b',
                    'u',
                    'g',
                ]),
        }),
{
    lemma_program_from_main(args, 0, false);
}

} // verus!
