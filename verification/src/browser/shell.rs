use vstd::prelude::*;

use crate::cli::parser::arg_views;
use crate::utils::text::str_equal;

verus! {

/// The arguments of the shell: whether `--debug` was given, and the other
/// arguments, which go to the browser.
pub struct Args {
    pub debug: bool,
    pub chromium: Vec<String>,
}

/// `--debug`.
pub open spec fn is_debug(a: Seq<char>) -> bool {
    a == seq!['-', '-', 'd', 'e', 'b', 'u', 'g']
}

/// The arguments from the `k`-th on that are not `--debug`, in order.
pub open spec fn browser_args(args: Seq<Seq<char>>, k: int) -> Seq<Seq<char>>
    decreases args.len() - k,
{
    if k < 0 || k >= args.len() {
        seq![]
    } else if is_debug(args[k]) {
        browser_args(args, k + 1)
    } else {
        seq![args[k]] + browser_args(args, k + 1)
    }
}

/// Splits the program's arguments (its own path first, which is skipped)
/// into the debug flag and the browser's arguments.
pub fn parse_args(args: Vec<String>) -> (r: Args)
    ensures
        r.debug == exists|i: int| 1 <= i < args@.len() && is_debug(#[trigger] arg_views(args@)[i]),
        arg_views(r.chromium@) == browser_args(arg_views(args@), 1),
{
    let ghost views = arg_views(args@);
    let flag = "--debug";
    proof {
        reveal_strlit("--debug");
    }
    let mut r = Args { debug: false, chromium: Vec::new() };
    if args.len() == 0 {
        return r;
    }
    let mut i: usize = 1;
    while i < args.len()
        invariant
            1 <= i <= args.len(),
            views == arg_views(args@),
            flag@ == seq!['-', '-', 'd', 'e', 'b', 'u', 'g'],
            r.debug == exists|j: int| 1 <= j < i && is_debug(#[trigger] views[j]),
            arg_views(r.chromium@) + browser_args(views, i as int) == browser_args(views, 1),
        decreases args.len() - i,
    {
        let arg = &args[i];
        assert(arg@ == views[i as int]);
        let ghost before = r.chromium@;
        if str_equal(arg.as_str(), flag) {
            r.debug = true;
        } else {
            r.chromium.push(arg.clone());
            proof {
                assert(arg_views(r.chromium@) =~= arg_views(before) + seq![views[i as int]]);
            }
        }
        assert(arg_views(r.chromium@) + browser_args(views, i + 1) =~= browser_args(views, 1));
        i = i + 1;
    }
    r
}

} // verus!
