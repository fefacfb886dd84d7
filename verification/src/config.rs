//! Startup configuration: the serving directory is taken from the
//! command-line argument list, once, before any connection is handled.
//! The scan itself is verified; reading the process arguments is left
//! to the caller, who hands them in as plain byte strings.

use vstd::prelude::*;
use crate::ascii::{directory_flag, directory_flag_bytes, dot, dot_bytes};
use crate::text::bytes_eq;

verus! {

/// The serving directory chosen by the first `k` arguments: the
/// argument that follows the last `--directory` flag among them that
/// has a follower, or `.` if no such flag stands there.
pub open spec fn directory_of_prefix(args: Seq<Seq<u8>>, k: int) -> Seq<u8>
    decreases k,
{
    if k <= 0 {
        dot()
    } else if args[k - 1] == directory_flag() && k < args.len() {
        args[k as int]
    } else {
        directory_of_prefix(args, k - 1)
    }
}

/// The serving directory chosen by the whole argument list.
pub open spec fn directory_of(args: Seq<Seq<u8>>) -> Seq<u8> {
    directory_of_prefix(args, args.len() as int)
}

/// Scans the argument list for `--directory` and returns the argument
/// after its last occurrence that has one, or `.` when none does.
/// Later occurrences override earlier ones, as a scan that overwrites
/// would have it.
pub fn directory_from_args(args: &Vec<Vec<u8>>) -> (dir: Vec<u8>)
    ensures
        dir@ == directory_of(args.deep_view()),
{
    let flag = directory_flag_bytes();
    let mut dir = dot_bytes();
    let n = args.len();
    let mut i: usize = 0;
    while i < n
        invariant
            i <= n,
            n == args@.len(),
            flag@ == directory_flag(),
            dir@ == directory_of_prefix(args.deep_view(), i as int),
        decreases n - i,
    {
        proof {
            assert(args.deep_view()[i as int] == args@[i as int]@);
        }
        if bytes_eq(&args[i], &flag) && i + 1 < n {
            dir = args[i + 1].clone();
            proof {
                assert(args.deep_view()[i + 1] == args@[i + 1]@);
            }
        }
        i += 1;
    }
    dir
}

} // verus!
