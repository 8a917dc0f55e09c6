//! Command-line arguments.

use vstd::prelude::*;

use crate::text::{chars_equal, chars_of};

verus! {

/// The profile the arguments from `i` on select, `current` being the one
/// selected before: each `--profile` takes the next argument as the profile
/// (none when it is the last argument).
pub open spec fn profile_from(args: Seq<Seq<char>>, i: int, current: Option<Seq<char>>) -> Option<Seq<char>>
    decreases args.len() - i,
{
    if i < 0 || i >= args.len() {
        current
    } else if args[i] == "--profile"@ {
        if i + 1 < args.len() {
            profile_from(args, i + 2, Some(args[i + 1]))
        } else {
            None
        }
    } else {
        profile_from(args, i + 1, current)
    }
}

/// The profile named on the command line (the arguments after the
/// program's name); the last `--profile` wins.
pub fn parse_args(args: &Vec<String>) -> (r: Option<String>)
    ensures
        match profile_from(args@.map_values(|s: String| s@), 0, None) {
            Some(p) => r matches Some(s) && s@ == p,
            None => r is None,
        },
{
    let ghost all = args@.map_values(|s: String| s@);
    let flag = ['-', '-', 'p', 'r', 'o', 'f', 'i', 'l', 'e'];
    proof {
        reveal_strlit("--profile");
        assert(flag@ =~= "--profile"@);
    }
    let mut profile: Option<String> = None;
    let mut i: usize = 0;
    while i < args.len()
        invariant
            i <= args@.len(),
            all == args@.map_values(|s: String| s@),
            flag@ == "--profile"@,
            profile_from(all, 0, None) == profile_from(all, i as int, match profile {
                Some(s) => Some(s@),
                None => None,
            }),
        decreases args@.len() - i,
    {
        let a = chars_of(args[i].as_str());
        if chars_equal(&a, &flag) {
            if i + 1 < args.len() {
                profile = Some(args[i + 1].clone());
                i += 2;
            } else {
                return None;
            }
        } else {
            i += 1;
        }
    }
    profile
}

} // verus!
