//! Validation of one listing query argument: the colon-delimited shape
//! `source:modifier:time`. An argument that does not split into exactly
//! three parts is rejected — the caller reports it and goes on with the
//! next argument.

use vstd::prelude::*;
use vstd::string::StrSliceExecFns;

use crate::textutil::{find_char_from, spec_find_char};

verus! {

/// Whether the argument splits into exactly three colon-delimited parts:
/// two colons stand in it and no third follows.
pub open spec fn spec_arg_well_formed(s: Seq<char>) -> bool {
    let p1 = spec_find_char(s, ':', 0);
    let p2 = spec_find_char(s, ':', p1 + 1);
    &&& p1 < s.len()
    &&& p2 < s.len()
    &&& spec_find_char(s, ':', p2 + 1) == s.len()
}

/// Splits `source:modifier:time` into its three parts. The result is
/// present exactly when the argument holds exactly two colons; the parts
/// are the runs before the first, between the two, and after the second.
pub fn split_source_arg(s: &str) -> (r: Option<(String, String, String)>)
    ensures
        match r {
            Some(parts) => {
                let p1 = spec_find_char(s@, ':', 0);
                let p2 = spec_find_char(s@, ':', p1 + 1);
                &&& spec_arg_well_formed(s@)
                &&& parts.0@ == s@.subrange(0, p1)
                &&& parts.1@ == s@.subrange(p1 + 1, p2)
                &&& parts.2@ == s@.subrange(p2 + 1, s@.len() as int)
            },
            None => !spec_arg_well_formed(s@),
        },
{
    let sn = s.unicode_len();
    let p1 = find_char_from(s, ':', 0);
    if p1 == sn {
        return None;
    }
    let p2 = find_char_from(s, ':', p1 + 1);
    if p2 == sn {
        return None;
    }
    let p3 = find_char_from(s, ':', p2 + 1);
    if p3 != sn {
        return None;
    }
    let a = s.substring_char(0, p1).to_owned();
    let b = s.substring_char(p1 + 1, p2).to_owned();
    let c = s.substring_char(p2 + 1, sn).to_owned();
    Some((a, b, c))
}

} // verus!
