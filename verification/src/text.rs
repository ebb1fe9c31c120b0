//! Small verified string helpers shared by the modules.

use vstd::prelude::*;

verus! {

/// Compares two string slices character by character.
pub fn str_eq(a: &str, b: &str) -> (r: bool)
    ensures
        r == (a@ == b@),
{
    let sa = a.to_owned();
    let sb = b.to_owned();
    sa == sb
}

/// Joins two strings with an underscore between them: `left + "_" + right`.
pub fn join_with_underscore(left: &str, right: &str) -> (r: String)
    ensures
        r@ == left@ + seq!['_'] + right@,
{
    let mut out = left.to_owned();
    out.append("_");
    proof {
        reveal_strlit("_");
    }
    out.append(right);
    out
}

} // verus!
