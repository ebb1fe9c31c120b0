//! Helpers of the socket namespace registration.

use vstd::prelude::*;

verus! {

/// The API key carried by a namespace path such as `/abc`: the path without
/// its leading character, which must be a one-byte (ASCII) character.
pub fn namespace_token(ns: &str) -> (r: String)
    requires
        ns@.len() > 0,
        (ns@[0] as u32) < 128,
    ensures
        r@ == ns@.drop_first(),
{
    let n = ns.unicode_len();
    let rest = ns.substring_char(1, n);
    rest.to_owned()
}

} // verus!
