//! Plan limits of the websocket server.

use vstd::prelude::*;
use crate::text::str_eq;

verus! {

/// Daily request quota granted by a plan: Hobby 100, Pro 10,000,
/// StartUp 5,000,000, any other name none.
pub open spec fn request_limit(plan: Seq<char>) -> int {
    if plan == "Hobby"@ {
        100
    } else if plan == "Pro"@ {
        10000
    } else if plan == "StartUp"@ {
        5000000
    } else {
        0
    }
}

/// Connection quota granted by a plan.
pub open spec fn connection_limit(plan: Seq<char>) -> int {
    if plan == "Hobby"@ {
        10
    } else if plan == "Pro"@ {
        500
    } else if plan == "StartUp"@ {
        2000
    } else {
        0
    }
}

/// The daily request quota of the named plan; unknown plans get 0.
pub fn get_request_limit_from_plan_name(val: &str) -> (r: i64)
    ensures
        r == request_limit(val@),
{
    if str_eq(val, "Hobby") {
        100
    } else if str_eq(val, "Pro") {
        10000
    } else if str_eq(val, "StartUp") {
        5000000
    } else {
        0
    }
}

/// The connection quota of the named plan; unknown plans get 0.
pub fn get_connection_limit_from_plan_name(val: &str) -> (r: i64)
    ensures
        r == connection_limit(val@),
{
    if str_eq(val, "Hobby") {
        10
    } else if str_eq(val, "Pro") {
        500
    } else if str_eq(val, "StartUp") {
        2000
    } else {
        0
    }
}

} // verus!
