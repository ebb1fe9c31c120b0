//! The HTTP ingress ("spark") server: an ignite request is forwarded to the
//! websocket queues when the key's status reads `ok` in any letter case.

use vstd::prelude::*;
use crate::text::str_eq;

verus! {

/// A request to emit `message` as `event_name` to `group_id`, made with `key`.
#[derive(Debug)]
pub struct IgniteReq {
    pub group_id: String,
    pub event_name: String,
    pub message: String,
    pub key: String,
}

impl Clone for IgniteReq {
    fn clone(&self) -> (r: Self)
        ensures
            r == *self,
    {
        IgniteReq {
            group_id: self.group_id.clone(),
            event_name: self.event_name.clone(),
            message: self.message.clone(),
            key: self.key.clone(),
        }
    }
}

/// The ingress server's answer.
#[derive(Debug)]
pub struct IgnitionResponse {
    pub status: i32,
    pub message: String,
}

/// The result of `str::to_lowercase` on a string.
pub uninterp spec fn lowercase(s: Seq<char>) -> Seq<char>;

/// `str::to_lowercase`: the Unicode lowercase of `s`, named by [`lowercase`].
#[verifier::external_body]
fn str_to_lowercase(s: &str) -> (r: String)
    ensures
        r@ == lowercase(s@),
{
    s.to_lowercase()
}

/// The answer for a key whose status, lowercased, is `lowered`: forwarded
/// (200) when it is `ok`, denied (403) otherwise.
pub open spec fn response_for(lowered: Seq<char>) -> (int, Seq<char>) {
    if lowered == "ok"@ {
        (200, "Request forwarded to the WS-Server"@)
    } else {
        (403, "Request denied, daily limit reached"@)
    }
}

/// The answer for a key whose lowercased status is `lowered`.
pub fn response_for_lowered_status(lowered: &str) -> (r: IgnitionResponse)
    ensures
        (r.status as int, r.message@) == response_for(lowered@),
{
    if str_eq(lowered, "ok") {
        IgnitionResponse { status: 200, message: "Request forwarded to the WS-Server".to_owned() }
    } else {
        IgnitionResponse { status: 403, message: "Request denied, daily limit reached".to_owned() }
    }
}

/// The answer for a key with database status `status`: the request is
/// forwarded (200) exactly when `status` lowercases to `ok`.
pub fn forward_decision(status: &str) -> (r: IgnitionResponse)
    ensures
        (r.status as int, r.message@) == response_for(lowercase(status@)),
{
    let lowered = str_to_lowercase(status);
    response_for_lowered_status(lowered.as_str())
}

} // verus!
