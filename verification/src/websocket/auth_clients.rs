//! Connection admission on the websocket server: each registered key has a
//! connection allowance that every admitted connection spends.

use vstd::prelude::*;
use crate::shared::auth_clients::{AuthOutcome, AuthStep};
use crate::websocket::structs::UserLimits;
use crate::websocket::util::{
    connection_limit, request_limit, get_connection_limit_from_plan_name,
    get_request_limit_from_plan_name,
};
use crate::websocket::map::{
    ConnectionHash, add_user_to_hash, decrement_user_connections, get_user_from_hash,
    spend_connection,
};

verus! {

/// Admission, first step: a registered key with no connections left is
/// refused; a registered key with connections left spends one and is
/// admitted; an unknown key needs its plan looked up (nothing changes).
pub fn authenticate_clients(hash: &mut ConnectionHash, auth: &str) -> (r: AuthStep)
    requires
        old(hash).wf(),
    ensures
        final(hash).wf(),
        match old(hash)@ {
            Some(m) => if !m.contains_key(auth@) {
                r is LookUpPlan && final(hash)@ == old(hash)@
            } else if m[auth@].connections <= 0 {
                r == AuthStep::Decided(AuthOutcome::ConnectionLimitReached) && final(hash)@ == old(hash)@
            } else {
                r == AuthStep::Decided(AuthOutcome::Accepted) && final(hash)@ == Some(
                    m.insert(auth@, spend_connection(m[auth@])),
                )
            },
            None => r is LookUpPlan && final(hash)@ is None,
        },
        r == AuthStep::Decided(AuthOutcome::Accepted) ==> ({
            let m = old(hash)@->0;
            let m2 = final(hash)@->0;
            &&& old(hash)@ is Some && final(hash)@ is Some
            &&& m.contains_key(auth@) && m[auth@].connections > 0
            &&& m2.dom() == m.dom()
            &&& m2[auth@].connections == m[auth@].connections - 1
            &&& m2[auth@].hits == m[auth@].hits
            &&& m2[auth@].plan == m[auth@].plan
            &&& forall|k: Seq<char>| k != auth@ && #[trigger] m.contains_key(k) ==> m2[k] == m[k]
        }),
{
    match get_user_from_hash(hash, auth) {
        Some(user) => {
            if user.connections <= 0 {
                return AuthStep::Decided(AuthOutcome::ConnectionLimitReached);
            }
            decrement_user_connections(hash, auth);
            AuthStep::Decided(AuthOutcome::Accepted)
        },
        None => AuthStep::LookUpPlan,
    }
}

/// Admission, second step, with the plan the database returned for `auth`
/// (`None` when it has no row): a known plan registers the key with the
/// plan's request quota and its connection quota less the connection being
/// made.
pub fn admit_looked_up_client(hash: &mut ConnectionHash, auth: String, plan: Option<String>) -> (r: AuthOutcome)
    requires
        old(hash).wf(),
    ensures
        final(hash).wf(),
        match plan {
            Some(p) => r is Registered && final(hash)@ == (match old(hash)@ {
                Some(m) => Some(m.insert(
                    auth@,
                    UserLimits {
                        hits: request_limit(p@) as i64,
                        connections: (connection_limit(p@) - 1) as i64,
                        plan: p,
                    },
                )),
                None => None,
            }),
            None => r is InvalidKey && final(hash)@ == old(hash)@,
        },
{
    match plan {
        Some(p) => {
            let hits = get_request_limit_from_plan_name(p.as_str());
            let connections = get_connection_limit_from_plan_name(p.as_str()) - 1;
            let _n = add_user_to_hash(hash, auth, UserLimits { hits: hits, connections: connections, plan: p });
            AuthOutcome::Registered
        },
        None => AuthOutcome::InvalidKey,
    }
}

} // verus!
