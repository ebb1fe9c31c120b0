//! Connection admission on the shared server.
//!
//! A connecting client presents its API key and the number of sockets its
//! namespace holds. A registered key is admitted while it is under its plan's
//! connection limit and has requests left; an unregistered key is looked up
//! in the database (by the caller) and registered with its plan's quota.

use vstd::prelude::*;
use crate::shared::structs::UserLimits;
use crate::shared::lru::{after_add, touched};
use crate::shared::util::{
    connection_limit, request_limit, get_connection_limit_from_plan_name,
    get_request_limit_from_plan_name,
};
use crate::shared::registry::{SharedState, add_user_to_hash, decrement_user_hits, get_user_from_hash};

verus! {

/// How an admission attempt ended.
#[derive(Debug, Clone, Copy, PartialEq, Eq, Structural)]
pub enum AuthOutcome {
    /// The key already has more concurrent connections than its plan allows.
    ConnectionLimitReached,
    /// The key has no requests left today.
    DailyLimitReached,
    /// A registered key was admitted.
    Accepted,
    /// A new key was registered and admitted.
    Registered,
    /// The database does not know the key.
    InvalidKey,
}

/// The first step of admission against the database: either it is decided
/// from the registry, or the caller must look the key's plan up.
#[derive(Debug, Clone, Copy, PartialEq, Eq, Structural)]
pub enum AuthStep {
    Decided(AuthOutcome),
    LookUpPlan,
}

/// The outcome of admitting a key that is registered with `user` while its
/// namespace holds `connections` sockets.
pub open spec fn registered_outcome(user: UserLimits, connections: usize) -> AuthOutcome {
    if connections > connection_limit(user.plan@) {
        AuthOutcome::ConnectionLimitReached
    } else if user.hits == 0 {
        AuthOutcome::DailyLimitReached
    } else {
        AuthOutcome::Accepted
    }
}

/// The limits stored when a registered key is admitted: one request spent,
/// and the connection count of its namespace.
pub open spec fn admitted_limits(user: UserLimits, connections: usize) -> UserLimits {
    UserLimits { hits: (user.hits - 1) as usize, connections: connections, plan: user.plan }
}

/// The registry and cache after an admission decided from the registry.
pub open spec fn after_registered_admission(
    old_state: SharedState,
    new_state: SharedState,
    auth: Seq<char>,
    connections: usize,
) -> bool {
    let user = old_state.users()[auth];
    if registered_outcome(user, connections) is Accepted {
        &&& new_state.users() == old_state.users().insert(auth, admitted_limits(user, connections))
        &&& new_state.recency() == touched(old_state.recency(), auth)
    } else {
        &&& new_state.users() == old_state.users()
        &&& new_state.recency() == old_state.recency()
    }
}

/// The SQL query that fetches the row of an API key; the key is bound as
/// its one parameter, `$1`, and never spliced into the text.
pub open spec fn key_query() -> Seq<char> {
    " SELECT * FROM userkeystatus WHERE apiKey = $1; "@
}

/// The query that fetches the database row of an API key, which the caller
/// binds as the parameter `$1`.
pub fn user_key_query() -> (r: String)
    ensures
        r@ == key_query(),
{
    " SELECT * FROM userkeystatus WHERE apiKey = $1; ".to_owned()
}

/// Admission on the testing namespace: a registered key is checked against
/// its limits and, when admitted, spends one request and has its connection
/// count updated; an unknown key is registered on the Hobby plan with 100
/// requests and one connection.
pub fn authenticate_test_clients(state: &mut SharedState, auth: &str, connections: usize) -> (r: AuthOutcome)
    requires
        old(state).wf(),
    ensures
        final(state).wf(),
        old(state).users().contains_key(auth@) ==> r == registered_outcome(old(state).users()[auth@], connections)
            && after_registered_admission(*old(state), *final(state), auth@, connections),
        !old(state).users().contains_key(auth@) ==> {
            &&& r is Registered
            &&& final(state).users() == old(state).users().insert(auth@, final(state).users()[auth@])
            &&& final(state).users()[auth@].hits == 100
            &&& final(state).users()[auth@].connections == 1
            &&& final(state).users()[auth@].plan@ == "Hobby"@
            &&& final(state).recency() == after_add(old(state).recency(), auth@)
        },
{
    match get_user_from_hash(state, auth) {
        Some(user) => {
            if connections > get_connection_limit_from_plan_name(user.plan.as_str()) {
                return AuthOutcome::ConnectionLimitReached;
            }
            if user.hits == 0 {
                return AuthOutcome::DailyLimitReached;
            }
            let mut user = user;
            user.connections = connections;
            decrement_user_hits(state, auth, Some(user));
            AuthOutcome::Accepted
        },
        None => {
            let plan = "Hobby".to_owned();
            let _n = add_user_to_hash(state, auth, UserLimits { hits: 100, connections: 1, plan: plan });
            AuthOutcome::Registered
        },
    }
}

/// Admission on a client namespace, first step: a registered key is decided
/// from its limits and, when admitted, spends one request and has its
/// connection count updated; an unknown key needs its plan looked up, and
/// nothing changes.
pub fn authenticate_clients(state: &mut SharedState, auth: &str, connections: usize) -> (r: AuthStep)
    requires
        old(state).wf(),
    ensures
        final(state).wf(),
        old(state).users().contains_key(auth@) ==> r == AuthStep::Decided(
            registered_outcome(old(state).users()[auth@], connections),
        ) && after_registered_admission(*old(state), *final(state), auth@, connections),
        !old(state).users().contains_key(auth@) ==> r is LookUpPlan && final(state).users()
            == old(state).users() && final(state).recency() == old(state).recency(),
{
    match get_user_from_hash(state, auth) {
        Some(user) => {
            if connections > get_connection_limit_from_plan_name(user.plan.as_str()) {
                return AuthStep::Decided(AuthOutcome::ConnectionLimitReached);
            }
            if user.hits == 0 {
                return AuthStep::Decided(AuthOutcome::DailyLimitReached);
            }
            let mut user = user;
            user.connections = connections;
            decrement_user_hits(state, auth, Some(user));
            AuthStep::Decided(AuthOutcome::Accepted)
        },
        None => AuthStep::LookUpPlan,
    }
}

/// Admission on a client namespace, second step, with the plan the database
/// returned for `auth` (`None` when it has no row): a known plan registers
/// the key with that plan's request quota and one connection.
pub fn admit_looked_up_client(state: &mut SharedState, auth: &str, plan: Option<String>) -> (r: AuthOutcome)
    requires
        old(state).wf(),
    ensures
        final(state).wf(),
        match plan {
            Some(p) => r is Registered && final(state).users() == old(state).users().insert(
                auth@,
                UserLimits { hits: request_limit(p@) as usize, connections: 1, plan: p },
            ) && final(state).recency() == after_add(old(state).recency(), auth@),
            None => r is InvalidKey && final(state).users() == old(state).users()
                && final(state).recency() == old(state).recency(),
        },
{
    match plan {
        Some(p) => {
            let hits = get_request_limit_from_plan_name(p.as_str());
            let _n = add_user_to_hash(state, auth, UserLimits { hits: hits, connections: 1, plan: p });
            AuthOutcome::Registered
        },
        None => AuthOutcome::InvalidKey,
    }
}

/// A registered key is admitted exactly when it is within its plan's
/// connection limit and has requests left.
pub proof fn lemma_admission_respects_limits(user: UserLimits, connections: usize)
    ensures
        registered_outcome(user, connections) is Accepted <==> (connections <= connection_limit(
            user.plan@,
        ) && user.hits > 0),
{
}

/// An admitted registered key spends exactly one request, keeps its plan,
/// and has the connection count of its namespace stored.
pub proof fn lemma_admission_spends_one_request(user: UserLimits, connections: usize)
    requires
        registered_outcome(user, connections) is Accepted,
    ensures
        user.hits > 0,
        admitted_limits(user, connections).hits == user.hits - 1,
        admitted_limits(user, connections).connections == connections,
        admitted_limits(user, connections).plan == user.plan,
{
}

} // verus!
