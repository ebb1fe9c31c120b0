//! The per-key usage registry of the shared server: a concurrent map from
//! API key to [`UserLimits`], beside the recency cache of the keys.

use vstd::prelude::*;
use dashmap::DashMap;
use crate::shared::structs::UserLimits;
use crate::shared::lru::{
    LruCache, after_add, touched, without_key, recency_wf, lemma_add_caches_no_stranger,
    lemma_removed_key_absent, lemma_touch_keeps_keys,
};
use crate::shared::util::{get_request_limit_from_plan_name, request_limit};

verus! {

#[verifier::external_type_specification]
#[verifier::external_body]
#[verifier::reject_recursive_types(K)]
#[verifier::reject_recursive_types(V)]
#[verifier::reject_recursive_types(S)]
pub struct ExDashMap<K, V, S>(DashMap<K, V, S>);

/// What a `DashMap` of users holds: each key's view mapped to its limits.
pub uninterp spec fn dash_users(m: DashMap<String, UserLimits>) -> Map<Seq<char>, UserLimits>;

/// `DashMap::new`: a map that holds nothing.
#[verifier::external_body]
fn users_new() -> (m: DashMap<String, UserLimits>)
    ensures
        dash_users(m).dom() == Set::<Seq<char>>::empty(),
{
    DashMap::new()
}

/// `DashMap::insert`: afterwards `key` maps to `user`; other keys keep theirs.
#[verifier::external_body]
fn users_insert(m: &mut DashMap<String, UserLimits>, key: String, user: UserLimits)
    ensures
        dash_users(*final(m)) == dash_users(*old(m)).insert(key@, user),
{
    m.insert(key, user);
}

/// `DashMap::remove`: afterwards `key` maps to nothing; other keys keep theirs.
#[verifier::external_body]
fn users_remove(m: &mut DashMap<String, UserLimits>, key: &str)
    ensures
        dash_users(*final(m)) == dash_users(*old(m)).remove(key@),
{
    m.remove(key);
}

/// `DashMap::get`, with the found value cloned out of the read guard.
#[verifier::external_body]
fn users_get(m: &DashMap<String, UserLimits>, key: &str) -> (r: Option<UserLimits>)
    ensures
        r is Some <==> dash_users(*m).contains_key(key@),
        r matches Some(u) ==> u == dash_users(*m)[key@],
{
    m.get(key).map(|entry| entry.value().clone())
}

/// `DashMap::len`: the number of keys.
#[verifier::external_body]
fn users_len(m: &DashMap<String, UserLimits>) -> (r: usize)
    ensures
        r == dash_users(*m).len(),
{
    m.len()
}

/// `DashMap::clear`: afterwards the map holds nothing.
#[verifier::external_body]
fn users_clear(m: &mut DashMap<String, UserLimits>)
    ensures
        dash_users(*final(m)).dom() == Set::<Seq<char>>::empty(),
{
    m.clear();
}

/// `DashMap::iter`, keeping each entry's key: every key exactly once, in an
/// order that depends on the hasher's seed and is not stated.
#[verifier::external_body]
fn users_keys(m: &DashMap<String, UserLimits>) -> (r: Vec<String>)
    ensures
        r@.map_values(|s: String| s@).no_duplicates(),
        forall|k: Seq<char>|
            dash_users(*m).contains_key(k) <==> r@.map_values(|s: String| s@).contains(k),
{
    m.iter().map(|entry| entry.key().clone()).collect()
}

/// A user's limits after the daily reset: the plan's full request quota and
/// no connections.
pub open spec fn reset_user(u: UserLimits) -> UserLimits {
    UserLimits { hits: request_limit(u.plan@) as usize, connections: 0, plan: u.plan }
}

/// Every user reset; the same keys.
pub open spec fn reset_all(m: Map<Seq<char>, UserLimits>) -> Map<Seq<char>, UserLimits> {
    m.map_values(|u: UserLimits| reset_user(u))
}

/// `u` with one request spent.
pub open spec fn spend_hit(u: UserLimits) -> UserLimits {
    UserLimits { hits: (u.hits - 1) as usize, connections: u.connections, plan: u.plan }
}

/// Whether `entries` lists exactly the pairs of `m`, each key once.
pub open spec fn lists_exactly<V>(entries: Seq<(String, V)>, m: Map<Seq<char>, V>) -> bool {
    &&& entries.map_values(|e: (String, V)| e.0@).no_duplicates()
    &&& forall|i: int| 0 <= i < entries.len() ==> #[trigger] m.contains_key(entries[i].0@)
        && m[entries[i].0@] == entries[i].1
    &&& forall|k: Seq<char>| m.contains_key(k) ==> entries.map_values(|e: (String, V)| e.0@).contains(k)
}

/// Whether `k` is among the first `n` entries of `kv`.
pub open spec fn listed_before(kv: Seq<Seq<char>>, n: int, k: Seq<char>) -> bool {
    exists|j: int| 0 <= j < n && kv[j] == k
}

/// The state of the shared server: the usage registry and the recency cache.
pub struct SharedState {
    users: DashMap<String, UserLimits>,
    cache: LruCache,
}

impl SharedState {
    /// The registered keys and their limits.
    pub closed spec fn users(&self) -> Map<Seq<char>, UserLimits> {
        dash_users(self.users)
    }

    /// The recency order of the cache, least recently used first.
    pub closed spec fn recency(&self) -> Seq<Seq<char>> {
        self.cache@
    }

    /// The state's invariant: the cache holds no key twice and at most its
    /// capacity, and caches only registered keys.
    pub open spec fn wf(&self) -> bool {
        &&& recency_wf(self.recency())
        &&& forall|k: Seq<char>| #[trigger] self.recency().contains(k) ==> self.users().contains_key(k)
    }

    /// An empty registry and cache.
    pub fn new() -> (r: Self)
        ensures
            r.wf(),
            r.users() == Map::<Seq<char>, UserLimits>::empty(),
            r.recency() == Seq::<Seq<char>>::empty(),
    {
        SharedState { users: users_new(), cache: LruCache::new() }
    }

    /// The recency cache, for inspection.
    pub fn cache(&self) -> (r: &LruCache)
        ensures
            r@ == self.recency(),
            r.wf() == recency_wf(self.recency()),
    {
        &self.cache
    }
}

/// Empties the registry and the recency cache.
pub fn init_map(state: &mut SharedState)
    ensures
        final(state).wf(),
        final(state).users() == Map::<Seq<char>, UserLimits>::empty(),
        final(state).recency() == Seq::<Seq<char>>::empty(),
{
    users_clear(&mut state.users);
    state.cache.clear();
}

/// Every registered key with its limits, each key once (for the `/users`
/// route, which serialises them).
pub fn get_user_hash_map(state: &SharedState) -> (r: Vec<(String, UserLimits)>)
    ensures
        lists_exactly(r@, state.users()),
{
    let keys = users_keys(&state.users);
    let ghost kv = keys@.map_values(|s: String| s@);
    let mut out: Vec<(String, UserLimits)> = Vec::new();
    let mut i: usize = 0;
    while i < keys.len()
        invariant
            i <= keys.len(),
            kv == keys@.map_values(|s: String| s@),
            kv.no_duplicates(),
            forall|k: Seq<char>| dash_users(state.users).contains_key(k) <==> kv.contains(k),
            out@.len() == i,
            forall|j: int| 0 <= j < i ==> out@[j].0@ == kv[j],
            forall|j: int| 0 <= j < i ==> #[trigger] dash_users(state.users).contains_key(out@[j].0@)
                && dash_users(state.users)[out@[j].0@] == out@[j].1,
        decreases keys.len() - i,
    {
        let key = keys[i].clone();
        assert(kv[i as int] == keys@[i as int]@);
        assert(kv.contains(key@));
        let found = users_get(&state.users, key.as_str());
        match found {
            Some(user) => {
                out.push((key, user));
            },
            None => {
                assert(false);
            },
        }
        i = i + 1;
    }
    let ghost ov = out@.map_values(|e: (String, UserLimits)| e.0@);
    assert(ov =~= kv);
    out
}

/// The daily reset: every registered user gets its plan's full request
/// quota and zero connections. The keys and the cache stay as they are.
pub fn reset_all_users_values(state: &mut SharedState)
    requires
        old(state).wf(),
    ensures
        final(state).wf(),
        final(state).users() == reset_all(old(state).users()),
        final(state).recency() == old(state).recency(),
{
    let keys = users_keys(&state.users);
    let ghost kv = keys@.map_values(|s: String| s@);
    let ghost m0 = dash_users(state.users);
    let mut i: usize = 0;
    while i < keys.len()
        invariant
            i <= keys.len(),
            kv == keys@.map_values(|s: String| s@),
            kv.no_duplicates(),
            forall|k: Seq<char>| m0.contains_key(k) <==> kv.contains(k),
            state.cache == old(state).cache,
            dash_users(state.users).dom() == m0.dom(),
            forall|k: Seq<char>| #[trigger] m0.contains_key(k) ==> dash_users(state.users)[k] == (
                if listed_before(kv, i as int, k) { reset_user(m0[k]) } else { m0[k] }),
        decreases keys.len() - i,
    {
        let key = keys[i].clone();
        assert(kv[i as int] == key@);
        assert(kv.contains(key@));
        assert(!listed_before(kv, i as int, key@));
        let found = users_get(&state.users, key.as_str());
        match found {
            Some(user) => {
                let hits = get_request_limit_from_plan_name(user.plan.as_str());
                let fresh = UserLimits { hits: hits, connections: 0, plan: user.plan };
                users_insert(&mut state.users, key, fresh);
                assert forall|k: Seq<char>| #[trigger] m0.contains_key(k) implies dash_users(
                    state.users,
                )[k] == (if listed_before(kv, i + 1, k) {
                    reset_user(m0[k])
                } else {
                    m0[k]
                }) by {
                    if k == kv[i as int] {
                        assert(listed_before(kv, i + 1, k));
                    } else {
                        assert(listed_before(kv, i + 1, k) == listed_before(kv, i as int, k));
                    }
                }
                assert(dash_users(state.users).dom() =~= m0.dom());
            },
            None => {
                assert(false);
            },
        }
        i = i + 1;
    }
    assert(dash_users(state.users) =~= reset_all(m0)) by {
        assert forall|k: Seq<char>| #[trigger] m0.contains_key(k) implies listed_before(
            kv,
            keys.len() as int,
            k,
        ) by {
            assert(kv.contains(k));
        }
    }
}

/// Registers (or replaces) `key` with `user`, records the use in the
/// recency cache, and returns the number of registered keys.
pub fn add_user_to_hash(state: &mut SharedState, key: &str, user: UserLimits) -> (r: usize)
    requires
        old(state).wf(),
    ensures
        final(state).wf(),
        final(state).users() == old(state).users().insert(key@, user),
        final(state).recency() == after_add(old(state).recency(), key@),
        r == final(state).users().len(),
{
    proof {
        lemma_add_caches_no_stranger(state.recency(), key@);
    }
    users_insert(&mut state.users, key.to_owned(), user);
    let n = users_len(&state.users);
    state.cache.add_user(key.to_owned());
    n
}

/// Forgets `key` in the registry and in the recency cache.
pub fn remove_user_from_hash(state: &mut SharedState, key: &str)
    requires
        old(state).wf(),
    ensures
        final(state).wf(),
        final(state).users() == old(state).users().remove(key@),
        final(state).recency() == without_key(old(state).recency(), key@),
{
    let ghost r0 = state.recency();
    let ghost u0 = state.users();
    proof {
        lemma_removed_key_absent(r0, key@);
    }
    users_remove(&mut state.users, key);
    state.cache.remove_user(key);
    assert forall|k: Seq<char>| #[trigger] state.recency().contains(k) implies state.users().contains_key(k) by {
        assert(k != key@);
        assert(r0.contains(k));
        assert(u0.contains_key(k));
    }
}

/// Spends one request of `key` and records the use in the recency cache.
///
/// With `Some(user)` (limits the caller already fetched and possibly
/// updated), a registered `key` is stored with those limits less one
/// request; an unknown key stays unregistered. With `None`, a registered
/// key's stored hits drop by one; an unknown key changes nothing.
pub fn decrement_user_hits(state: &mut SharedState, key: &str, possible_user_data: Option<UserLimits>)
    requires
        old(state).wf(),
        match possible_user_data {
            Some(u) => u.hits > 0,
            None => old(state).users().contains_key(key@) ==> old(state).users()[key@].hits > 0,
        },
    ensures
        final(state).wf(),
        match possible_user_data {
            Some(u) => final(state).users() == (if old(state).users().contains_key(key@) {
                old(state).users().insert(key@, spend_hit(u))
            } else {
                old(state).users()
            }) && final(state).recency() == touched(old(state).recency(), key@),
            None => if old(state).users().contains_key(key@) {
                final(state).users() == old(state).users().insert(key@, spend_hit(old(state).users()[key@]))
                && final(state).recency() == touched(old(state).recency(), key@)
            } else {
                final(state).users() == old(state).users()
                && final(state).recency() == old(state).recency()
            },
        },
{
    let ghost r0 = state.recency();
    let ghost u0 = state.users();
    proof {
        lemma_touch_keeps_keys(r0, key@);
    }
    match possible_user_data {
        Some(user) => {
            if users_get(&state.users, key).is_some() {
                let mut user = user;
                user.hits = user.hits - 1;
                users_insert(&mut state.users, key.to_owned(), user);
            }
            state.cache.access_user(key);
        },
        None => {
            match users_get(&state.users, key) {
                Some(user) => {
                    let mut user = user;
                    user.hits = user.hits - 1;
                    users_insert(&mut state.users, key.to_owned(), user);
                    state.cache.access_user(key);
                },
                None => {},
            }
        },
    }
    assert forall|k: Seq<char>| #[trigger] state.recency().contains(k) implies state.users().contains_key(k) by {
        assert(r0.contains(k));
        assert(u0.contains_key(k));
    }
}

/// The limits registered for `key`, if any.
pub fn get_user_from_hash(state: &SharedState, key: &str) -> (r: Option<UserLimits>)
    ensures
        r is Some <==> state.users().contains_key(key@),
        r matches Some(u) ==> u == state.users()[key@],
{
    users_get(&state.users, key)
}

/// Reading a key back after it was added gives what was added.
pub proof fn lemma_read_after_add(users: Map<Seq<char>, UserLimits>, key: Seq<char>, user: UserLimits)
    ensures
        users.insert(key, user).contains_key(key),
        users.insert(key, user)[key] == user,
        forall|k: Seq<char>| k != key ==> users.insert(key, user).contains_key(k) == users.contains_key(k),
{
}

/// Reading a key back after it was removed finds nothing; other keys keep
/// their limits.
pub proof fn lemma_read_after_remove(users: Map<Seq<char>, UserLimits>, key: Seq<char>)
    ensures
        !users.remove(key).contains_key(key),
        forall|k: Seq<char>| k != key && users.contains_key(k) ==> users.remove(key).contains_key(k)
            && users.remove(key)[k] == users[k],
{
}

/// The daily reset keeps exactly the registered keys, and gives each its
/// plan's full request quota and no connections, on its same plan.
pub proof fn lemma_reset_restores_quota(users: Map<Seq<char>, UserLimits>, key: Seq<char>)
    requires
        users.contains_key(key),
    ensures
        reset_all(users).dom() == users.dom(),
        reset_all(users)[key].hits == request_limit(users[key].plan@),
        reset_all(users)[key].connections == 0,
        reset_all(users)[key].plan == users[key].plan,
{
    assert(reset_all(users).dom() =~= users.dom());
    assert(request_limit(users[key].plan@) <= 5000000);
}

/// Spending a request of a registered key lowers its request count by one
/// and leaves its connection count, its plan and every other key as they
/// were.
pub proof fn lemma_spend_hit_spends_only_a_request(users: Map<Seq<char>, UserLimits>, key: Seq<char>)
    requires
        users.contains_key(key),
        users[key].hits > 0,
    ensures
        ({
            let m2 = users.insert(key, spend_hit(users[key]));
            &&& m2.dom() == users.dom()
            &&& m2[key].hits == users[key].hits - 1
            &&& m2[key].connections == users[key].connections
            &&& m2[key].plan == users[key].plan
            &&& forall|k: Seq<char>| k != key && #[trigger] users.contains_key(k) ==> m2[k] == users[k]
        }),
{
    assert(users.insert(key, spend_hit(users[key])).dom() =~= users.dom());
}

} // verus!
