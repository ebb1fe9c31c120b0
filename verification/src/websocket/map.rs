//! The websocket server's registry of API keys. It starts uninitialised;
//! [`init_map`] makes it an empty table. Operations on an uninitialised
//! registry change nothing.

use vstd::prelude::*;
use vstd::hash_map::StringHashMap;
use crate::text::str_eq;
use crate::websocket::structs::UserLimits;
use crate::websocket::util::{
    connection_limit, request_limit, get_connection_limit_from_plan_name,
    get_request_limit_from_plan_name,
};
use crate::shared::lru::{lemma_index_of_unique, lemma_remove_keeps_no_dups};
use crate::shared::registry::{lists_exactly, listed_before};

verus! {

/// A user's limits after the daily reset: the plan's full request and
/// connection quotas.
pub open spec fn reset_user(u: UserLimits) -> UserLimits {
    UserLimits {
        hits: request_limit(u.plan@) as i64,
        connections: connection_limit(u.plan@) as i64,
        plan: u.plan,
    }
}

/// `u` with one request spent.
pub open spec fn spend_hit(u: UserLimits) -> UserLimits {
    UserLimits { hits: (u.hits - 1) as i64, connections: u.connections, plan: u.plan }
}

/// `u` with one connection spent.
pub open spec fn spend_connection(u: UserLimits) -> UserLimits {
    UserLimits { hits: u.hits, connections: (u.connections - 1) as i64, plan: u.plan }
}

/// The hash table and the list of its keys (for iteration).
struct UserTable {
    map: StringHashMap<UserLimits>,
    keys: Vec<String>,
}

impl UserTable {
    spec fn key_views(&self) -> Seq<Seq<char>> {
        self.keys@.map_values(|s: String| s@)
    }

    spec fn wf(&self) -> bool {
        &&& self.key_views().no_duplicates()
        &&& forall|k: Seq<char>| self.map@.contains_key(k) <==> self.key_views().contains(k)
    }

    fn new() -> (r: Self)
        ensures
            r.wf(),
            r.map@ == Map::<Seq<char>, UserLimits>::empty(),
    {
        let r = UserTable { map: StringHashMap::new(), keys: Vec::new() };
        assert(r.key_views() =~= Seq::<Seq<char>>::empty());
        r
    }

    fn insert(&mut self, key: String, user: UserLimits)
        requires
            old(self).wf(),
        ensures
            final(self).wf(),
            final(self).map@ == old(self).map@.insert(key@, user),
            old(self).map@.contains_key(key@) ==> final(self).keys@ == old(self).keys@,
    {
        if !self.map.contains_key(key.as_str()) {
            assert(!old(self).key_views().contains(key@));
            let k2 = key.clone();
            self.keys.push(k2);
            assert(self.key_views() =~= old(self).key_views().push(key@));
            assert forall|i: int, j: int|
                0 <= i < self.key_views().len() && 0 <= j < self.key_views().len() && i != j
                implies self.key_views()[i] != self.key_views()[j] by {
                if i == old(self).key_views().len() as int {
                    assert(old(self).key_views()[j] == self.key_views()[j]);
                } else if j == old(self).key_views().len() as int {
                    assert(old(self).key_views()[i] == self.key_views()[i]);
                } else {
                    assert(old(self).key_views()[i] == self.key_views()[i]);
                    assert(old(self).key_views()[j] == self.key_views()[j]);
                }
            }
            assert forall|k: Seq<char>| self.key_views().contains(k) implies old(self).key_views().contains(k)
                || k == key@ by {
                let i = choose|i: int| 0 <= i < self.key_views().len() && self.key_views()[i] == k;
                if i < old(self).key_views().len() {
                    assert(old(self).key_views()[i] == k);
                }
            }
            assert forall|k: Seq<char>| old(self).key_views().contains(k) implies self.key_views().contains(k) by {
                let i = choose|i: int| 0 <= i < old(self).key_views().len() && old(self).key_views()[i] == k;
                assert(self.key_views()[i] == k);
            }
            assert(self.key_views()[old(self).key_views().len() as int] == key@);
        }
        self.map.insert(key, user);
    }

    fn position(&self, key: &str) -> (r: Option<usize>)
        ensures
            r matches Some(i) ==> i < self.key_views().len() && self.key_views()[i as int] == key@,
            r is None ==> !self.key_views().contains(key@),
    {
        let mut i: usize = 0;
        while i < self.keys.len()
            invariant
                i <= self.keys.len(),
                forall|j: int| 0 <= j < i ==> self.key_views()[j] != key@,
            decreases self.keys.len() - i,
        {
            if str_eq(self.keys[i].as_str(), key) {
                return Some(i);
            }
            i = i + 1;
        }
        None
    }

    fn remove(&mut self, key: &str)
        requires
            old(self).wf(),
        ensures
            final(self).wf(),
            final(self).map@ == old(self).map@.remove(key@),
    {
        match self.position(key) {
            Some(i) => {
                proof {
                    lemma_index_of_unique(self.key_views(), key@, i as int);
                    lemma_remove_keeps_no_dups(self.key_views(), i as int);
                }
                let _k = self.keys.remove(i);
                assert(self.key_views() =~= old(self).key_views().remove(i as int));
            },
            None => {},
        }
        assert(self.key_views().no_duplicates());
        assert forall|k: Seq<char>| self.key_views().contains(k) <==> (old(self).key_views().contains(k)
            && k != key@) by {}
        self.map.remove(key);
        assert forall|k: Seq<char>| self.map@.contains_key(k) <==> self.key_views().contains(k) by {
            if k != key@ {
                assert(old(self).map@.contains_key(k) <==> self.map@.contains_key(k));
            }
        }
    }

    fn get(&self, key: &str) -> (r: Option<UserLimits>)
        ensures
            r is Some <==> self.map@.contains_key(key@),
            r matches Some(u) ==> u == self.map@[key@],
    {
        match self.map.get(key) {
            Some(u) => Some(u.clone()),
            None => None,
        }
    }
}

/// The registry: `None` until initialised.
pub struct ConnectionHash {
    table: Option<UserTable>,
}

impl View for ConnectionHash {
    type V = Option<Map<Seq<char>, UserLimits>>;

    /// The registered keys and limits, or `None` before initialisation.
    closed spec fn view(&self) -> Option<Map<Seq<char>, UserLimits>> {
        match self.table {
            Some(t) => Some(t.map@),
            None => None,
        }
    }
}

impl ConnectionHash {
    /// The registry's invariant.
    pub closed spec fn wf(&self) -> bool {
        match self.table {
            Some(t) => t.wf(),
            None => true,
        }
    }

    /// Whether the registry has been initialised.
    pub fn is_initialized(&self) -> (r: bool)
        ensures
            r == self@ is Some,
    {
        self.table.is_some()
    }

    /// An uninitialised registry.
    pub fn new() -> (r: Self)
        ensures
            r.wf(),
            r@ is None,
    {
        ConnectionHash { table: None }
    }
}

/// Initialises the registry to an empty table (dropping any previous one).
pub fn init_map(hash: &mut ConnectionHash)
    ensures
        final(hash).wf(),
        final(hash)@ == Some(Map::<Seq<char>, UserLimits>::empty()),
{
    hash.table = Some(UserTable::new());
}

/// Every registered key with its limits, each key once (for the `/users`
/// route, which serialises them). The registry must be initialised.
pub fn get_user_hash_map(hash: &ConnectionHash) -> (r: Vec<(String, UserLimits)>)
    requires
        hash.wf(),
        hash@ is Some,
    ensures
        lists_exactly(r@, hash@->0),
{
    let table = hash.table.as_ref().unwrap();
    let ghost kv = table.key_views();
    let mut out: Vec<(String, UserLimits)> = Vec::new();
    let mut i: usize = 0;
    while i < table.keys.len()
        invariant
            table.wf(),
            hash@ == Some(table.map@),
            kv == table.key_views(),
            i <= table.keys.len(),
            out@.len() == i,
            forall|j: int| 0 <= j < i ==> out@[j].0@ == kv[j],
            forall|j: int| 0 <= j < i ==> #[trigger] table.map@.contains_key(out@[j].0@)
                && table.map@[out@[j].0@] == out@[j].1,
        decreases table.keys.len() - i,
    {
        let key = table.keys[i].clone();
        assert(kv[i as int] == key@);
        assert(kv.contains(key@));
        match table.get(key.as_str()) {
            Some(user) => {
                out.push((key, user));
            },
            None => {
                assert(false);
            },
        }
        i = i + 1;
    }
    assert(out@.map_values(|e: (String, UserLimits)| e.0@) =~= kv);
    out
}

/// The daily reset: every registered user gets its plan's full request and
/// connection quotas. An uninitialised registry stays so.
pub fn reset_all_users_values(hash: &mut ConnectionHash)
    requires
        old(hash).wf(),
    ensures
        final(hash).wf(),
        match old(hash)@ {
            Some(m) => final(hash)@ == Some(m.map_values(|u: UserLimits| reset_user(u))),
            None => final(hash)@ is None,
        },
{
    match hash.table.take() {
        Some(mut table) => {
            let ghost m0 = table.map@;
            let ghost kv = table.key_views();
            let mut i: usize = 0;
            while i < table.keys.len()
                invariant
                    table.wf(),
                    kv == table.key_views(),
                    i <= table.keys.len(),
                    table.map@.dom() == m0.dom(),
                    forall|k: Seq<char>| #[trigger] m0.contains_key(k) ==> table.map@[k] == (
                        if listed_before(kv, i as int, k) { reset_user(m0[k]) } else { m0[k] }),
                decreases table.keys.len() - i,
            {
                let key = table.keys[i].clone();
                assert(kv[i as int] == key@);
                assert(kv.contains(key@));
                assert(!listed_before(kv, i as int, key@));
                match table.get(key.as_str()) {
                    Some(user) => {
                        let hits = get_request_limit_from_plan_name(user.plan.as_str());
                        let connections = get_connection_limit_from_plan_name(user.plan.as_str());
                        let fresh = UserLimits { hits: hits, connections: connections, plan: user.plan };
                        table.insert(key, fresh);
                        assert forall|k: Seq<char>| #[trigger] m0.contains_key(k) implies table.map@[k]
                            == (if listed_before(kv, i + 1, k) {
                            reset_user(m0[k])
                        } else {
                            m0[k]
                        }) by {
                            if k == kv[i as int] {
                                assert(listed_before(kv, i + 1, k));
                            } else {
                                assert(listed_before(kv, i + 1, k) == listed_before(kv, i as int, k));
                            }
                        }
                        assert(table.map@.dom() =~= m0.dom());
                    },
                    None => {
                        assert(false);
                    },
                }
                i = i + 1;
            }
            assert(table.map@ =~= m0.map_values(|u: UserLimits| reset_user(u))) by {
                assert forall|k: Seq<char>| #[trigger] m0.contains_key(k) implies listed_before(
                    kv,
                    table.keys.len() as int,
                    k,
                ) by {
                    assert(kv.contains(k));
                }
            }
            hash.table = Some(table);
        },
        None => {},
    }
}

/// Registers (or replaces) `key` with `user`; returns the number of
/// registered keys, or `None` when the registry is uninitialised (and then
/// nothing changes).
pub fn add_user_to_hash(hash: &mut ConnectionHash, key: String, user: UserLimits) -> (r: Option<usize>)
    requires
        old(hash).wf(),
    ensures
        final(hash).wf(),
        match old(hash)@ {
            Some(m) => final(hash)@ == Some(m.insert(key@, user)) && r == Some(
                m.insert(key@, user).len() as usize,
            ),
            None => final(hash)@ is None && r is None,
        },
{
    match hash.table.take() {
        Some(mut table) => {
            table.insert(key, user);
            let n = table.map.len();
            hash.table = Some(table);
            Some(n)
        },
        None => None,
    }
}

/// Forgets `key`.
pub fn remove_user_from_hash(hash: &mut ConnectionHash, key: &str)
    requires
        old(hash).wf(),
    ensures
        final(hash).wf(),
        match old(hash)@ {
            Some(m) => final(hash)@ == Some(m.remove(key@)),
            None => final(hash)@ is None,
        },
{
    match hash.table.take() {
        Some(mut table) => {
            table.remove(key);
            hash.table = Some(table);
        },
        None => {},
    }
}

/// Spends one request of a registered `key`; an unknown key changes nothing.
pub fn decrement_user_hits(hash: &mut ConnectionHash, key: &str)
    requires
        old(hash).wf(),
        old(hash)@ matches Some(m) ==> (m.contains_key(key@) ==> m[key@].hits > i64::MIN),
    ensures
        final(hash).wf(),
        match old(hash)@ {
            Some(m) => final(hash)@ == Some(
                if m.contains_key(key@) { m.insert(key@, spend_hit(m[key@])) } else { m },
            ),
            None => final(hash)@ is None,
        },
        old(hash)@ matches Some(m) ==> m.contains_key(key@) ==> ({
            let m2 = final(hash)@->0;
            &&& m2.dom() == m.dom()
            &&& m2[key@].hits == m[key@].hits - 1
            &&& m2[key@].connections == m[key@].connections
            &&& m2[key@].plan == m[key@].plan
            &&& forall|k: Seq<char>| k != key@ && #[trigger] m.contains_key(k) ==> m2[k] == m[k]
        }),
{
    proof {
        if let Some(m) = hash@ {
            if m.contains_key(key@) {
                lemma_spend_hit_spends_only_a_request(m, key@);
            }
        }
    }
    match hash.table.take() {
        Some(mut table) => {
            match table.get(key) {
                Some(user) => {
                    let mut user = user;
                    user.hits = user.hits - 1;
                    table.insert(key.to_owned(), user);
                },
                None => {},
            }
            hash.table = Some(table);
        },
        None => {},
    }
}

/// The limits registered for `key`, if any.
pub fn get_user_from_hash(hash: &ConnectionHash, key: &str) -> (r: Option<UserLimits>)
    requires
        hash.wf(),
    ensures
        match hash@ {
            Some(m) => (r is Some <==> m.contains_key(key@)) && (r matches Some(u) ==> u == m[key@]),
            None => r is None,
        },
{
    match &hash.table {
        Some(table) => table.get(key),
        None => None,
    }
}

/// Spends one connection of a registered `key`; an unknown key changes nothing.
pub fn decrement_user_connections(hash: &mut ConnectionHash, key: &str)
    requires
        old(hash).wf(),
        old(hash)@ matches Some(m) ==> (m.contains_key(key@) ==> m[key@].connections > i64::MIN),
    ensures
        final(hash).wf(),
        match old(hash)@ {
            Some(m) => final(hash)@ == Some(
                if m.contains_key(key@) { m.insert(key@, spend_connection(m[key@])) } else { m },
            ),
            None => final(hash)@ is None,
        },
        old(hash)@ matches Some(m) ==> m.contains_key(key@) ==> ({
            let m2 = final(hash)@->0;
            &&& m2.dom() == m.dom()
            &&& m2[key@].connections == m[key@].connections - 1
            &&& m2[key@].hits == m[key@].hits
            &&& m2[key@].plan == m[key@].plan
            &&& forall|k: Seq<char>| k != key@ && #[trigger] m.contains_key(k) ==> m2[k] == m[k]
        }),
{
    proof {
        if let Some(m) = hash@ {
            if m.contains_key(key@) {
                lemma_spend_connection_spends_only_a_connection(m, key@);
            }
        }
    }
    match hash.table.take() {
        Some(mut table) => {
            match table.get(key) {
                Some(user) => {
                    let mut user = user;
                    user.connections = user.connections - 1;
                    table.insert(key.to_owned(), user);
                },
                None => {},
            }
            hash.table = Some(table);
        },
        None => {},
    }
}

/// The daily reset keeps exactly the registered keys, and gives each its
/// plan's full request and connection quotas, on its same plan.
pub proof fn lemma_reset_restores_quota(users: Map<Seq<char>, UserLimits>, key: Seq<char>)
    requires
        users.contains_key(key),
    ensures
        users.map_values(|u: UserLimits| reset_user(u)).dom() == users.dom(),
        users.map_values(|u: UserLimits| reset_user(u))[key].hits == request_limit(users[key].plan@),
        users.map_values(|u: UserLimits| reset_user(u))[key].connections == connection_limit(
            users[key].plan@,
        ),
        users.map_values(|u: UserLimits| reset_user(u))[key].plan == users[key].plan,
{
    assert(users.map_values(|u: UserLimits| reset_user(u)).dom() =~= users.dom());
    assert(request_limit(users[key].plan@) <= 5000000);
    assert(connection_limit(users[key].plan@) <= 2000);
}

/// Spending a connection of a registered key lowers its connection count
/// by one and leaves its request count, its plan and every other key as
/// they were.
pub proof fn lemma_spend_connection_spends_only_a_connection(m: Map<Seq<char>, UserLimits>, key: Seq<char>)
    requires
        m.contains_key(key),
        m[key].connections > i64::MIN,
    ensures
        ({
            let m2 = m.insert(key, spend_connection(m[key]));
            &&& m2.dom() == m.dom()
            &&& m2[key].connections == m[key].connections - 1
            &&& m2[key].hits == m[key].hits
            &&& m2[key].plan == m[key].plan
            &&& forall|k: Seq<char>| k != key && #[trigger] m.contains_key(k) ==> m2[k] == m[k]
        }),
{
    assert(m.insert(key, spend_connection(m[key])).dom() =~= m.dom());
}

/// Spending a request of a registered key lowers its request count by one
/// and leaves its connection count, its plan and every other key as they
/// were.
pub proof fn lemma_spend_hit_spends_only_a_request(m: Map<Seq<char>, UserLimits>, key: Seq<char>)
    requires
        m.contains_key(key),
        m[key].hits > i64::MIN,
    ensures
        ({
            let m2 = m.insert(key, spend_hit(m[key]));
            &&& m2.dom() == m.dom()
            &&& m2[key].hits == m[key].hits - 1
            &&& m2[key].connections == m[key].connections
            &&& m2[key].plan == m[key].plan
            &&& forall|k: Seq<char>| k != key && #[trigger] m.contains_key(k) ==> m2[k] == m[k]
        }),
{
    assert(m.insert(key, spend_hit(m[key])).dom() =~= m.dom());
}

} // verus!
