//! A bounded recency cache of API keys.
//!
//! The cache orders keys from least to most recently used. Adding or touching
//! a key moves it to the most-recent end; when adding a new key would exceed
//! [`MAX_LRU_CACHE_SIZE`], the least recently used key is evicted.

use vstd::prelude::*;
use crate::text::str_eq;

verus! {

/// The most keys the cache holds.
pub const MAX_LRU_CACHE_SIZE: usize = 100;

/// `s` with the occurrence of `k` removed (unchanged when `k` is absent).
pub open spec fn without_key(s: Seq<Seq<char>>, k: Seq<char>) -> Seq<Seq<char>> {
    if s.contains(k) {
        s.remove(s.index_of(k))
    } else {
        s
    }
}

/// The order after `k` is used: a present key moves to the most-recent end.
pub open spec fn touched(s: Seq<Seq<char>>, k: Seq<char>) -> Seq<Seq<char>> {
    if s.contains(k) {
        without_key(s, k).push(k)
    } else {
        s
    }
}

/// The order after `k` is added: a present key is touched; an absent key is
/// appended, evicting the least recently used key when the cache would
/// exceed its capacity.
pub open spec fn after_add(s: Seq<Seq<char>>, k: Seq<char>) -> Seq<Seq<char>> {
    if s.contains(k) {
        touched(s, k)
    } else if s.len() + 1 <= MAX_LRU_CACHE_SIZE {
        s.push(k)
    } else {
        s.push(k).drop_first()
    }
}

/// The invariant of a recency order: no key twice, at most the capacity.
pub open spec fn recency_wf(s: Seq<Seq<char>>) -> bool {
    &&& s.no_duplicates()
    &&& s.len() <= MAX_LRU_CACHE_SIZE
}

/// The keys of the cache, least recently used first.
struct RecencyList {
    keys: Vec<String>,
}

impl RecencyList {
    spec fn view(&self) -> Seq<Seq<char>> {
        self.keys@.map_values(|s: String| s@)
    }

    fn new() -> (r: Self)
        ensures
            r.view() == Seq::<Seq<char>>::empty(),
    {
        let r = RecencyList { keys: Vec::new() };
        assert(r.view() =~= Seq::<Seq<char>>::empty());
        r
    }

    fn len(&self) -> (r: usize)
        ensures
            r == self.view().len(),
    {
        self.keys.len()
    }

    /// Appends `key` at the most-recent end.
    fn push_back(&mut self, key: String)
        ensures
            final(self).view() == old(self).view().push(key@),
    {
        self.keys.push(key);
        assert(self.view() =~= old(self).view().push(key@));
    }

    /// Removes the key at `index` and returns it.
    fn remove_node(&mut self, index: usize) -> (r: String)
        requires
            index < old(self).view().len(),
        ensures
            final(self).view() == old(self).view().remove(index as int),
            r@ == old(self).view()[index as int],
    {
        let r = self.keys.remove(index);
        assert(self.view() =~= old(self).view().remove(index as int));
        r
    }

    /// Removes and returns the least recently used key, if any.
    fn pop_front(&mut self) -> (r: Option<String>)
        ensures
            old(self).view().len() == 0 ==> r is None && final(self).view() == old(self).view(),
            old(self).view().len() > 0 ==> r is Some && r->0@ == old(self).view()[0]
                && final(self).view() == old(self).view().drop_first(),
    {
        if self.keys.len() == 0 {
            None
        } else {
            let k = self.remove_node(0);
            assert(old(self).view().remove(0) =~= old(self).view().drop_first());
            Some(k)
        }
    }

    /// The index of `key`, if present.
    fn position(&self, key: &str) -> (r: Option<usize>)
        ensures
            r matches Some(i) ==> i < self.view().len() && self.view()[i as int] == key@,
            r is None ==> !self.view().contains(key@),
    {
        let mut i: usize = 0;
        while i < self.keys.len()
            invariant
                i <= self.keys.len(),
                forall|j: int| 0 <= j < i ==> self.view()[j] != key@,
            decreases self.keys.len() - i,
        {
            if str_eq(self.keys[i].as_str(), key) {
                return Some(i);
            }
            i = i + 1;
        }
        None
    }

    fn to_vec(&self) -> (r: Vec<String>)
        ensures
            r@.map_values(|s: String| s@) == self.view(),
    {
        let mut out: Vec<String> = Vec::new();
        let mut i: usize = 0;
        while i < self.keys.len()
            invariant
                i <= self.keys.len(),
                out@.len() == i,
                forall|j: int| 0 <= j < i ==> out@[j] == self.keys@[j],
            decreases self.keys.len() - i,
        {
            out.push(self.keys[i].clone());
            i = i + 1;
        }
        assert(out@.map_values(|s: String| s@) =~= self.view());
        out
    }
}

/// A bounded least-recently-used cache of API keys.
pub struct LruCache {
    list: RecencyList,
}

impl View for LruCache {
    type V = Seq<Seq<char>>;

    /// The cached keys, least recently used first.
    closed spec fn view(&self) -> Seq<Seq<char>> {
        self.list.view()
    }
}

pub proof fn lemma_index_of_unique(s: Seq<Seq<char>>, k: Seq<char>, p: int)
    requires
        s.no_duplicates(),
        0 <= p < s.len(),
        s[p] == k,
    ensures
        s.contains(k),
        s.index_of(k) == p,
{
    assert(s.contains(k));
}

pub proof fn lemma_remove_keeps_no_dups(s: Seq<Seq<char>>, p: int)
    requires
        s.no_duplicates(),
        0 <= p < s.len(),
    ensures
        s.remove(p).no_duplicates(),
        !s.remove(p).contains(s[p]),
        forall|x: Seq<char>| x != s[p] ==> (s.remove(p).contains(x) <==> s.contains(x)),
{
    let r = s.remove(p);
    assert forall|i: int, j: int| 0 <= i < r.len() && 0 <= j < r.len() && i != j implies r[i]
        != r[j] by {
        let si = if i < p { i } else { i + 1 };
        let sj = if j < p { j } else { j + 1 };
        assert(r[i] == s[si]);
        assert(r[j] == s[sj]);
    }
    assert forall|x: Seq<char>| x != s[p] implies (r.contains(x) <==> s.contains(x)) by {
        if s.contains(x) {
            let i = choose|i: int| 0 <= i < s.len() && s[i] == x;
            let ri = if i < p { i } else { i - 1 };
            assert(r[ri] == x);
        }
        if r.contains(x) {
            let i = choose|i: int| 0 <= i < r.len() && r[i] == x;
            let si = if i < p { i } else { i + 1 };
            assert(s[si] == x);
        }
    }
    if r.contains(s[p]) {
        let i = choose|i: int| 0 <= i < r.len() && r[i] == s[p];
        let si = if i < p { i } else { i + 1 };
        assert(s[si] == s[p]);
    }
}

pub proof fn lemma_push_absent_keeps_no_dups(s: Seq<Seq<char>>, k: Seq<char>)
    requires
        s.no_duplicates(),
        !s.contains(k),
    ensures
        s.push(k).no_duplicates(),
        s.push(k).drop_first().no_duplicates(),
{
    let t = s.push(k);
    assert forall|i: int, j: int| 0 <= i < t.len() && 0 <= j < t.len() && i != j implies t[i]
        != t[j] by {
        if i == s.len() {
            assert(s[j] == t[j]);
        } else if j == s.len() {
            assert(s[i] == t[i]);
        }
    }
    let d = t.drop_first();
    assert forall|i: int, j: int| 0 <= i < d.len() && 0 <= j < d.len() && i != j implies d[i]
        != d[j] by {
        assert(d[i] == t[i + 1]);
        assert(d[j] == t[j + 1]);
    }
}

impl LruCache {
    /// The cache's invariant: no key twice, at most the capacity.
    pub open spec fn wf(&self) -> bool {
        recency_wf(self@)
    }

    /// An empty cache.
    pub fn new() -> (r: Self)
        ensures
            r.wf(),
            r@ == Seq::<Seq<char>>::empty(),
    {
        LruCache { list: RecencyList::new() }
    }

    /// Records a use of `key`: a new key is appended as most recent (evicting
    /// the least recently used key if the cache is over capacity); a cached
    /// key is moved to the most-recent end.
    pub fn add_user(&mut self, key: String)
        requires
            old(self).wf(),
        ensures
            final(self).wf(),
            final(self)@ == after_add(old(self)@, key@),
            final(self)@[final(self)@.len() - 1] == key@,
            old(self)@.contains(key@) ==> final(self)@.len() == old(self)@.len()
                && (forall|i: int| 0 <= i < old(self)@.index_of(key@) ==> #[trigger] final(self)@[i] == old(self)@[i])
                && (forall|i: int| old(self)@.index_of(key@) <= i < old(self)@.len() - 1
                    ==> #[trigger] final(self)@[i] == old(self)@[i + 1]),
            !old(self)@.contains(key@) && old(self)@.len() < MAX_LRU_CACHE_SIZE ==> final(self)@.len()
                == old(self)@.len() + 1
                && (forall|i: int| 0 <= i < old(self)@.len() ==> #[trigger] final(self)@[i] == old(self)@[i]),
            !old(self)@.contains(key@) && old(self)@.len() == MAX_LRU_CACHE_SIZE ==> final(self)@.len()
                == old(self)@.len()
                && (forall|i: int| 0 <= i < old(self)@.len() - 1 ==> #[trigger] final(self)@[i] == old(self)@[i + 1]),
    {
        proof {
            lemma_added_key_is_most_recent(self@, key@);
            if self@.contains(key@) {
                lemma_touch_positions(self@, key@);
            } else {
                lemma_add_new_positions(self@, key@);
            }
        }
        match self.list.position(key.as_str()) {
            Some(_) => {
                self.access_user(key.as_str());
            },
            None => {
                proof {
                    lemma_push_absent_keeps_no_dups(self@, key@);
                }
                self.list.push_back(key);
                if self.list.len() > MAX_LRU_CACHE_SIZE {
                    let _evicted = self.list.pop_front();
                }
            },
        }
    }

    /// Moves a cached `key` to the most-recent end; does nothing for a key
    /// that is not cached.
    pub fn access_user(&mut self, key: &str)
        requires
            old(self).wf(),
        ensures
            final(self).wf(),
            final(self)@ == touched(old(self)@, key@),
            !old(self)@.contains(key@) ==> final(self)@ == old(self)@,
            old(self)@.contains(key@) ==> final(self)@.len() == old(self)@.len()
                && final(self)@[final(self)@.len() - 1] == key@
                && (forall|i: int| 0 <= i < old(self)@.index_of(key@) ==> #[trigger] final(self)@[i] == old(self)@[i])
                && (forall|i: int| old(self)@.index_of(key@) <= i < old(self)@.len() - 1
                    ==> #[trigger] final(self)@[i] == old(self)@[i + 1]),
    {
        proof {
            lemma_touch_positions(self@, key@);
        }
        match self.list.position(key) {
            Some(i) => {
                proof {
                    lemma_index_of_unique(self@, key@, i as int);
                    lemma_remove_keeps_no_dups(self@, i as int);
                    lemma_push_absent_keeps_no_dups(self@.remove(i as int), key@);
                }
                let k = self.list.remove_node(i);
                self.list.push_back(k);
            },
            None => {},
        }
    }

    /// Forgets `key`; the order of the other keys is unchanged.
    pub fn remove_user(&mut self, key: &str)
        requires
            old(self).wf(),
        ensures
            final(self).wf(),
            final(self)@ == without_key(old(self)@, key@),
            !old(self)@.contains(key@) ==> final(self)@ == old(self)@,
            old(self)@.contains(key@) ==> final(self)@.len() == old(self)@.len() - 1
                && !final(self)@.contains(key@)
                && (forall|i: int| 0 <= i < old(self)@.index_of(key@) ==> #[trigger] final(self)@[i] == old(self)@[i])
                && (forall|i: int| old(self)@.index_of(key@) <= i < old(self)@.len() - 1
                    ==> #[trigger] final(self)@[i] == old(self)@[i + 1]),
    {
        proof {
            lemma_remove_positions(self@, key@);
            lemma_removed_key_absent(self@, key@);
        }
        match self.list.position(key) {
            Some(i) => {
                proof {
                    lemma_index_of_unique(self@, key@, i as int);
                    lemma_remove_keeps_no_dups(self@, i as int);
                }
                let _k = self.list.remove_node(i);
            },
            None => {},
        }
    }

    /// Empties the cache.
    pub fn clear(&mut self)
        ensures
            final(self).wf(),
            final(self)@ == Seq::<Seq<char>>::empty(),
    {
        self.list = RecencyList::new();
    }

    /// The number of cached keys.
    pub fn len(&self) -> (r: usize)
        ensures
            r == self@.len(),
    {
        self.list.len()
    }

    /// Whether `key` is cached.
    pub fn contains(&self, key: &str) -> (r: bool)
        ensures
            r == self@.contains(key@),
    {
        self.list.position(key).is_some()
    }

    /// The cached keys, least recently used first.
    pub fn keys_by_recency(&self) -> (r: Vec<String>)
        ensures
            r@.map_values(|s: String| s@) == self@,
    {
        self.list.to_vec()
    }
}

/// After a key is added it is cached, it is the most recently used key, and
/// the cache still holds no key twice and at most its capacity.
pub proof fn lemma_added_key_is_most_recent(s: Seq<Seq<char>>, k: Seq<char>)
    requires
        recency_wf(s),
    ensures
        after_add(s, k).contains(k),
        after_add(s, k).last() == k,
        recency_wf(after_add(s, k)),
{
    let r = after_add(s, k);
    if s.contains(k) {
        let p = s.index_of(k);
        lemma_index_of_unique(s, k, p);
        lemma_remove_keeps_no_dups(s, p);
        lemma_push_absent_keeps_no_dups(s.remove(p), k);
    } else {
        lemma_push_absent_keeps_no_dups(s, k);
        if s.len() + 1 > MAX_LRU_CACHE_SIZE {
            assert(r[r.len() - 1] == s.push(k)[s.len() as int]);
        }
    }
    assert(r[r.len() - 1] == k);
}

/// Adding a key caches no key but it and the keys already cached.
pub proof fn lemma_add_caches_no_stranger(s: Seq<Seq<char>>, k: Seq<char>)
    requires
        recency_wf(s),
    ensures
        forall|x: Seq<char>| #[trigger] after_add(s, k).contains(x) ==> x == k || s.contains(x),
{
    let r = after_add(s, k);
    if s.contains(k) {
        lemma_touch_keeps_keys(s, k);
    } else {
        assert forall|x: Seq<char>| #[trigger] r.contains(x) implies x == k || s.contains(x) by {
            let i = choose|i: int| 0 <= i < r.len() && r[i] == x;
            let t = s.push(k);
            let ti = if s.len() + 1 <= MAX_LRU_CACHE_SIZE { i } else { i + 1 };
            assert(t[ti] == x);
            if ti < s.len() {
                assert(s[ti] == x);
            }
        }
    }
}

/// Using a cached key changes neither which keys are cached nor how many;
/// using an uncached key changes nothing.
pub proof fn lemma_touch_keeps_keys(s: Seq<Seq<char>>, k: Seq<char>)
    requires
        recency_wf(s),
    ensures
        touched(s, k).len() == s.len(),
        forall|x: Seq<char>| touched(s, k).contains(x) <==> s.contains(x),
        recency_wf(touched(s, k)),
{
    if s.contains(k) {
        let p = s.index_of(k);
        lemma_index_of_unique(s, k, p);
        lemma_remove_keeps_no_dups(s, p);
        lemma_push_absent_keeps_no_dups(s.remove(p), k);
        let t = touched(s, k);
        assert forall|x: Seq<char>| t.contains(x) <==> s.contains(x) by {
            if x == k {
                assert(t[t.len() - 1] == k);
            } else {
                if t.contains(x) {
                    let i = choose|i: int| 0 <= i < t.len() && t[i] == x;
                    assert(s.remove(p)[i] == x);
                }
                if s.remove(p).contains(x) {
                    let i = choose|i: int| 0 <= i < s.remove(p).len() && s.remove(p)[i] == x;
                    assert(t[i] == x);
                }
            }
        }
    }
}

/// Removing a key uncaches it, keeps every other key, and keeps the order
/// of the others.
pub proof fn lemma_removed_key_absent(s: Seq<Seq<char>>, k: Seq<char>)
    requires
        recency_wf(s),
    ensures
        !without_key(s, k).contains(k),
        forall|x: Seq<char>| x != k ==> (without_key(s, k).contains(x) <==> s.contains(x)),
        recency_wf(without_key(s, k)),
        s.contains(k) ==> without_key(s, k) == s.remove(s.index_of(k)),
{
    if s.contains(k) {
        let p = s.index_of(k);
        lemma_index_of_unique(s, k, p);
        lemma_remove_keeps_no_dups(s, p);
    }
}

/// Adding a new key to a full cache evicts exactly the least recently used
/// key: the others keep their order and the new key comes last.
pub proof fn lemma_full_cache_evicts_oldest(s: Seq<Seq<char>>, k: Seq<char>)
    requires
        recency_wf(s),
        s.len() == MAX_LRU_CACHE_SIZE,
        !s.contains(k),
    ensures
        after_add(s, k) == s.drop_first().push(k),
        after_add(s, k).len() == MAX_LRU_CACHE_SIZE,
        !after_add(s, k).contains(s[0]),
{
    assert(s.push(k).drop_first() =~= s.drop_first().push(k));
    let r = after_add(s, k);
    if r.contains(s[0]) {
        let i = choose|i: int| 0 <= i < r.len() && r[i] == s[0];
        if i < r.len() - 1 {
            assert(s[i + 1] == s[0]);
        }
    }
}

/// Using a cached key takes it out of its place and puts it at the
/// most-recent end; every key before it keeps its place, every key after it
/// moves one place towards the least-recent end, so the other keys keep
/// their relative order. Using an uncached key changes nothing.
pub proof fn lemma_touch_positions(s: Seq<Seq<char>>, k: Seq<char>)
    requires
        recency_wf(s),
    ensures
        !s.contains(k) ==> touched(s, k) == s,
        s.contains(k) ==> ({
            let t = touched(s, k);
            let p = s.index_of(k);
            &&& 0 <= p < s.len()
            &&& s[p] == k
            &&& t.len() == s.len()
            &&& t[t.len() - 1] == k
            &&& forall|i: int| 0 <= i < p ==> #[trigger] t[i] == s[i]
            &&& forall|i: int| p <= i < s.len() - 1 ==> #[trigger] t[i] == s[i + 1]
        }),
{
    if s.contains(k) {
        let p = s.index_of(k);
        lemma_index_of_unique(s, k, p);
        lemma_remove_keeps_no_dups(s, p);
        let t = touched(s, k);
        assert(t == s.remove(p).push(k));
        assert forall|i: int| 0 <= i < p implies #[trigger] t[i] == s[i] by {
            assert(t[i] == s.remove(p)[i]);
        }
        assert forall|i: int| p <= i < s.len() - 1 implies #[trigger] t[i] == s[i + 1] by {
            assert(t[i] == s.remove(p)[i]);
        }
    }
}

/// Removing a cached key closes its gap: every key before it keeps its
/// place and every key after it moves one place towards the least-recent
/// end. Removing an uncached key changes nothing.
pub proof fn lemma_remove_positions(s: Seq<Seq<char>>, k: Seq<char>)
    requires
        recency_wf(s),
    ensures
        !s.contains(k) ==> without_key(s, k) == s,
        s.contains(k) ==> ({
            let w = without_key(s, k);
            let p = s.index_of(k);
            &&& 0 <= p < s.len()
            &&& s[p] == k
            &&& w.len() == s.len() - 1
            &&& forall|i: int| 0 <= i < p ==> #[trigger] w[i] == s[i]
            &&& forall|i: int| p <= i < s.len() - 1 ==> #[trigger] w[i] == s[i + 1]
        }),
{
    if s.contains(k) {
        let p = s.index_of(k);
        lemma_index_of_unique(s, k, p);
    }
}

/// Adding an uncached key puts it at the most-recent end and keeps every
/// other key in its order; when the cache is full, exactly the least
/// recently used key leaves and every other key moves one place towards
/// the least-recent end.
pub proof fn lemma_add_new_positions(s: Seq<Seq<char>>, k: Seq<char>)
    requires
        recency_wf(s),
        !s.contains(k),
    ensures
        ({
            let r = after_add(s, k);
            &&& r[r.len() - 1] == k
            &&& s.len() < MAX_LRU_CACHE_SIZE ==> r.len() == s.len() + 1
                && forall|i: int| 0 <= i < s.len() ==> #[trigger] r[i] == s[i]
            &&& s.len() == MAX_LRU_CACHE_SIZE ==> r.len() == s.len()
                && forall|i: int| 0 <= i < s.len() - 1 ==> #[trigger] r[i] == s[i + 1]
        }),
{
    let r = after_add(s, k);
    if s.len() < MAX_LRU_CACHE_SIZE {
        assert forall|i: int| 0 <= i < s.len() implies #[trigger] r[i] == s[i] by {
            assert(r[i] == s.push(k)[i]);
        }
        assert(r[r.len() - 1] == s.push(k)[s.len() as int]);
    } else {
        assert forall|i: int| 0 <= i < s.len() - 1 implies #[trigger] r[i] == s[i + 1] by {
            assert(r[i] == s.push(k)[i + 1]);
        }
        assert(r[r.len() - 1] == s.push(k)[s.len() as int]);
    }
}

/// One operation on the cache, by the key it is given.
pub enum CacheOp {
    Add(Seq<char>),
    Access(Seq<char>),
    Remove(Seq<char>),
    Clear,
}

/// The order after `op`, as `add_user`, `access_user`, `remove_user` and
/// `clear` state it.
pub open spec fn apply_op(s: Seq<Seq<char>>, op: CacheOp) -> Seq<Seq<char>> {
    match op {
        CacheOp::Add(k) => after_add(s, k),
        CacheOp::Access(k) => touched(s, k),
        CacheOp::Remove(k) => without_key(s, k),
        CacheOp::Clear => Seq::<Seq<char>>::empty(),
    }
}

/// The order of a cache made by `new` and then given `ops`, in turn.
pub open spec fn replay(ops: Seq<CacheOp>) -> Seq<Seq<char>>
    decreases ops.len(),
{
    if ops.len() == 0 {
        Seq::<Seq<char>>::empty()
    } else {
        apply_op(replay(ops.drop_last()), ops.last())
    }
}

/// Every operation keeps the cache's invariant.
pub proof fn lemma_op_keeps_wf(s: Seq<Seq<char>>, op: CacheOp)
    requires
        recency_wf(s),
    ensures
        recency_wf(apply_op(s, op)),
{
    match op {
        CacheOp::Add(k) => lemma_added_key_is_most_recent(s, k),
        CacheOp::Access(k) => lemma_touch_keeps_keys(s, k),
        CacheOp::Remove(k) => lemma_removed_key_absent(s, k),
        CacheOp::Clear => {},
    }
}

/// A cache reached from an empty one by any sequence of adds, accesses,
/// removals and clears holds no key twice and at most its capacity of keys.
pub proof fn lemma_replay_wf(ops: Seq<CacheOp>)
    ensures
        recency_wf(replay(ops)),
    decreases ops.len(),
{
    if ops.len() > 0 {
        lemma_replay_wf(ops.drop_last());
        lemma_op_keeps_wf(replay(ops.drop_last()), ops.last());
    }
}

} // verus!
