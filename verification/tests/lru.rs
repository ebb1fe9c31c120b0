use ignition::shared::lru::{LruCache, MAX_LRU_CACHE_SIZE};

fn order(c: &LruCache) -> Vec<String> {
    c.keys_by_recency()
}

#[test]
fn new_cache_is_empty() {
    let c = LruCache::new();
    assert_eq!(c.len(), 0);
    assert!(order(&c).is_empty());
}

#[test]
fn added_keys_come_last() {
    let mut c = LruCache::new();
    c.add_user("a".to_string());
    c.add_user("b".to_string());
    c.add_user("c".to_string());
    assert_eq!(order(&c), vec!["a", "b", "c"]);
}

#[test]
fn adding_a_cached_key_moves_it_to_the_end() {
    let mut c = LruCache::new();
    c.add_user("a".to_string());
    c.add_user("b".to_string());
    c.add_user("a".to_string());
    assert_eq!(order(&c), vec!["b", "a"]);
    assert_eq!(c.len(), 2);
}

#[test]
fn access_moves_to_the_end_and_keeps_the_keys() {
    let mut c = LruCache::new();
    for k in ["a", "b", "c"] {
        c.add_user(k.to_string());
    }
    c.access_user("a");
    assert_eq!(order(&c), vec!["b", "c", "a"]);
    c.access_user("zzz");
    assert_eq!(order(&c), vec!["b", "c", "a"]);
}

#[test]
fn remove_forgets_the_key_and_keeps_the_order() {
    let mut c = LruCache::new();
    for k in ["a", "b", "c"] {
        c.add_user(k.to_string());
    }
    c.remove_user("b");
    assert_eq!(order(&c), vec!["a", "c"]);
    assert!(!c.contains("b"));
    c.remove_user("nope");
    assert_eq!(order(&c), vec!["a", "c"]);
}

#[test]
fn clear_empties() {
    let mut c = LruCache::new();
    c.add_user("a".to_string());
    c.clear();
    assert_eq!(c.len(), 0);
    assert!(!c.contains("a"));
}

#[test]
fn full_cache_evicts_least_recent() {
    let mut c = LruCache::new();
    for i in 0..MAX_LRU_CACHE_SIZE {
        c.add_user(format!("k{}", i));
    }
    assert_eq!(c.len(), 100);
    c.access_user("k0");
    c.add_user("new".to_string());
    assert_eq!(c.len(), 100);
    assert!(!c.contains("k1"));
    assert!(c.contains("k0"));
    let o = order(&c);
    assert_eq!(o[0], "k2");
    assert_eq!(o[98], "k0");
    assert_eq!(o[99], "new");
}

#[test]
fn cache_never_exceeds_capacity() {
    let mut c = LruCache::new();
    for i in 0..250 {
        c.add_user(format!("user-{}", i % 170));
        assert!(c.len() <= MAX_LRU_CACHE_SIZE);
    }
    let o = order(&c);
    let mut dedup = o.clone();
    dedup.sort();
    dedup.dedup();
    assert_eq!(dedup.len(), o.len());
}

#[test]
fn any_mix_of_operations_keeps_keys_unique_and_bounded() {
    let mut c = LruCache::new();
    for i in 0..600usize {
        let key = format!("k{}", (i * 7) % 130);
        match i % 5 {
            0 | 1 => c.add_user(key),
            2 => c.access_user(&key),
            3 => c.remove_user(&key),
            _ => {
                if i % 97 == 4 {
                    c.clear();
                } else {
                    c.add_user(key);
                }
            }
        }
        let o = order(&c);
        assert!(o.len() <= MAX_LRU_CACHE_SIZE);
        let mut dedup = o.clone();
        dedup.sort();
        dedup.dedup();
        assert_eq!(dedup.len(), o.len());
    }
}
