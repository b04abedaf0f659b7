use espx_ls::lru::LRUCache;

fn s(x: &str) -> String {
    x.to_string()
}

#[test]
fn update_then_get_returns_value() {
    let mut cache = LRUCache::new(5);
    cache.update(s("file:///a"), s("alpha"));
    assert_eq!(cache.get(&s("file:///a")), Some(s("alpha")));
    assert_eq!(cache.get(&s("file:///b")), None);
}

#[test]
fn updating_a_cached_key_replaces_its_value() {
    let mut cache = LRUCache::new(5);
    cache.update(s("k"), s("one"));
    cache.update(s("k"), s("two"));
    assert_eq!(cache.get(&s("k")), Some(s("two")));
    assert!(!cache.at_capacity());
}

#[test]
fn reaching_capacity_evicts_the_oldest_key() {
    let mut cache = LRUCache::new(5);
    for i in 1..=4 {
        cache.update(format!("k{i}"), format!("v{i}"));
    }
    assert!(!cache.at_capacity());
    for i in 1..=4 {
        assert_eq!(cache.get(&format!("k{i}")), Some(format!("v{i}")));
    }
    cache.update(s("k5"), s("v5"));
    assert!(cache.at_capacity());
    assert_eq!(cache.get(&s("k1")), None);
    assert_eq!(cache.get(&s("k2")), Some(s("v2")));
    assert_eq!(cache.get(&s("k5")), Some(s("v5")));
}

#[test]
fn recently_read_keys_survive_eviction() {
    let mut cache = LRUCache::new(4);
    cache.update(s("a"), s("1"));
    cache.update(s("b"), s("2"));
    cache.update(s("c"), s("3"));
    assert_eq!(cache.get(&s("a")), Some(s("1")));
    cache.update(s("d"), s("4"));
    assert_eq!(cache.get(&s("b")), None);
    assert_eq!(cache.get(&s("a")), Some(s("1")));
}

#[test]
fn evicting_a_replaced_value_does_not_complete() {
    let mut cache = LRUCache::new(3);
    cache.update(s("a"), s("1"));
    cache.update(s("a"), s("2"));
    cache.update(s("b"), s("3"));
    assert!(cache.can_update(&s("a"), &s("5")));
    assert!(!cache.can_update(&s("c"), &s("4")));
}

#[test]
fn a_cache_of_capacity_one_needs_the_value_known() {
    let cache = LRUCache::new(1);
    assert!(!cache.can_update(&s("a"), &s("1")));
    assert!(cache.can_get(&s("a")));
}

#[test]
fn a_written_key_can_always_be_read_back() {
    let mut cache = LRUCache::new(3);
    let keys = ["a", "b", "a", "c", "d", "b", "e", "a"];
    let mut written = 0;
    for (i, k) in keys.iter().enumerate() {
        let v = format!("v{}", i);
        if !cache.can_update(&s(k), &v) {
            continue;
        }
        cache.update(s(k), v.clone());
        written += 1;
        assert!(cache.can_get(&s(k)));
        assert_eq!(cache.get(&s(k)), Some(v));
    }
    assert!(written >= 5);
}

#[test]
fn keys_read_at_the_ends_keep_eviction_in_recency_order() {
    let mut cache = LRUCache::new(4);
    cache.update(s("a"), s("1"));
    cache.update(s("b"), s("2"));
    cache.update(s("c"), s("3"));
    assert_eq!(cache.get(&s("a")), Some(s("1")));
    assert_eq!(cache.get(&s("b")), Some(s("2")));
    cache.update(s("d"), s("4"));
    assert_eq!(cache.get(&s("c")), None);
    cache.update(s("e"), s("5"));
    assert_eq!(cache.get(&s("a")), None);
    assert!(cache.can_get(&s("b")));
    assert_eq!(cache.get(&s("b")), Some(s("2")));
}

#[test]
fn reading_a_middle_key_leaves_its_successor_behind_later() {
    let mut cache = LRUCache::new(4);
    cache.update(s("a"), s("1"));
    cache.update(s("b"), s("2"));
    cache.update(s("c"), s("3"));
    assert_eq!(cache.get(&s("b")), Some(s("2")));
    cache.update(s("d"), s("4"));
    assert!(cache.can_update(&s("e"), &s("5")));
    cache.update(s("e"), s("5"));
    assert!(cache.can_get(&s("b")));
    assert_eq!(cache.get(&s("b")), None);
    assert!(cache.can_get(&s("c")));
    assert_eq!(cache.get(&s("c")), Some(s("3")));
}
