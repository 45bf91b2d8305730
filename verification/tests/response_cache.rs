use rpc_cache::response_cache::{hash, ResponseCache};
use std::collections::hash_map::DefaultHasher;
use std::hash::{Hash, Hasher};

fn std_hash<T: Hash>(value: T) -> u64 {
    let mut hasher = DefaultHasher::new();
    value.hash(&mut hasher);
    hasher.finish()
}

#[test]
fn hashes_are_those_of_the_default_hasher() {
    assert_eq!(hash("[\"abc\",{}]"), std_hash("[\"abc\",{}]"));
    assert_eq!(hash(""), std_hash(""));
    if cfg_is_little_endian() {
        assert_eq!(hash((3u64, u64::MAX)), std_hash((3u64, u64::MAX)));
    }
    assert_eq!(hash((3u64, 4u64)), hash((3u64, 4u64)));
    assert_ne!(hash((3u64, 4u64)), hash((4u64, 3u64)));
    assert_ne!(hash("a"), hash("b"));
}

#[test]
fn references_hash_like_their_values() {
    let pair = (3u64, 4u64);
    assert_eq!(hash(&pair), hash(pair));
    assert_eq!(hash(&&pair), hash(pair));
    let text = String::from("[\"abc\"]");
    assert_eq!(hash(&text.as_str()), hash("[\"abc\"]"));
    assert_eq!(hash(&text.as_str()), std_hash(&text.as_str()));
}

fn cfg_is_little_endian() -> bool {
    1u16.to_ne_bytes() == [1, 0]
}

#[test]
fn bodies_are_found_again() {
    let mut cache = ResponseCache::new(2);
    assert_eq!(cache.get(1), None);
    cache.put(1, b"one");
    assert_eq!(cache.get(1), Some(b"one".to_vec()));
    cache.put(1, b"uno");
    assert_eq!(cache.get(1), Some(b"uno".to_vec()));
}

#[test]
fn the_least_recently_used_is_forgotten() {
    let mut cache = ResponseCache::new(2);
    cache.put(1, b"one");
    cache.put(2, b"two");
    assert!(cache.get(1).is_some());
    cache.put(3, b"three");
    assert_eq!(cache.get(2), None);
    assert_eq!(cache.get(1), Some(b"one".to_vec()));
    assert_eq!(cache.get(3), Some(b"three".to_vec()));
}

#[test]
fn replacing_forgets_nothing() {
    let mut cache = ResponseCache::new(2);
    cache.put(1, b"one");
    cache.put(2, b"two");
    cache.put(1, b"uno");
    assert_eq!(cache.get(2), Some(b"two".to_vec()));
    assert_eq!(cache.get(1), Some(b"uno".to_vec()));
}

#[test]
fn a_cache_without_room_stays_empty() {
    let mut cache = ResponseCache::new(0);
    cache.put(1, b"one");
    assert_eq!(cache.get(1), None);
}

#[test]
fn any_limit_will_do() {
    for limit in vec![1, 0x400_0001, usize::MAX - 1, usize::MAX] {
        let mut cache = ResponseCache::new(limit);
        cache.put(1, b"one");
        assert_eq!(cache.get(1), Some(b"one".to_vec()));
    }
    let mut cache = ResponseCache::new(1);
    cache.put(1, b"one");
    cache.put(2, b"two");
    assert_eq!(cache.get(1), None);
    assert_eq!(cache.get(2), Some(b"two".to_vec()));
}
