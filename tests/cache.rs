use zenoh_ext::cache::{ResourceCache, Sample};
use zenoh_ext::event_loop::{CacheEvent, CacheLoop};

fn sample(key: &str, n: u8) -> Sample {
    Sample::new(key.to_string(), vec![n], n as u64)
}

fn payloads(v: &[Sample]) -> Vec<u8> {
    v.iter().map(|s| s.payload[0]).collect()
}

#[test]
fn history_keeps_the_last_samples_in_order() {
    let mut c = ResourceCache::new(3, None);
    for n in 0..7u8 {
        assert!(c.record("a/b".to_string(), sample("a/b", n)));
    }
    assert_eq!(payloads(&c.lookup_exact(&"a/b".to_string())), vec![4, 5, 6]);
}

#[test]
fn history_of_one_keeps_the_newest() {
    let mut c = ResourceCache::new(1, None);
    c.record("k".to_string(), sample("k", 1));
    c.record("k".to_string(), sample("k", 2));
    assert_eq!(payloads(&c.lookup_exact(&"k".to_string())), vec![2]);
}

#[test]
fn fewer_samples_than_history_are_all_kept() {
    let mut c = ResourceCache::new(5, None);
    c.record("k".to_string(), sample("k", 1));
    c.record("k".to_string(), sample("k", 2));
    assert_eq!(payloads(&c.lookup_exact(&"k".to_string())), vec![1, 2]);
}

#[test]
fn resource_limit_drops_new_keys() {
    let mut c = ResourceCache::new(2, Some(2));
    assert!(c.record("a".to_string(), sample("a", 1)));
    assert!(c.record("b".to_string(), sample("b", 2)));
    assert!(!c.record("c".to_string(), sample("c", 3)));
    assert_eq!(payloads(&c.lookup_exact(&"a".to_string())), vec![1]);
    assert_eq!(payloads(&c.lookup_exact(&"b".to_string())), vec![2]);
    assert!(c.lookup_exact(&"c".to_string()).is_empty());
    // a key already cached still takes new samples
    assert!(c.record("a".to_string(), sample("a", 4)));
    assert_eq!(payloads(&c.lookup_exact(&"a".to_string())), vec![1, 4]);
}

#[test]
fn resource_limit_zero_caches_nothing() {
    let mut c = ResourceCache::new(1, Some(0));
    assert!(!c.record("a".to_string(), sample("a", 1)));
    assert!(c.lookup_exact(&"a".to_string()).is_empty());
}

#[test]
fn lookup_matching_goes_key_by_key() {
    let mut c = ResourceCache::new(2, None);
    c.record("a/b".to_string(), sample("a/b", 1));
    c.record("a/c".to_string(), sample("a/c", 2));
    c.record("a/b".to_string(), sample("a/b", 3));
    c.record("x/y".to_string(), sample("x/y", 4));
    assert_eq!(payloads(&c.lookup_matching(&"a/*".to_string())), vec![1, 3, 2]);
    assert_eq!(payloads(&c.lookup_matching(&"**".to_string())), vec![1, 3, 2, 4]);
    assert!(c.lookup_matching(&"z/*".to_string()).is_empty());
}

#[test]
fn duplicate_copies_every_field() {
    let s = Sample::new("a/b".to_string(), vec![1, 2, 3], 42);
    assert_eq!(s.duplicate(), s);
}

fn query(l: &mut CacheLoop, sel: &str) -> Vec<Sample> {
    l.handle(CacheEvent::Query(sel.to_string()))
}

#[test]
fn exact_match_replay() {
    let mut l = CacheLoop::new(1, None, None);
    let s = sample("a/b", 7);
    assert!(l.handle(CacheEvent::Publication(s.clone())).is_empty());
    assert_eq!(query(&mut l, "a/b"), vec![s]);
    assert!(query(&mut l, "a/c").is_empty());
}

#[test]
fn wildcard_replay() {
    let mut l = CacheLoop::new(2, None, None);
    l.handle(CacheEvent::Publication(sample("a/b", 1)));
    l.handle(CacheEvent::Publication(sample("a/c", 2)));
    l.handle(CacheEvent::Publication(sample("a/b", 3)));
    let r = query(&mut l, "a/*");
    assert_eq!(r.len(), 3);
    let b: Vec<u8> = r.iter().filter(|s| s.key == "a/b").map(|s| s.payload[0]).collect();
    let c: Vec<u8> = r.iter().filter(|s| s.key == "a/c").map(|s| s.payload[0]).collect();
    assert_eq!(b, vec![1, 3]);
    assert_eq!(c, vec![2]);
}

#[test]
fn prefix_addressing() {
    let mut l = CacheLoop::new(1, None, Some("cache".to_string()));
    let s = sample("a/b", 9);
    l.handle(CacheEvent::Publication(s.clone()));
    assert_eq!(query(&mut l, "cache/a/b"), vec![s.clone()]);
    assert_eq!(query(&mut l, "cache/*/b"), vec![s.clone()]);
    assert_eq!(query(&mut l, "**"), vec![s]);
    assert!(query(&mut l, "a/b").is_empty());
    assert!(query(&mut l, "a/*").is_empty());
}

#[test]
fn no_reply_after_stop() {
    let mut l = CacheLoop::new(1, None, None);
    l.handle(CacheEvent::Publication(sample("a/b", 1)));
    assert!(l.is_running());
    assert!(l.handle(CacheEvent::Stop).is_empty());
    assert!(!l.is_running());
    assert!(query(&mut l, "a/b").is_empty());
    assert!(query(&mut l, "a/*").is_empty());
    l.handle(CacheEvent::Publication(sample("a/b", 2)));
    assert!(query(&mut l, "a/b").is_empty());
}
