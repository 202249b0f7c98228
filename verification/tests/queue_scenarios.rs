use telemetry_bridge::PipeCache;

fn push_all(cache: &mut PipeCache, lines: &[&str]) {
    for l in lines {
        cache.push(l.to_string());
    }
}

#[test]
fn capacity_three_keeps_last_three() {
    let mut cache = PipeCache::new(3);
    push_all(&mut cache, &["e1", "e2", "e3", "e4", "e5"]);
    assert_eq!(cache.get_all(), vec!["e3".to_string(), "e4".to_string(), "e5".to_string()]);
    assert_eq!(cache.len(), 3);
}

#[test]
fn drain_returns_snapshot_then_nothing() {
    let mut cache = PipeCache::new(3);
    push_all(&mut cache, &["e1", "e2", "e3", "e4", "e5"]);
    let first = cache.drain_all();
    assert_eq!(first, vec!["e3".to_string(), "e4".to_string(), "e5".to_string()]);
    assert!(cache.is_empty());
    let second = cache.drain_all();
    assert_eq!(second, Vec::<String>::new());
}

#[test]
fn push_within_capacity_keeps_order() {
    let mut cache = PipeCache::new(10);
    push_all(&mut cache, &["a", "b", "c"]);
    assert_eq!(cache.get_all(), vec!["a".to_string(), "b".to_string(), "c".to_string()]);
}

#[test]
fn capacity_zero_stays_empty() {
    let mut cache = PipeCache::new(0);
    push_all(&mut cache, &["a", "b"]);
    assert!(cache.is_empty());
    assert_eq!(cache.len(), 0);
}

#[test]
fn offer_trims_and_skips_blank_lines() {
    let mut cache = PipeCache::new(8);
    assert!(cache.offer("  {\"x\":1}\r\n"));
    assert!(!cache.offer("   \t \n"));
    assert!(!cache.offer(""));
    assert_eq!(cache.get_all(), vec!["{\"x\":1}".to_string()]);
}

#[test]
fn get_last_n_returns_suffix_in_order() {
    let mut cache = PipeCache::new(10);
    push_all(&mut cache, &["a", "b", "c", "d"]);
    assert_eq!(cache.get_last_n(2), vec!["c".to_string(), "d".to_string()]);
    assert_eq!(cache.get_last_n(9), vec![
        "a".to_string(),
        "b".to_string(),
        "c".to_string(),
        "d".to_string()
    ]);
    assert_eq!(cache.get_last_n(0), Vec::<String>::new());
}

#[test]
fn get_latest_and_pop_front() {
    let mut cache = PipeCache::new(10);
    assert_eq!(cache.get_latest(), None);
    assert_eq!(cache.pop_front(), None);
    push_all(&mut cache, &["a", "b"]);
    assert_eq!(cache.get_latest(), Some("b".to_string()));
    assert_eq!(cache.pop_front(), Some("a".to_string()));
    assert_eq!(cache.get_all(), vec!["b".to_string()]);
}

#[test]
fn filter_and_find_containing() {
    let mut cache = PipeCache::new(10);
    push_all(&mut cache, &["alpha", "beta", "alphabet", "gamma"]);
    let with_alpha = cache.filter(|l: &str| l.contains("alpha"));
    assert_eq!(with_alpha, vec!["alpha".to_string(), "alphabet".to_string()]);
    let found = cache.find_containing("mm");
    assert_eq!(found, vec!["gamma".to_string()]);
    assert_eq!(cache.len(), 4);
}
