use telemetry_bridge::metrics::MetricsTracker;

fn pairs(ps: &[(&str, &str)]) -> Vec<(String, String)> {
    ps.iter().map(|(k, v)| (k.to_string(), v.to_string())).collect()
}

#[test]
fn first_cycle_reports_exactly_what_is_active() {
    let mut m = MetricsTracker::new();
    let merged = m.record_and_merge(
        &pairs(&[("iron-plate", "2.5")]),
        &pairs(&[("coal", "1")]),
    );
    assert_eq!(
        merged,
        pairs(&[("production/iron-plate", "2.5"), ("consumption/coal", "1")])
    );
}

#[test]
fn inactive_seen_items_drop_to_zero() {
    let mut m = MetricsTracker::new();
    m.record_and_merge(&pairs(&[("iron-plate", "2.5")]), &pairs(&[("coal", "1")]));
    let merged = m.record_and_merge(&pairs(&[("copper-plate", "3")]), &pairs(&[]));
    assert_eq!(
        merged,
        pairs(&[
            ("production/iron-plate", "0"),
            ("production/copper-plate", "3"),
            ("consumption/coal", "0"),
        ])
    );
}

#[test]
fn values_update_without_duplicating_names() {
    let mut m = MetricsTracker::new();
    m.record_and_merge(&pairs(&[("iron-plate", "1")]), &pairs(&[]));
    let merged = m.record_and_merge(&pairs(&[("iron-plate", "9")]), &pairs(&[]));
    assert_eq!(merged, pairs(&[("production/iron-plate", "9")]));
}

#[test]
fn clear_forgets_the_seen_names() {
    let mut m = MetricsTracker::new();
    m.record_and_merge(&pairs(&[("iron-plate", "1")]), &pairs(&[("coal", "2")]));
    m.clear();
    let merged = m.record_and_merge(&pairs(&[("stone", "4")]), &pairs(&[]));
    assert_eq!(merged, pairs(&[("production/stone", "4")]));
}
