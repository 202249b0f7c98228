use telemetry_bridge::correlator::{make_run_id, Correlator};

#[test]
fn run_id_is_external_id_underscore_suffix() {
    assert_eq!(make_run_id("s1", 42), "s1_42");
    assert_eq!(make_run_id("", 0), "_0");
    assert_eq!(make_run_id("base", 4294967295), "base_4294967295");
}

#[test]
fn first_observation_creates_a_session() {
    let mut c = Correlator::new();
    assert_eq!(c.current_run_id(), None);
    let change = c.observe("s1", 10, 7);
    assert!(change.created);
    assert_eq!(change.finalized, None);
    assert_eq!(change.run_id, "s1_7");
    assert_eq!(c.current_run_id(), Some("s1_7".to_string()));
}

#[test]
fn matching_observations_return_a_stable_run_id() {
    let mut c = Correlator::new();
    let first = c.observe("s1", 10, 7);
    let second = c.observe("s1", 20, 999);
    let third = c.observe("s1", 30, 123456);
    assert!(!second.created && !third.created);
    assert_eq!(second.run_id, first.run_id);
    assert_eq!(third.run_id, first.run_id);
    assert_eq!(c.current_run_id(), Some(first.run_id));
}

#[test]
fn mismatched_identifier_finalizes_and_replaces() {
    let mut c = Correlator::new();
    let first = c.observe("s1", 10, 7);
    let change = c.observe("s2", 20, 8);
    assert!(change.created);
    assert_eq!(change.finalized, Some(first.run_id));
    assert_eq!(change.run_id, "s2_8");
    assert_eq!(c.current_run_id(), Some("s2_8".to_string()));
}

#[test]
fn close_finalizes_the_current_session() {
    let mut c = Correlator::new();
    assert_eq!(c.close(), None);
    let change = c.observe("s1", 1, 2);
    assert_eq!(c.close(), Some(change.run_id));
    assert_eq!(c.current_run_id(), None);
}
