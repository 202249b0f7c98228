use telemetry_bridge::tracker::{research_key, CallContext, CallTracker};

fn context(call_id: &str, session: &str, start_tick: u64) -> CallContext {
    CallContext {
        call_id: call_id.to_string(),
        trace_id: format!("{}-trace", call_id),
        session_id: session.to_string(),
        start_tick,
        inputs: Vec::new(),
    }
}

#[test]
fn research_key_is_name_colon_level() {
    assert_eq!(research_key("automation", 2), "automation:2");
    assert_eq!(research_key("logistics", 0), "logistics:0");
}

#[test]
fn start_then_end_computes_duration() {
    let mut t = CallTracker::new();
    t.start_call("rk".to_string(), context("c1", "s1_7", 100));
    assert!(t.is_call_active("rk"));
    assert_eq!(t.active_call_count(), 1);
    let span = t.end_call("rk", 150, Vec::new(), true).expect("span must be found");
    assert_eq!(span.duration_ticks, 50);
    assert_eq!(span.call_id, "c1");
    assert_eq!(span.session_id, "s1_7");
    assert!(span.success);
    assert!(!t.is_call_active("rk"));
    assert_eq!(t.active_call_count(), 0);
}

#[test]
fn end_on_absent_key_changes_nothing() {
    let mut t = CallTracker::new();
    t.start_call("a".to_string(), context("c1", "s", 1));
    assert!(t.end_call("missing", 5, Vec::new(), true).is_none());
    assert_eq!(t.active_call_count(), 1);
    assert!(t.is_call_active("a"));
}

#[test]
fn end_before_start_clamps_duration_to_zero() {
    let mut t = CallTracker::new();
    t.start_call("k".to_string(), context("c1", "s", 100));
    let span = t.end_call("k", 40, Vec::new(), false).unwrap();
    assert_eq!(span.duration_ticks, 0);
    assert!(!span.success);
}

#[test]
fn restart_overwrites_the_unfinished_span() {
    let mut t = CallTracker::new();
    t.start_call("k".to_string(), context("c1", "s", 10));
    t.start_call("k".to_string(), context("c2", "s", 20));
    assert_eq!(t.active_call_count(), 1);
    let span = t.end_call("k", 25, Vec::new(), true).unwrap();
    assert_eq!(span.call_id, "c2");
    assert_eq!(span.duration_ticks, 5);
}

#[test]
fn force_close_all_fails_every_open_span() {
    let mut t = CallTracker::new();
    t.start_call("a".to_string(), context("c1", "s", 1));
    t.start_call("b".to_string(), context("c2", "s", 2));
    t.start_call("c".to_string(), context("c3", "s", 3));
    let closed = t.force_close_all();
    assert_eq!(closed.len(), 3);
    for span in &closed {
        assert!(!span.success);
        assert_eq!(span.duration_ticks, 0);
        assert!(span.outputs.is_empty());
    }
    assert_eq!(t.active_call_count(), 0);
    let again = t.force_close_all();
    assert!(again.is_empty());
}

#[test]
fn end_carries_outputs_through() {
    let mut t = CallTracker::new();
    t.start_call("k".to_string(), context("c1", "s", 0));
    let outs = vec![("tech_name".to_string(), "automation".to_string())];
    let span = t.end_call("k", 3, outs.clone(), true).unwrap();
    assert_eq!(span.outputs, outs);
    assert_eq!(span.end_tick, 3);
}
