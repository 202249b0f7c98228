use telemetry_bridge::config::WeaveConfig;
use telemetry_bridge::ids::{now_timestamp, random_suffix, time_ordered_id};
use telemetry_bridge::snapshot::data_uri_png;
use telemetry_bridge::correlator::make_run_id;

#[test]
fn time_ordered_ids_are_hyphenated_and_safe() {
    let id = time_ordered_id();
    assert_eq!(id.len(), 36);
    assert_eq!(id.matches('-').count(), 4);
    assert!(!id.contains('"') && !id.contains('\\'));
    let other = time_ordered_id();
    assert_ne!(id, other);
}

#[test]
fn timestamps_are_nonempty_and_safe() {
    let ts = now_timestamp();
    assert!(!ts.is_empty());
    assert!(!ts.contains('"') && !ts.contains('\\'));
    assert!(ts.contains('T'));
}

#[test]
fn random_suffix_feeds_the_run_id() {
    let suffix = random_suffix();
    let run = make_run_id("session", suffix);
    assert_eq!(run, format!("session_{}", suffix));
}

#[test]
fn data_uri_uses_real_base64() {
    assert_eq!(data_uri_png(&b"Man".to_vec()), "data:image/png;base64,TWFu");
    assert_eq!(data_uri_png(&b"Ma".to_vec()), "data:image/png;base64,TWE=");
    assert_eq!(data_uri_png(&Vec::new()), "data:image/png;base64,");
}

#[test]
fn project_id_joins_entity_and_project() {
    let config = WeaveConfig {
        entity: "team".to_string(),
        project: "factory".to_string(),
        base_url: "https://trace.example".to_string(),
        api_key: "key-123".to_string(),
        binary_path: "/opt/sender".to_string(),
        socket_path: "/tmp/sender.sock".to_string(),
    };
    assert_eq!(config.project_id(), "team/factory");
}
