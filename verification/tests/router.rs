use telemetry_bridge::config::WeaveConfig;
use telemetry_bridge::event::{ParsedEvent, PlayerSnapshot};
use telemetry_bridge::mediator::{Action, EventMediator};

fn mediator() -> EventMediator {
    EventMediator::new(WeaveConfig {
        entity: "team".to_string(),
        project: "proj".to_string(),
        base_url: "https://trace.example".to_string(),
        api_key: "key-123".to_string(),
        binary_path: "/opt/sender".to_string(),
        socket_path: "/tmp/sender.sock".to_string(),
    })
}

fn ready_mediator() -> EventMediator {
    let mut m = mediator();
    m.link.mark_ready();
    m
}

fn init_event(sid: &str, tick: u64, level: &str) -> ParsedEvent {
    ParsedEvent::SessionInit {
        session_id: sid.to_string(),
        tick,
        level_name: level.to_string(),
    }
}

fn stats_event(sid: &str, cycle: u64, tick: u64) -> ParsedEvent {
    ParsedEvent::Stats {
        session_id: sid.to_string(),
        cycle,
        tick,
        player: None,
        screenshot_path: None,
        production: vec![("iron-plate".to_string(), "2".to_string())],
        consumption: Vec::new(),
    }
}

fn sent_lines(actions: &[Action]) -> Vec<String> {
    actions
        .iter()
        .filter_map(|a| match a {
            Action::SendRequest { request } => Some(request.line.clone()),
            _ => None,
        })
        .collect()
}

#[test]
fn same_session_keeps_the_same_run_id() {
    let mut m = ready_mediator();
    m.handle_event(init_event("s1", 10, "lvl"));
    let run_after_init = m.correlator.current_run_id().unwrap();
    m.handle_event(stats_event("s1", 1, 20));
    assert_eq!(m.correlator.current_run_id().unwrap(), run_after_init);
    m.handle_event(stats_event("s1", 2, 30));
    assert_eq!(m.correlator.current_run_id().unwrap(), run_after_init);
    assert!(run_after_init.starts_with("s1_"));
}

#[test]
fn new_session_force_closes_open_spans() {
    let mut m = ready_mediator();
    m.handle_event(init_event("s1", 10, "lvl"));
    m.handle_event(ParsedEvent::ResearchStarted {
        session_id: "s1".to_string(),
        tick: 100,
        tech_name: "automation".to_string(),
        tech_level: 1,
    });
    assert_eq!(m.tracker.active_call_count(), 1);
    let old_run = m.correlator.current_run_id().unwrap();

    let actions = m.handle_event(init_event("s2", 20, "lvl2"));
    assert_eq!(m.tracker.active_call_count(), 0);
    assert_ne!(m.correlator.current_run_id().unwrap(), old_run);
    // The force-closed span went out as a failed end-of-span request.
    let lines = sent_lines(&actions);
    assert!(lines.iter().any(|l| l.contains("\"exception\":\"Call failed\"")
        && l.contains("\"success\":false")));
    // The old dashboard run was finished and a new one begun.
    assert!(actions.iter().any(
        |a| matches!(a, Action::FinishMetricsRun { run_id } if *run_id == old_run)
    ));
    assert!(actions.iter().any(|a| matches!(a, Action::BeginMetricsRun { tick: 20, .. })));
}

#[test]
fn research_span_carries_duration_and_success() {
    let mut m = ready_mediator();
    m.handle_event(init_event("s1", 1, "lvl"));
    let start_actions = m.handle_event(ParsedEvent::ResearchStarted {
        session_id: "s1".to_string(),
        tick: 100,
        tech_name: "automation".to_string(),
        tech_level: 1,
    });
    let start_lines = sent_lines(&start_actions);
    assert!(start_lines.iter().any(|l| l.contains("\"op_name\":\"research\"")
        && l.contains("\"attributes\":{\"tick\":100}")));
    assert!(m.tracker.is_call_active("automation:1"));

    let end_actions = m.handle_event(ParsedEvent::ResearchFinished {
        session_id: "s1".to_string(),
        tick: 150,
        tech_name: "automation".to_string(),
        tech_level: 1,
    });
    assert!(!m.tracker.is_call_active("automation:1"));
    let end_lines = sent_lines(&end_actions);
    assert!(end_lines.iter().any(|l| l.contains("\"duration_ticks\":50")
        && l.contains("\"success\":true")
        && l.contains("\"completed\":\"true\"")
        && !l.contains("exception")));
}

#[test]
fn finishing_an_unknown_research_reports_not_found() {
    let mut m = ready_mediator();
    m.handle_event(init_event("s1", 1, "lvl"));
    let actions = m.handle_event(ParsedEvent::ResearchFinished {
        session_id: "s1".to_string(),
        tick: 9,
        tech_name: "logistics".to_string(),
        tech_level: 3,
    });
    assert!(actions.iter().any(
        |a| matches!(a, Action::ReportCallNotFound { logical_id } if logical_id == "logistics:3")
    ));
    assert_eq!(m.tracker.active_call_count(), 0);
}

#[test]
fn one_bad_line_does_not_stop_the_batch() {
    let mut m = ready_mediator();
    let batch = vec![
        "{\"type\":\"session_init\",\"session_id\":\"s1\",\"tick\":10,\"level_name\":\"lvl\"}"
            .to_string(),
        "{not json".to_string(),
        "{\"type\":\"stats\",\"session_id\":\"s1\",\"cycle\":1,\"tick\":20,\
\"products_production\":{\"iron-plate\":2},\"materials_consumption\":{}}"
            .to_string(),
    ];
    let actions = m.process_events(&batch);
    let decode_errors = actions
        .iter()
        .filter(|a| matches!(a, Action::ReportDecodeError { .. }))
        .count();
    assert_eq!(decode_errors, 1);
    // The two valid lines were processed: a session exists and metrics went out.
    assert!(m.correlator.current_run_id().is_some());
    assert!(actions.iter().any(|a| matches!(a, Action::LogMetrics { step: 1, .. })));
}

#[test]
fn failed_link_reports_transport_errors_but_keeps_correlating() {
    let mut m = mediator();
    m.link.mark_failed();
    let actions = m.handle_event(init_event("s1", 10, "lvl"));
    assert!(actions.iter().any(|a| matches!(a, Action::ReportTransportError { .. })));
    assert!(sent_lines(&actions).is_empty());
    // The correlator and the metrics pipeline keep operating.
    assert!(m.correlator.current_run_id().unwrap().starts_with("s1_"));
    let stats_actions = m.handle_event(stats_event("s1", 1, 20));
    assert!(stats_actions.iter().any(|a| matches!(a, Action::LogMetrics { .. })));
}

#[test]
fn stats_with_player_and_screenshot_requests_a_fetch() {
    let mut m = ready_mediator();
    m.handle_event(init_event("s1", 1, "lvl"));
    let actions = m.handle_event(ParsedEvent::Stats {
        session_id: "s1".to_string(),
        cycle: 2,
        tick: 30,
        player: Some(PlayerSnapshot {
            x: "1".to_string(),
            y: "2".to_string(),
            surface: "nauvis".to_string(),
            health: "100".to_string(),
        }),
        screenshot_path: Some("shot.png".to_string()),
        production: Vec::new(),
        consumption: Vec::new(),
    });
    let fetch = actions.iter().find_map(|a| match a {
        Action::FetchSnapshot { tick, path, .. } => Some((*tick, path.clone())),
        _ => None,
    });
    assert_eq!(fetch, Some((30, "shot.png".to_string())));
}

#[test]
fn snapshot_bytes_become_an_inline_image() {
    let mut m = ready_mediator();
    m.handle_event(init_event("s1", 1, "lvl"));
    let player = PlayerSnapshot {
        x: "1".to_string(),
        y: "2".to_string(),
        surface: "nauvis".to_string(),
        health: "100".to_string(),
    };
    let bytes: Vec<u8> = b"Man".to_vec();
    let actions = m.on_snapshot(30, &player, "shot.png", &bytes);
    let lines = sent_lines(&actions);
    // The inline image carries the real base64 rendering of the bytes.
    assert!(lines.iter().any(|l| l.contains("data:image/png;base64,TWFu")));
    assert!(lines.iter().any(|l| l.contains("\"op_name\":\"player_snapshot\"")));
    assert!(lines.iter().any(|l| l.contains("\"screenshot_path\":\"shot.png\"")));
}

#[test]
fn snapshot_without_a_session_is_reported() {
    let mut m = ready_mediator();
    let player = PlayerSnapshot {
        x: "1".to_string(),
        y: "2".to_string(),
        surface: "nauvis".to_string(),
        health: "100".to_string(),
    };
    let actions = m.on_snapshot(30, &player, "shot.png", &Vec::new());
    assert!(actions.iter().any(|a| matches!(a, Action::ReportNoSession { .. })));
    assert!(sent_lines(&actions).is_empty());
}

#[test]
fn unknown_game_events_are_reported_not_fatal() {
    let mut m = ready_mediator();
    let actions = m.handle_event(ParsedEvent::OtherGame {
        event_name: "on_rocket_launched".to_string(),
        session_id: "s1".to_string(),
        tick: 3,
    });
    assert!(actions.iter().any(
        |a| matches!(a, Action::ReportUnknownEvent { event_name } if event_name == "on_rocket_launched")
    ));
    // The event still created its session just in time.
    assert!(m.correlator.current_run_id().is_some());
}

#[test]
fn shutdown_closes_spans_and_the_session() {
    let mut m = ready_mediator();
    m.handle_event(init_event("s1", 1, "lvl"));
    m.handle_event(ParsedEvent::ResearchStarted {
        session_id: "s1".to_string(),
        tick: 5,
        tech_name: "automation".to_string(),
        tech_level: 1,
    });
    let run = m.correlator.current_run_id().unwrap();
    let actions = m.shutdown();
    assert_eq!(m.tracker.active_call_count(), 0);
    assert!(m.correlator.current_run_id().is_none());
    assert!(actions.iter().any(
        |a| matches!(a, Action::FinishMetricsRun { run_id } if *run_id == run)
    ));
    assert!(sent_lines(&actions).iter().any(|l| l.contains("\"success\":false")));
}

#[test]
fn metrics_report_zeros_for_inactive_items_across_cycles() {
    let mut m = ready_mediator();
    m.handle_event(init_event("s1", 1, "lvl"));
    m.handle_event(stats_event("s1", 1, 10));
    let actions = m.handle_event(ParsedEvent::Stats {
        session_id: "s1".to_string(),
        cycle: 2,
        tick: 20,
        player: None,
        screenshot_path: None,
        production: vec![("copper-plate".to_string(), "3".to_string())],
        consumption: Vec::new(),
    });
    let logged = actions.iter().find_map(|a| match a {
        Action::LogMetrics { step: 2, metrics } => Some(metrics.clone()),
        _ => None,
    });
    assert_eq!(
        logged,
        Some(vec![
            ("production/iron-plate".to_string(), "0".to_string()),
            ("production/copper-plate".to_string(), "3".to_string()),
        ])
    );
}
