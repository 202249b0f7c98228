use telemetry_bridge::event::{ParsedEvent, PlayerSnapshot};
use telemetry_bridge::wire::{decode_line, encode_line};

fn pairs(ps: &[(&str, &str)]) -> Vec<(String, String)> {
    ps.iter().map(|(k, v)| (k.to_string(), v.to_string())).collect()
}

fn round_trips(e: &ParsedEvent) {
    let line = encode_line(e);
    let back = decode_line(line.as_str()).expect("canonical line must decode");
    let again = encode_line(&back);
    assert_eq!(line, again);
}

#[test]
fn session_init_exact_encoding() {
    let e = ParsedEvent::SessionInit {
        session_id: "s1".to_string(),
        tick: 10,
        level_name: "lvl".to_string(),
    };
    let line = encode_line(&e);
    assert_eq!(
        line,
        "{\"type\":\"session_init\",\"session_id\":\"s1\",\"tick\":10,\"level_name\":\"lvl\"}"
    );
    round_trips(&e);
}

#[test]
fn session_init_decodes_fields() {
    let line = "{\"type\":\"session_init\",\"session_id\":\"abc\",\"tick\":123,\"level_name\":\"nauvis\"}";
    match decode_line(line) {
        Some(ParsedEvent::SessionInit { session_id, tick, level_name }) => {
            assert_eq!(session_id, "abc");
            assert_eq!(tick, 123);
            assert_eq!(level_name, "nauvis");
        }
        other => panic!("unexpected decode: {:?}", other.is_some()),
    }
}

#[test]
fn stats_round_trip_with_player_and_screenshot() {
    let e = ParsedEvent::Stats {
        session_id: "s1".to_string(),
        cycle: 7,
        tick: 420,
        player: Some(PlayerSnapshot {
            x: "1.5".to_string(),
            y: "-2.25".to_string(),
            surface: "nauvis".to_string(),
            health: "100".to_string(),
        }),
        screenshot_path: Some("shots/1.png".to_string()),
        production: pairs(&[("iron-plate", "12.5"), ("copper-plate", "3")]),
        consumption: pairs(&[("coal", "0.5")]),
    };
    let line = encode_line(&e);
    assert_eq!(
        line,
        "{\"type\":\"stats\",\"session_id\":\"s1\",\"cycle\":7,\"tick\":420,\
\"player\":{\"position\":{\"x\":1.5,\"y\":-2.25},\"surface\":\"nauvis\",\"health\":100},\
\"screenshot_path\":\"shots/1.png\",\
\"products_production\":{\"iron-plate\":12.5,\"copper-plate\":3},\
\"materials_consumption\":{\"coal\":0.5}}"
    );
    round_trips(&e);
}

#[test]
fn stats_round_trip_without_optionals() {
    let e = ParsedEvent::Stats {
        session_id: "s2".to_string(),
        cycle: 0,
        tick: 1,
        player: None,
        screenshot_path: None,
        production: Vec::new(),
        consumption: pairs(&[("coal", "1")]),
    };
    let line = encode_line(&e);
    assert_eq!(
        line,
        "{\"type\":\"stats\",\"session_id\":\"s2\",\"cycle\":0,\"tick\":1,\
\"products_production\":{},\"materials_consumption\":{\"coal\":1}}"
    );
    round_trips(&e);
    match decode_line(line.as_str()) {
        Some(ParsedEvent::Stats { player, screenshot_path, production, consumption, .. }) => {
            assert!(player.is_none());
            assert!(screenshot_path.is_none());
            assert!(production.is_empty());
            assert_eq!(consumption, pairs(&[("coal", "1")]));
        }
        _ => panic!("stats line did not decode as stats"),
    }
}

#[test]
fn research_events_round_trip() {
    let started = ParsedEvent::ResearchStarted {
        session_id: "s1".to_string(),
        tick: 100,
        tech_name: "automation".to_string(),
        tech_level: 2,
    };
    let line = encode_line(&started);
    assert_eq!(
        line,
        "{\"type\":\"event\",\"event_name\":\"on_research_started\",\"session_id\":\"s1\",\
\"tick\":100,\"tech_name\":\"automation\",\"tech_level\":2}"
    );
    round_trips(&started);
    let finished = ParsedEvent::ResearchFinished {
        session_id: "s1".to_string(),
        tick: 150,
        tech_name: "automation".to_string(),
        tech_level: 2,
    };
    round_trips(&finished);
    assert!(matches!(
        decode_line(encode_line(&finished).as_str()),
        Some(ParsedEvent::ResearchFinished { tick: 150, .. })
    ));
}

#[test]
fn entity_events_round_trip() {
    let built = ParsedEvent::EntityBuilt {
        session_id: "s1".to_string(),
        tick: 5,
        player_index: 1,
        entity: "assembling-machine-1".to_string(),
        x: "10.5".to_string(),
        y: "-3".to_string(),
        surface: "nauvis".to_string(),
    };
    let line = encode_line(&built);
    assert_eq!(
        line,
        "{\"type\":\"event\",\"event_name\":\"on_built_entity\",\"session_id\":\"s1\",\"tick\":5,\
\"player_index\":1,\"entity\":\"assembling-machine-1\",\
\"position\":{\"x\":10.5,\"y\":-3},\"surface\":\"nauvis\"}"
    );
    round_trips(&built);
    let mined = ParsedEvent::EntityMined {
        session_id: "s1".to_string(),
        tick: 6,
        player_index: 2,
        entity: "stone-furnace".to_string(),
        x: "0".to_string(),
        y: "0".to_string(),
        surface: "nauvis".to_string(),
    };
    round_trips(&mined);
}

#[test]
fn crafted_and_unknown_round_trip() {
    let crafted = ParsedEvent::ItemCrafted {
        session_id: "s1".to_string(),
        tick: 9,
        player_index: 1,
        item: "iron-gear-wheel".to_string(),
        count: 4,
    };
    round_trips(&crafted);
    let other = ParsedEvent::OtherGame {
        event_name: "on_rocket_launched".to_string(),
        session_id: "s1".to_string(),
        tick: 12,
    };
    let line = encode_line(&other);
    assert_eq!(
        line,
        "{\"type\":\"event\",\"event_name\":\"on_rocket_launched\",\"session_id\":\"s1\",\"tick\":12}"
    );
    round_trips(&other);
}

#[test]
fn malformed_lines_are_rejected() {
    assert!(decode_line("{not json").is_none());
    assert!(decode_line("").is_none());
    assert!(decode_line("{\"type\":\"mystery\"}").is_none());
    // trailing text after a complete event
    assert!(decode_line(
        "{\"type\":\"session_init\",\"session_id\":\"s\",\"tick\":1,\"level_name\":\"l\"}x"
    )
    .is_none());
    // a tick that does not fit in 64 bits
    assert!(decode_line(
        "{\"type\":\"session_init\",\"session_id\":\"s\",\"tick\":99999999999999999999,\"level_name\":\"l\"}"
    )
    .is_none());
    // an unrecognised escape in a string is refused rather than misread
    assert!(decode_line(
        "{\"type\":\"session_init\",\"session_id\":\"s\\qx\",\"tick\":1,\"level_name\":\"l\"}"
    )
    .is_none());
}

#[test]
fn largest_tick_round_trips() {
    let e = ParsedEvent::SessionInit {
        session_id: "s".to_string(),
        tick: u64::MAX,
        level_name: "l".to_string(),
    };
    let line = encode_line(&e);
    assert!(line.contains("18446744073709551615"));
    round_trips(&e);
}

#[test]
fn reserved_characters_are_escaped_and_recovered() {
    let e = ParsedEvent::SessionInit {
        session_id: "s\"1\\x".to_string(),
        tick: 1,
        level_name: "lvl \"two\"".to_string(),
    };
    let line = encode_line(&e);
    assert_eq!(
        line,
        "{\"type\":\"session_init\",\"session_id\":\"s\\\"1\\\\x\",\"tick\":1,\
\"level_name\":\"lvl \\\"two\\\"\"}"
    );
    match decode_line(line.as_str()) {
        Some(ParsedEvent::SessionInit { session_id, level_name, .. }) => {
            assert_eq!(session_id, "s\"1\\x");
            assert_eq!(level_name, "lvl \"two\"");
        }
        _ => panic!("escaped line did not decode"),
    }
    round_trips(&e);
}

#[test]
fn escaped_lines_decode_directly() {
    let line = "{\"type\":\"session_init\",\"session_id\":\"a\\\"b\",\"tick\":1,\"level_name\":\"l\\\\m\"}";
    match decode_line(line) {
        Some(ParsedEvent::SessionInit { session_id, level_name, .. }) => {
            assert_eq!(session_id, "a\"b");
            assert_eq!(level_name, "l\\m");
        }
        _ => panic!("line with escapes did not decode"),
    }
}

#[test]
fn unknown_escapes_are_rejected() {
    // only \" and \\ are accepted inside a string body
    assert!(decode_line(
        "{\"type\":\"session_init\",\"session_id\":\"a\\nb\",\"tick\":1,\"level_name\":\"l\"}"
    )
    .is_none());
    // a lone backslash before the closing quote
    assert!(decode_line(
        "{\"type\":\"session_init\",\"session_id\":\"a\\\",\"tick\":1,\"level_name\":\"l\"}"
    )
    .is_none());
}

#[test]
fn pair_names_round_trip_with_escapes() {
    let e = ParsedEvent::Stats {
        session_id: "s".to_string(),
        cycle: 1,
        tick: 2,
        player: None,
        screenshot_path: None,
        production: pairs(&[("odd\"name", "1")]),
        consumption: Vec::new(),
    };
    let line = encode_line(&e);
    assert!(line.contains("\"odd\\\"name\":1"));
    round_trips(&e);
}
