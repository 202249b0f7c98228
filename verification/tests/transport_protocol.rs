use telemetry_bridge::transport::{
    accept_response, decode_response, encode_end_payload, encode_init_params, encode_request,
    encode_start_payload, poll_decision, PollStep, SidecarLink, TransportError,
};

#[test]
fn request_framing_is_exact() {
    assert_eq!(
        encode_request(7, "flush", "{}", false),
        "{\"id\":7,\"method\":\"flush\",\"params\":{}}"
    );
    assert_eq!(
        encode_request(12, "enqueue", "{\"items\":[]}", true),
        "{\"id\":12,\"method\":\"enqueue\",\"params\":{\"items\":[]},\"no_reply\":true}"
    );
}

#[test]
fn init_params_carry_url_and_key() {
    assert_eq!(
        encode_init_params("https://trace.example", "key-123"),
        "{\"server_url\":\"https://trace.example\",\"auth\":{\"username\":\"\",\"password\":\"key-123\"}}"
    );
}

#[test]
fn responses_parse_in_all_three_shapes() {
    let plain = decode_response("{\"id\":3}").unwrap();
    assert_eq!(plain.id, 3);
    assert!(plain.error.is_none() && plain.result_raw.is_none());

    let with_result = decode_response("{\"id\":4,\"result\":{\"queued\":10}}").unwrap();
    assert_eq!(with_result.id, 4);
    assert_eq!(with_result.result_raw, Some("{\"queued\":10}".to_string()));

    let with_error =
        decode_response("{\"id\":5,\"error\":{\"code\":-32000,\"message\":\"backend down\"}}")
            .unwrap();
    assert_eq!(with_error.id, 5);
    assert_eq!(with_error.error, Some((-32000, "backend down".to_string())));
}

#[test]
fn bad_responses_are_rejected() {
    assert!(decode_response("").is_none());
    assert!(decode_response("{\"id\":}").is_none());
    assert!(decode_response("{\"id\":1,\"result\":}").is_none());
    assert!(decode_response("nonsense").is_none());
}

#[test]
fn responses_are_matched_by_identifier() {
    assert!(matches!(
        accept_response(4, "{\"id\":4,\"result\":{}}"),
        Ok(Some(raw)) if raw == "{}"
    ));
    assert!(matches!(accept_response(4, "{\"id\":4}"), Ok(None)));
    assert!(matches!(
        accept_response(4, "{\"id\":9}"),
        Err(TransportError::IdMismatch { expected: 4, got: 9 })
    ));
    assert!(matches!(
        accept_response(4, "{\"id\":4,\"error\":{\"code\":7,\"message\":\"no\"}}"),
        Err(TransportError::Sidecar { code: 7, .. })
    ));
    assert!(matches!(accept_response(4, "garbage"), Err(TransportError::BadResponse)));
}

#[test]
fn requests_are_refused_until_the_link_is_ready() {
    let mut link = SidecarLink::new();
    assert!(matches!(
        link.begin_request("flush", "{}", false),
        Err(TransportError::Unavailable)
    ));
    link.mark_ready();
    let first = link.begin_request("flush", "{}", false).unwrap();
    let second = link.begin_request("flush", "{}", false).unwrap();
    assert_eq!(first.id, 1);
    assert_eq!(second.id, 2);
    assert!(first.await_reply);
    assert_eq!(first.line, "{\"id\":1,\"method\":\"flush\",\"params\":{}}");
}

#[test]
fn a_failed_link_refuses_every_request() {
    let mut link = SidecarLink::new();
    link.mark_failed();
    assert!(matches!(
        link.begin_request("enqueue", "{}", true),
        Err(TransportError::Unavailable)
    ));
    assert!(matches!(
        link.begin_request("flush", "{}", false),
        Err(TransportError::Unavailable)
    ));
}

#[test]
fn poll_budget_is_fifty_attempts() {
    assert!(matches!(poll_decision(0, true), PollStep::Connect));
    assert!(matches!(poll_decision(0, false), PollStep::RetryAfterDelay));
    assert!(matches!(poll_decision(48, false), PollStep::RetryAfterDelay));
    assert!(matches!(poll_decision(49, false), PollStep::GiveUp));
}

#[test]
fn named_operations_frame_their_methods() {
    let mut link = SidecarLink::new();
    link.mark_ready();
    let flush = link.flush_request().unwrap();
    assert_eq!(flush.line, "{\"id\":1,\"method\":\"flush\",\"params\":{}}");
    assert!(flush.await_reply);
    let wq = link.wait_queue_empty_request().unwrap();
    assert!(wq.line.contains("\"method\":\"wait_queue_empty\""));
    let wi = link.wait_idle_request().unwrap();
    assert!(wi.line.contains("\"method\":\"wait_idle\""));
    let st = link.stats_request().unwrap();
    assert!(st.line.contains("\"method\":\"stats\""));
    let sd = link.shutdown_request().unwrap();
    assert_eq!(sd.id, 5);
    assert!(sd.line.contains("\"method\":\"shutdown\""));
}

#[test]
fn shutdown_plan_degrades_when_the_process_is_gone() {
    let mut link = SidecarLink::new();
    link.mark_ready();
    let live = link.plan_shutdown(false);
    assert!(live.send_shutdown && live.wait_for_exit && live.remove_artifact);
    let gone = link.plan_shutdown(true);
    assert!(!gone.send_shutdown && !gone.wait_for_exit && gone.remove_artifact);
    let mut failed = SidecarLink::new();
    failed.mark_failed();
    let plan = failed.plan_shutdown(false);
    assert!(!plan.send_shutdown && plan.wait_for_exit && plan.remove_artifact);
}

#[test]
fn start_payload_carries_span_fields() {
    let inputs = vec![("tech_name".to_string(), "\"automation\"".to_string())];
    let payload = encode_start_payload(
        "team/proj",
        "call-1",
        "trace-1",
        "s1_7",
        "research",
        "2024-01-01T00:00:00+00:00",
        100,
        &inputs,
    );
    assert_eq!(
        payload,
        "{\"items\":[{\"type\":\"start\",\"payload\":{\"start\":{\"project_id\":\"team/proj\",\
\"id\":\"call-1\",\"op_name\":\"research\",\"trace_id\":\"trace-1\",\"thread_id\":\"s1_7\",\
\"turn_id\":\"call-1\",\"started_at\":\"2024-01-01T00:00:00+00:00\",\
\"attributes\":{\"tick\":100},\"inputs\":{\"tech_name\":\"automation\"}}}}]}"
    );
}

#[test]
fn end_payload_marks_failures_with_an_exception() {
    let outputs = vec![("success".to_string(), "false".to_string())];
    let payload = encode_end_payload(
        "team/proj",
        "call-1",
        "2024-01-01T00:00:10+00:00",
        false,
        &outputs,
        0,
    );
    assert_eq!(
        payload,
        "{\"items\":[{\"type\":\"end\",\"payload\":{\"end\":{\"project_id\":\"team/proj\",\
\"id\":\"call-1\",\"ended_at\":\"2024-01-01T00:00:10+00:00\",\
\"exception\":\"Call failed\",\"output\":{\"success\":false},\
\"summary\":{\"duration_ticks\":0}}}}]}"
    );
    let ok_payload = encode_end_payload(
        "team/proj",
        "call-1",
        "2024-01-01T00:00:10+00:00",
        true,
        &outputs,
        50,
    );
    assert!(ok_payload.contains("\"duration_ticks\":50"));
    assert!(!ok_payload.contains("exception"));
}
