use llmux::config::ModelConfig;
use llmux::hooks::HookRunner;
use llmux::middleware::{
    extract_model, FlowAction, FlowEvent, ModelSwitcherLayer, RequestFlow, RequestRecord,
};
use llmux::models::ModelMap;
use llmux::reply::{error_response, switch_error_response};
use llmux::switcher::ModelSwitcher;
use llmux::types::SwitchError;

fn switcher() -> ModelSwitcher {
    let mut models = ModelMap::new();
    models.insert(
        "llama".to_string(),
        ModelConfig {
            port: 8001,
            host: "::1".to_string(),
            wake: "".to_string(),
            sleep: "".to_string(),
            alive: "".to_string(),
        },
    );
    ModelSwitcher::new(HookRunner::new(models))
}

fn named(model: &str) -> FlowEvent {
    FlowEvent::BodyRead {
        model: Some(model.to_string()),
    }
}

/// Runs a flow through events and returns the last action.
fn run(events: Vec<FlowEvent>) -> (RequestFlow, FlowAction) {
    let switcher = switcher();
    let mut flow = RequestFlow::new();
    let mut last = FlowAction::Fail;
    for event in events {
        let (next, action) = flow.step(&switcher, event);
        flow = next;
        last = action;
    }
    (flow, last)
}

#[test]
fn test_extract_model_from_body() {
    let body = bytes::Bytes::from(r#"{"model": "mistral", "messages": []}"#);
    assert_eq!(extract_model(&body), Some("mistral".to_string()));
}

#[test]
fn test_extract_model_none() {
    let body = bytes::Bytes::from(r#"{"messages": []}"#);
    assert_eq!(extract_model(&body), None);
}

#[test]
fn a_model_is_a_string_in_an_object() {
    for body in [
        "",
        "not json",
        "{\"model\": \"a\"",
        "\"model\"",
        "[\"model\", \"a\"]",
        "{\"model\": 3}",
        "{\"model\": null}",
        "{\"model\": [\"a\"]}",
        "{\"Model\": \"a\"}",
        "{\"options\": {\"model\": \"a\"}}",
    ] {
        assert_eq!(extract_model(body.as_bytes()), None, "{body}");
    }
    assert_eq!(
        extract_model(b"{\"a\": 1, \"model\": \"x\\u00fc\\n\", \"z\": {}}"),
        Some("x\u{fc}\n".to_string())
    );
    assert_eq!(
        extract_model(b"{\"model\": \"a\", \"model\": \"b\"}"),
        Some("b".to_string())
    );
    assert_eq!(extract_model(b"{\"model\": \"\"}"), Some(String::new()));
    assert_eq!(extract_model(b"{\"model\": \"\xff\"}"), None);
}

#[test]
fn error_bodies_are_json() {
    let reply = error_response(404, "Model not found: a\"b\\c\n\u{1}\u{1f}/\u{fc}");
    assert_eq!(reply.status, 404);
    assert_eq!(reply.content_type, "application/json");
    assert_eq!(
        reply.body,
        "{\"error\":{\"message\":\"Model not found: a\\\"b\\\\c\\n\\u0001\\u001f/\u{fc}\",\"type\":\"llmux_error\"}}"
    );
    let body: serde_json::Value = serde_json::from_str(&reply.body).unwrap();
    assert_eq!(
        body["error"]["message"],
        "Model not found: a\"b\\c\n\u{1}\u{1f}/\u{fc}"
    );
    assert_eq!(body["error"]["type"], "llmux_error");
    assert_eq!(reply.body, body.to_string());
}

#[test]
fn switch_errors_have_a_status_and_a_message() {
    let cases = [
        (
            SwitchError::ModelNotFound("m".to_string()),
            404,
            "Model not found: m",
        ),
        (SwitchError::NotReady("m".to_string()), 503, "Model not ready: m"),
        (SwitchError::Timeout, 504, "Request timed out waiting for model"),
        (
            SwitchError::HookFailed {
                model: "m".to_string(),
                detail: "exit 1".to_string(),
            },
            500,
            "Hook failed for m: exit 1",
        ),
        (
            SwitchError::Internal("lost".to_string()),
            500,
            "Internal error: lost",
        ),
    ];
    for (error, status, message) in cases {
        let reply = switch_error_response(&error);
        assert_eq!(reply.status, status);
        assert_eq!(reply.body, error_response(status, message).body);
    }
}

#[test]
fn an_unreadable_body_is_a_bad_request() {
    match run(vec![FlowEvent::BodyFailed]) {
        (RequestFlow::Finished, FlowAction::Reply { reply, record }) => {
            assert_eq!(reply.status, 400);
            assert!(reply.body.contains("Failed to read request body"));
            assert!(record.is_none());
        }
        other => panic!("unexpected: {other:?}"),
    }
}

#[test]
fn a_request_without_a_model_passes_through() {
    assert!(matches!(
        run(vec![FlowEvent::BodyRead { model: None }]),
        (RequestFlow::Finished, FlowAction::PassThrough)
    ));
}

#[test]
fn an_unknown_model_is_refused_at_once() {
    match run(vec![named("qwen")]) {
        (RequestFlow::Finished, FlowAction::Reply { reply, record }) => {
            assert_eq!(reply.status, 404);
            assert!(reply.body.contains("Model not found: qwen"));
            let record = record.unwrap();
            assert_eq!((record.model.as_str(), record.status), ("qwen", 404));
        }
        other => panic!("unexpected: {other:?}"),
    }
}

#[test]
fn a_failed_switch_is_answered_and_counted() {
    match run(vec![named("llama"), FlowEvent::SwitchFailed(SwitchError::Timeout)]) {
        (RequestFlow::Finished, FlowAction::Reply { reply, record }) => {
            assert_eq!(reply.status, 504);
            let record = record.unwrap();
            assert_eq!((record.model.as_str(), record.status), ("llama", 504));
        }
        other => panic!("unexpected: {other:?}"),
    }
}

#[test]
fn a_draining_model_is_waited_for_again() {
    let mut events = vec![named("llama")];
    for settle in [true, false, true] {
        events.push(FlowEvent::Ready { settle });
        events.push(FlowEvent::Draining);
    }
    match run(events) {
        (RequestFlow::EnsuringReady { model }, FlowAction::EnsureReady { model: again }) => {
            assert_eq!(model, "llama");
            assert_eq!(again, "llama");
        }
        other => panic!("unexpected: {other:?}"),
    }
}

#[test]
fn a_request_in_flight_is_forwarded_to_its_backend() {
    for signal in [true, false] {
        let events = vec![
            named("llama"),
            FlowEvent::Ready { settle: !signal },
            FlowEvent::Draining,
            FlowEvent::Ready { settle: signal },
            FlowEvent::InFlight,
        ];
        match run(events) {
            (RequestFlow::Forwarding { model }, FlowAction::Forward { target, settle, .. }) => {
                assert_eq!(model, "llama");
                assert_eq!((target.host.as_str(), target.port), ("::1", 8001));
                assert_eq!(settle, signal);
            }
            other => panic!("unexpected: {other:?}"),
        }
    }
}

#[test]
fn a_response_is_counted_with_its_status() {
    let forwarded = || {
        vec![
            named("llama"),
            FlowEvent::Ready { settle: false },
            FlowEvent::InFlight,
        ]
    };
    let mut events = forwarded();
    events.push(FlowEvent::Responded { status: 429 });
    match run(events) {
        (RequestFlow::Finished, FlowAction::Respond { served }) => {
            assert_eq!((served.model.as_str(), served.status), ("llama", 429));
        }
        other => panic!("unexpected: {other:?}"),
    }
    let mut events = forwarded();
    events.push(FlowEvent::ForwardFailed);
    assert!(matches!(
        run(events),
        (RequestFlow::Finished, FlowAction::Fail)
    ));
}

#[test]
fn requests_are_counted_by_model_and_status() {
    let record = RequestRecord {
        model: "llama".to_string(),
        status: 200,
    };
    assert_eq!(
        record.labels(),
        vec![
            ("model".to_string(), "llama".to_string()),
            ("status".to_string(), "200".to_string())
        ]
    );
}

#[test]
fn a_layer_wraps_a_service() {
    let layer = ModelSwitcherLayer::new(switcher());
    let service = layer.clone().layer(7u8).clone();
    assert_eq!(service.inner, 7);
    assert!(service.switcher.is_registered("llama"));
    assert!(!service.switcher.is_registered("qwen"));
    assert_eq!(
        service.switcher.model_dest("llama"),
        Some(("::1".to_string(), 8001))
    );
}

#[test]
fn different_messages_have_different_bodies() {
    let messages = ["a\\n", "a\n", "a\\\\n", "\u{1}", "\\u0001", "\"", "\\\"", "", "a\u{7f}"];
    for (i, left) in messages.iter().enumerate() {
        for (j, right) in messages.iter().enumerate() {
            let same = error_response(500, left).body == error_response(500, right).body;
            assert_eq!(same, i == j, "{left:?} {right:?}");
        }
    }
}

#[test]
fn letters_escape_the_common_control_characters() {
    assert_eq!(
        error_response(500, "\u{8}\u{c}\r\t\u{7f}\u{0}").body,
        "{\"error\":{\"message\":\"\\b\\f\\r\\t\u{7f}\\u0000\",\"type\":\"llmux_error\"}}"
    );
}

#[test]
fn a_flow_starts_from_the_bytes_of_a_body() {
    match run(vec![FlowEvent::body_read(b"{\"model\": \"llama\"}")]) {
        (RequestFlow::EnsuringReady { model }, FlowAction::EnsureReady { .. }) => {
            assert_eq!(model, "llama");
        }
        other => panic!("unexpected: {other:?}"),
    }
    assert!(matches!(
        run(vec![FlowEvent::body_read(b"[]")]),
        (RequestFlow::Finished, FlowAction::PassThrough)
    ));
}

#[test]
fn error_bodies_read_back() {
    let every: String = (0u8..=127).map(char::from).collect();
    for message in [every.as_str(), "", "\u{fc}\u{1f600}\u{2028}", "\"}}", "\\\"\n"] {
        let reply = error_response(502, message);
        let body: serde_json::Value = serde_json::from_str(&reply.body).unwrap();
        assert_eq!(body.as_object().unwrap().len(), 1);
        assert_eq!(body["error"].as_object().unwrap().len(), 2);
        assert_eq!(body["error"]["message"].as_str(), Some(message));
        assert_eq!(body["error"]["type"].as_str(), Some("llmux_error"));
    }
}

#[test]
fn the_wrapped_service_is_called_once() {
    let switcher = switcher();
    let mut flow = RequestFlow::new();
    let mut calls = 0;
    for event in [
        named("llama"),
        FlowEvent::Ready { settle: true },
        FlowEvent::Draining,
        FlowEvent::Ready { settle: true },
        FlowEvent::InFlight,
        FlowEvent::ForwardFailed,
    ] {
        let failed = matches!(event, FlowEvent::ForwardFailed);
        let (next, action) = flow.step(&switcher, event);
        flow = next;
        assert_eq!(matches!(action, FlowAction::Fail), failed);
        if matches!(action, FlowAction::Forward { .. } | FlowAction::PassThrough) {
            calls += 1;
        }
    }
    assert_eq!(calls, 1);
}
