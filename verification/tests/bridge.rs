use renderdog_automation::codec::find_envelope_of_json;
use renderdog_automation::codec::find_envelope_to_json;
use renderdog_automation::codec::trigger_envelope_of_json;
use renderdog_automation::codec::trigger_envelope_to_json;
use renderdog_automation::codec::trigger_request_to_json;
use renderdog_automation::codec::find_events_request_to_json;
use renderdog_automation::json::JsonVal;
use renderdog_automation::json::render_json;
use renderdog_automation::scripting::Envelope;
use renderdog_automation::scripting::ScriptingBridge;
use renderdog_automation::scripting::interpret_envelope;
use renderdog_automation::workflows::TriggerCaptureRequest;
use renderdog_automation::workflows::TriggerCaptureResponse;
use renderdog_automation::workflows::FindEventsRequest;
use renderdog_automation::workflows::FindEventsResponse;
use renderdog_automation::workflows::FoundEvent;

fn sample_response() -> TriggerCaptureResponse {
    TriggerCaptureResponse {
        capture_path: "/tmp/run/frame_0001.rdc".to_string(),
        frame_number: 812,
        api: "Vulkan".to_string(),
    }
}

#[test]
fn envelope_roundtrip_reproduces_result() {
    let env = Envelope { ok: true, result: Some(sample_response()), error: None };
    let doc = trigger_envelope_to_json(&env);
    let back = trigger_envelope_of_json(&doc).expect("roundtrip parse");
    assert!(back.ok);
    assert!(back.error.is_none());
    let r = back.result.expect("result present");
    assert_eq!(r.capture_path, "/tmp/run/frame_0001.rdc");
    assert_eq!(r.frame_number, 812);
    assert_eq!(r.api, "Vulkan");
}

#[test]
fn envelope_roundtrip_through_text() {
    let env = Envelope { ok: true, result: Some(sample_response()), error: None };
    let doc = trigger_envelope_to_json(&env);
    let text = render_json(&doc);
    // An independent JSON reader sees the same document.
    let v: serde_json::Value = serde_json::from_str(&text).expect("valid JSON");
    assert_eq!(v["ok"], serde_json::Value::Bool(true));
    assert_eq!(v["result"]["capture_path"].as_str(), Some("/tmp/run/frame_0001.rdc"));
    assert_eq!(v["result"]["frame_number"].as_u64(), Some(812));
    assert_eq!(v["result"]["api"].as_str(), Some("Vulkan"));
    assert!(v["error"].is_null());
}

#[test]
fn envelope_error_roundtrip() {
    let env: Envelope<TriggerCaptureResponse> = Envelope {
        ok: false,
        result: None,
        error: Some("capture is unreplayable".to_string()),
    };
    let doc = trigger_envelope_to_json(&env);
    let back = trigger_envelope_of_json(&doc).expect("parse");
    assert!(!back.ok);
    assert!(back.result.is_none());
    assert_eq!(back.error.as_deref(), Some("capture is unreplayable"));
}

#[test]
fn interpret_envelope_branches() {
    let ok: Result<u32, String> =
        interpret_envelope(Envelope { ok: true, result: Some(7u32), error: None });
    assert_eq!(ok, Ok(7));

    let missing: Result<u32, String> =
        interpret_envelope(Envelope { ok: true, result: None, error: None });
    assert_eq!(missing, Err("missing result".to_string()));

    let domain: Result<u32, String> = interpret_envelope(Envelope {
        ok: false,
        result: Some(7u32),
        error: Some("bad capture".to_string()),
    });
    assert_eq!(domain, Err("bad capture".to_string()));

    let unknown: Result<u32, String> =
        interpret_envelope(Envelope { ok: false, result: None, error: None });
    assert_eq!(unknown, Err("unknown error".to_string()));
}

#[test]
fn run_dir_names_have_the_documented_shape() {
    let mut bridge = ScriptingBridge::new();
    let first = bridge.next_run_dir_name("trigger_capture", 1234567890, 4242);
    assert_eq!(first, "trigger_capture-1234567890-4242-0");
    let second = bridge.next_run_dir_name("trigger_capture", 1234567890, 4242);
    assert_eq!(second, "trigger_capture-1234567890-4242-1");
}

#[test]
fn thousand_bridge_calls_get_distinct_run_dirs() {
    let mut bridge = ScriptingBridge::new();
    let mut names: Vec<String> = Vec::new();
    for _ in 0..1000 {
        // One wall-clock reading and one process id, repeated: only the
        // bridge's own counter distinguishes the calls.
        names.push(bridge.next_run_dir_name("export_actions_jsonl", 99, 7));
    }
    let mut unique: std::collections::HashSet<String> = std::collections::HashSet::new();
    for n in &names {
        unique.insert(n.clone());
    }
    assert_eq!(unique.len(), 1000);
}

#[test]
fn render_json_escapes_and_layout() {
    let doc = JsonVal::Obj(vec![
        ("a".to_string(), JsonVal::Str("x\"y\\z\n".to_string())),
        ("b".to_string(), JsonVal::Arr(vec![
            JsonVal::Num(0),
            JsonVal::Num(18446744073709551615),
            JsonVal::Bool(false),
            JsonVal::Null,
        ])),
    ]);
    let text = render_json(&doc);
    assert_eq!(
        text,
        "{\"a\":\"x\\\"y\\\\z\\n\",\"b\":[0,18446744073709551615,false,null]}"
    );
    // Control characters become \u escapes.
    let s = render_json(&JsonVal::Str("\u{0007}".to_string()));
    assert_eq!(s, "\"\\u0007\"");
}

#[test]
fn trigger_request_document_fields() {
    let req = TriggerCaptureRequest {
        host: "localhost".to_string(),
        target_ident: 38920,
        num_frames: 1,
        timeout_s: 60,
    };
    let text = render_json(&trigger_request_to_json(&req));
    assert_eq!(
        text,
        "{\"host\":\"localhost\",\"target_ident\":38920,\"num_frames\":1,\"timeout_s\":60}"
    );
}

#[test]
fn find_request_document_null_options() {
    let req = FindEventsRequest {
        capture_path: "c.rdc".to_string(),
        only_drawcalls: true,
        marker_prefix: None,
        event_id_min: Some(2),
        event_id_max: None,
        name_contains: None,
        marker_contains: Some("sub".to_string()),
        case_sensitive: false,
        max_results: Some(200),
    };
    let text = render_json(&find_events_request_to_json(&req));
    let v: serde_json::Value = serde_json::from_str(&text).expect("valid JSON");
    assert!(v["marker_prefix"].is_null());
    assert_eq!(v["event_id_min"].as_u64(), Some(2));
    assert!(v["event_id_max"].is_null());
    assert_eq!(v["marker_contains"].as_str(), Some("sub"));
    assert_eq!(v["max_results"].as_u64(), Some(200));
    assert_eq!(v["only_drawcalls"], serde_json::Value::Bool(true));
}

#[test]
fn find_envelope_roundtrip_reproduces_matches() {
    let response = FindEventsResponse {
        capture_path: "demo.rdc".to_string(),
        total_matches: 2,
        truncated: true,
        first_event_id: Some(2),
        last_event_id: Some(4),
        matches: vec![FoundEvent {
            event_id: 4,
            parent_event_id: Some(3),
            depth: 2,
            name: "DrawSub".to_string(),
            flags: 2,
            flags_names: vec!["Drawcall".to_string()],
            marker_path: vec!["Pass1".to_string(), "Sub".to_string()],
            marker_path_joined: "Pass1/Sub".to_string(),
        }],
    };
    let env = Envelope { ok: true, result: Some(response), error: None };
    let doc = find_envelope_to_json(&env);
    let text = render_json(&doc);
    let back = find_envelope_of_json(&doc).expect("roundtrip parse");
    assert!(back.ok);
    let r = back.result.expect("result present");
    assert_eq!(r.capture_path, "demo.rdc");
    assert_eq!(r.total_matches, 2);
    assert!(r.truncated);
    assert_eq!(r.first_event_id, Some(2));
    assert_eq!(r.last_event_id, Some(4));
    assert_eq!(r.matches.len(), 1);
    let m = &r.matches[0];
    assert_eq!(m.event_id, 4);
    assert_eq!(m.parent_event_id, Some(3));
    assert_eq!(m.depth, 2);
    assert_eq!(m.name, "DrawSub");
    assert_eq!(m.flags, 2);
    assert_eq!(m.flags_names, vec!["Drawcall".to_string()]);
    assert_eq!(m.marker_path, vec!["Pass1".to_string(), "Sub".to_string()]);
    assert_eq!(m.marker_path_joined, "Pass1/Sub");
    // An independent reader agrees on the text form.
    let v: serde_json::Value = serde_json::from_str(&text).expect("valid JSON");
    assert_eq!(v["result"]["matches"][0]["marker_path"][1].as_str(), Some("Sub"));
    assert_eq!(v["result"]["first_event_id"].as_u64(), Some(2));
}

#[test]
fn malformed_envelope_is_rejected() {
    // `ok` of the wrong shape fails the parse rather than guessing.
    let doc = JsonVal::Obj(vec![("ok".to_string(), JsonVal::Num(1))]);
    assert!(trigger_envelope_of_json(&doc).is_none());
    assert!(find_envelope_of_json(&doc).is_none());
}
