use renderdog_automation::actions::ActionNode;
use renderdog_automation::flags::FLAG_CLEAR;
use renderdog_automation::flags::FLAG_DRAWCALL;
use renderdog_automation::flags::FLAG_PUSH_MARKER;
use renderdog_automation::workflows::ExportActionsRequest;
use renderdog_automation::workflows::ExportActionsResponse;
use renderdog_automation::workflows::ExportBindingsIndexResponse;
use renderdog_automation::workflows::export_actions::export_actions_jsonl;
use renderdog_automation::renderdoccmd::RenderDocInstallation;

fn request() -> ExportActionsRequest {
    ExportActionsRequest {
        capture_path: "demo.rdc".to_string(),
        output_dir: "/out".to_string(),
        basename: "frame".to_string(),
        only_drawcalls: false,
        marker_prefix: None,
        event_id_min: None,
        event_id_max: None,
        name_contains: None,
        marker_contains: None,
        case_sensitive: true,
    }
}

fn tree() -> Vec<ActionNode> {
    vec![ActionNode {
        event_id: 1,
        name: "Pass1".to_string(),
        flags: FLAG_PUSH_MARKER,
        children: vec![
            ActionNode {
                event_id: 2,
                name: "Clear".to_string(),
                flags: FLAG_CLEAR,
                children: Vec::new(),
            },
            ActionNode {
                event_id: 3,
                name: "Draw".to_string(),
                flags: FLAG_DRAWCALL,
                children: Vec::new(),
            },
        ],
    }]
}

#[test]
fn export_writes_one_line_per_match_in_order() {
    let out = export_actions_jsonl(&tree(), &request(), &"Vulkan".to_string());
    assert_eq!(out.lines.len(), 3);
    assert_eq!(
        out.lines[0],
        "{\"event_id\":1,\"parent_event_id\":null,\"depth\":0,\"name\":\"Pass1\",\"flags\":256,\"flags_names\":[\"PushMarker\"],\"marker_path\":[],\"num_children\":2}"
    );
    assert_eq!(
        out.lines[1],
        "{\"event_id\":2,\"parent_event_id\":1,\"depth\":1,\"name\":\"Clear\",\"flags\":1,\"flags_names\":[\"Clear\"],\"marker_path\":[\"Pass1\"],\"num_children\":0}"
    );
    assert_eq!(
        out.lines[2],
        "{\"event_id\":3,\"parent_event_id\":1,\"depth\":1,\"name\":\"Draw\",\"flags\":2,\"flags_names\":[\"Drawcall\"],\"marker_path\":[\"Pass1\"],\"num_children\":0}"
    );
}

#[test]
fn export_summary_and_response_totals() {
    let out = export_actions_jsonl(&tree(), &request(), &"D3D12".to_string());
    assert_eq!(out.response.capture_path, "demo.rdc");
    assert_eq!(out.response.total_actions, 3);
    assert_eq!(out.response.drawcall_actions, 1);
    assert_eq!(out.response.actions_jsonl_path, "/out/frame.actions.jsonl");
    assert_eq!(out.response.summary_json_path, "/out/frame.summary.json");
    assert_eq!(
        out.summary_json,
        "{\"capture_path\":\"demo.rdc\",\"api\":\"D3D12\",\"total_actions\":3,\"drawcall_actions\":1,\"actions_jsonl_path\":\"/out/frame.actions.jsonl\"}"
    );
}

#[test]
fn export_filters_lines_but_counts_whole_trace() {
    let mut req = request();
    req.only_drawcalls = true;
    let out = export_actions_jsonl(&tree(), &req, &"Vulkan".to_string());
    assert_eq!(out.lines.len(), 1);
    assert!(out.lines[0].contains("\"event_id\":3"));
    // The summary still counts the whole trace.
    assert_eq!(out.response.total_actions, 3);
    assert_eq!(out.response.drawcall_actions, 1);
}

#[test]
fn bundle_merge_carries_both_passes() {
    let actions = ExportActionsResponse {
        capture_path: "demo.rdc".to_string(),
        actions_jsonl_path: "/out/f.actions.jsonl".to_string(),
        summary_json_path: "/out/f.summary.json".to_string(),
        total_actions: 3,
        drawcall_actions: 1,
    };
    let bindings = ExportBindingsIndexResponse {
        capture_path: "demo.rdc".to_string(),
        bindings_jsonl_path: "/out/f.bindings.jsonl".to_string(),
        summary_json_path: "/out/f.bindings.summary.json".to_string(),
        total_drawcalls: 1,
    };
    let inst = RenderDocInstallation {
        root_dir: "/opt/renderdoc".to_string(),
        qrenderdoc_exe: "/opt/renderdoc/bin/qrenderdoc".to_string(),
        renderdoccmd_exe: "/opt/renderdoc/bin/renderdoccmd".to_string(),
    };
    let merged = inst.export_bundle_jsonl("demo.rdc".to_string(), actions, bindings);
    assert_eq!(merged.capture_path, "demo.rdc");
    assert_eq!(merged.actions_jsonl_path, "/out/f.actions.jsonl");
    assert_eq!(merged.actions_summary_json_path, "/out/f.summary.json");
    assert_eq!(merged.total_actions, 3);
    assert_eq!(merged.drawcall_actions, 1);
    assert_eq!(merged.bindings_jsonl_path, "/out/f.bindings.jsonl");
    assert_eq!(merged.bindings_summary_json_path, "/out/f.bindings.summary.json");
    assert_eq!(merged.total_drawcalls, 1);
}
