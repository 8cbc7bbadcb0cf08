use renderdog_automation::actions::ActionNode;
use renderdog_automation::flags::FLAG_DRAWCALL;
use renderdog_automation::flags::FLAG_PUSH_MARKER;
use renderdog_automation::workflows::FindEventsRequest;
use renderdog_automation::workflows::find_events::find_events;

fn leaf(event_id: u32, name: &str, flags: u64) -> ActionNode {
    ActionNode { event_id, name: name.to_string(), flags, children: Vec::new() }
}

fn node(event_id: u32, name: &str, flags: u64, children: Vec<ActionNode>) -> ActionNode {
    ActionNode { event_id, name: name.to_string(), flags, children }
}

/// The tree of the two marker-scope scenarios: a push-marker root
/// `Pass1` holding a drawcall B and a nested push-marker `Sub` that
/// holds a drawcall D.
fn scenario_tree() -> Vec<ActionNode> {
    vec![node(
        1,
        "Pass1",
        FLAG_PUSH_MARKER,
        vec![
            leaf(2, "Draw", FLAG_DRAWCALL),
            node(3, "Sub", FLAG_PUSH_MARKER, vec![leaf(4, "DrawSub", FLAG_DRAWCALL)]),
        ],
    )]
}

fn base_request() -> FindEventsRequest {
    FindEventsRequest {
        capture_path: "demo.rdc".to_string(),
        only_drawcalls: false,
        marker_prefix: None,
        event_id_min: None,
        event_id_max: None,
        name_contains: None,
        marker_contains: None,
        case_sensitive: false,
        max_results: None,
    }
}

#[test]
fn marker_prefix_scenario() {
    let tree = scenario_tree();
    let mut req = base_request();
    req.only_drawcalls = true;
    req.marker_prefix = Some("Pass1".to_string());
    let r = find_events(&tree, &req);
    assert_eq!(r.total_matches, 2);
    assert!(!r.truncated);
    assert_eq!(r.matches.len(), 2);
    assert_eq!(r.matches[0].event_id, 2);
    assert_eq!(r.matches[0].marker_path, vec!["Pass1".to_string()]);
    assert_eq!(r.matches[1].event_id, 4);
    assert_eq!(
        r.matches[1].marker_path,
        vec!["Pass1".to_string(), "Sub".to_string()]
    );
    assert_eq!(r.matches[1].marker_path_joined, "Pass1/Sub");
    assert_eq!(r.first_event_id, Some(2));
    assert_eq!(r.last_event_id, Some(4));
}

#[test]
fn marker_contains_case_insensitive_scenario() {
    let tree = scenario_tree();
    let mut req = base_request();
    req.marker_contains = Some("sub".to_string());
    req.case_sensitive = false;
    let r = find_events(&tree, &req);
    assert_eq!(r.total_matches, 1);
    assert_eq!(r.matches.len(), 1);
    assert_eq!(r.matches[0].event_id, 4);
    assert_eq!(r.matches[0].name, "DrawSub");
}

#[test]
fn marker_contains_case_sensitive_excludes() {
    let tree = scenario_tree();
    let mut req = base_request();
    req.marker_contains = Some("sub".to_string());
    req.case_sensitive = true;
    let r = find_events(&tree, &req);
    assert_eq!(r.total_matches, 0);
    assert!(r.matches.is_empty());
}

#[test]
fn event_id_bounds_are_inclusive() {
    let tree = scenario_tree();
    let mut req = base_request();
    req.event_id_min = Some(2);
    req.event_id_max = Some(4);
    let r = find_events(&tree, &req);
    let ids: Vec<u32> = r.matches.iter().map(|m| m.event_id).collect();
    assert_eq!(ids, vec![2, 3, 4]);

    let mut narrow = base_request();
    narrow.event_id_min = Some(4);
    narrow.event_id_max = Some(4);
    let r = find_events(&tree, &narrow);
    assert_eq!(r.total_matches, 1);
    assert_eq!(r.matches[0].event_id, 4);
}

#[test]
fn truncation_iff_cap_below_total() {
    let tree = scenario_tree();
    let mut req = base_request();
    req.max_results = Some(2);
    let r = find_events(&tree, &req);
    assert_eq!(r.total_matches, 4);
    assert!(r.truncated);
    assert_eq!(r.matches.len(), 2);
    // The id span still reflects every match, not just the kept ones.
    assert_eq!(r.first_event_id, Some(1));
    assert_eq!(r.last_event_id, Some(4));

    let mut uncapped = base_request();
    uncapped.max_results = None;
    let r = find_events(&tree, &uncapped);
    assert!(!r.truncated);
    assert_eq!(r.matches.len(), 4);

    let mut generous = base_request();
    generous.max_results = Some(100);
    let r = find_events(&tree, &generous);
    assert!(!r.truncated);
}

#[test]
fn first_last_absent_iff_no_matches() {
    let tree = scenario_tree();
    let mut req = base_request();
    req.name_contains = Some("no such name".to_string());
    let r = find_events(&tree, &req);
    assert_eq!(r.total_matches, 0);
    assert_eq!(r.first_event_id, None);
    assert_eq!(r.last_event_id, None);

    let all = find_events(&tree, &base_request());
    let first = all.first_event_id.unwrap();
    let last = all.last_event_id.unwrap();
    assert!(first <= last);
}

#[test]
fn only_drawcalls_never_increases_count() {
    let tree = scenario_tree();
    let mut with = base_request();
    with.only_drawcalls = true;
    let mut without = base_request();
    without.only_drawcalls = false;
    let n_with = find_events(&tree, &with).total_matches;
    let n_without = find_events(&tree, &without).total_matches;
    assert!(n_with <= n_without);
    assert_eq!(n_with, 2);
    assert_eq!(n_without, 4);
}

#[test]
fn narrowing_marker_prefix_never_increases_count() {
    let tree = scenario_tree();
    let mut wide = base_request();
    wide.marker_prefix = Some("Pass1".to_string());
    let mut narrow = base_request();
    narrow.marker_prefix = Some("Pass1/Sub".to_string());
    let n_wide = find_events(&tree, &wide).total_matches;
    let n_narrow = find_events(&tree, &narrow).total_matches;
    assert!(n_narrow <= n_wide);
    assert_eq!(n_wide, 4);
    assert_eq!(n_narrow, 2);
}

#[test]
fn empty_tree_finds_nothing() {
    let tree: Vec<ActionNode> = Vec::new();
    let r = find_events(&tree, &base_request());
    assert_eq!(r.total_matches, 0);
    assert!(!r.truncated);
    assert_eq!(r.first_event_id, None);
    assert_eq!(r.last_event_id, None);
    assert!(r.matches.is_empty());
}

#[test]
fn name_contains_folds_case() {
    let tree = scenario_tree();
    let mut req = base_request();
    req.name_contains = Some("drawsub".to_string());
    req.case_sensitive = false;
    let r = find_events(&tree, &req);
    assert_eq!(r.total_matches, 1);
    assert_eq!(r.matches[0].event_id, 4);
}

#[test]
fn flags_names_decoded_in_table_order() {
    let tree = scenario_tree();
    let r = find_events(&tree, &base_request());
    assert_eq!(r.matches[0].flags_names, vec!["PushMarker".to_string()]);
    assert_eq!(r.matches[1].flags_names, vec!["Drawcall".to_string()]);
    let both = renderdog_automation::flags::flag_names(FLAG_DRAWCALL | FLAG_PUSH_MARKER);
    assert_eq!(both, vec!["Drawcall".to_string(), "PushMarker".to_string()]);
}
