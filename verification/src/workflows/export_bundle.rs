//! A bundle export is the actions export and the bindings-index export
//! over one capture; this module splits the request and merges the two
//! responses.
use vstd::prelude::*;

use crate::actions::clone_string;
use crate::workflows::ExportActionsRequest;
use crate::workflows::ExportActionsResponse;
use crate::workflows::ExportBindingsIndexRequest;
use crate::workflows::ExportBindingsIndexResponse;
use crate::workflows::ExportBundleRequest;
use crate::workflows::ExportBundleResponse;
use crate::workflows::clone_opt_string;

verus! {

/// The two per-pass requests a bundle request stands for, sharing its
/// capture, output directory, basename and filter.
pub fn export_bundle_requests(req: &ExportBundleRequest) -> (r: (
    ExportActionsRequest,
    ExportBindingsIndexRequest,
))
    ensures
        r.0.capture_path@ == req.capture_path@,
        r.0.output_dir@ == req.output_dir@,
        r.0.basename@ == req.basename@,
        r.0.only_drawcalls == req.only_drawcalls,
        (match req.marker_prefix {
            Some(p) => r.0.marker_prefix matches Some(q) && q@ == p@,
            None => r.0.marker_prefix is None,
        }),
        r.0.event_id_min == req.event_id_min,
        r.0.event_id_max == req.event_id_max,
        (match req.name_contains {
            Some(p) => r.0.name_contains matches Some(q) && q@ == p@,
            None => r.0.name_contains is None,
        }),
        (match req.marker_contains {
            Some(p) => r.0.marker_contains matches Some(q) && q@ == p@,
            None => r.0.marker_contains is None,
        }),
        r.0.case_sensitive == req.case_sensitive,
        r.1.capture_path@ == req.capture_path@,
        r.1.output_dir@ == req.output_dir@,
        r.1.basename@ == req.basename@,
        (match req.marker_prefix {
            Some(p) => r.1.marker_prefix matches Some(q) && q@ == p@,
            None => r.1.marker_prefix is None,
        }),
        r.1.event_id_min == req.event_id_min,
        r.1.event_id_max == req.event_id_max,
        (match req.name_contains {
            Some(p) => r.1.name_contains matches Some(q) && q@ == p@,
            None => r.1.name_contains is None,
        }),
        (match req.marker_contains {
            Some(p) => r.1.marker_contains matches Some(q) && q@ == p@,
            None => r.1.marker_contains is None,
        }),
        r.1.case_sensitive == req.case_sensitive,
        r.1.include_cbuffers == req.include_cbuffers,
        r.1.include_outputs == req.include_outputs,
{
    let actions = ExportActionsRequest {
        capture_path: clone_string(&req.capture_path),
        output_dir: clone_string(&req.output_dir),
        basename: clone_string(&req.basename),
        only_drawcalls: req.only_drawcalls,
        marker_prefix: clone_opt_string(&req.marker_prefix),
        event_id_min: req.event_id_min,
        event_id_max: req.event_id_max,
        name_contains: clone_opt_string(&req.name_contains),
        marker_contains: clone_opt_string(&req.marker_contains),
        case_sensitive: req.case_sensitive,
    };
    let bindings = ExportBindingsIndexRequest {
        capture_path: clone_string(&req.capture_path),
        output_dir: clone_string(&req.output_dir),
        basename: clone_string(&req.basename),
        marker_prefix: clone_opt_string(&req.marker_prefix),
        event_id_min: req.event_id_min,
        event_id_max: req.event_id_max,
        name_contains: clone_opt_string(&req.name_contains),
        marker_contains: clone_opt_string(&req.marker_contains),
        case_sensitive: req.case_sensitive,
        include_cbuffers: req.include_cbuffers,
        include_outputs: req.include_outputs,
    };
    (actions, bindings)
}

impl crate::renderdoccmd::RenderDocInstallation {
    /// Merges the two pass responses into the bundle response, carrying
    /// every path and total through unchanged.
    pub fn export_bundle_jsonl(
        &self,
        capture_path: String,
        actions: ExportActionsResponse,
        bindings: ExportBindingsIndexResponse,
    ) -> (r: ExportBundleResponse)
    ensures
        r.capture_path@ == capture_path@,
        r.actions_jsonl_path@ == actions.actions_jsonl_path@,
        r.actions_summary_json_path@ == actions.summary_json_path@,
        r.total_actions == actions.total_actions,
        r.drawcall_actions == actions.drawcall_actions,
        r.bindings_jsonl_path@ == bindings.bindings_jsonl_path@,
        r.bindings_summary_json_path@ == bindings.summary_json_path@,
        r.total_drawcalls == bindings.total_drawcalls,
    {
        ExportBundleResponse {
            capture_path,
            actions_jsonl_path: actions.actions_jsonl_path,
            actions_summary_json_path: actions.summary_json_path,
            total_actions: actions.total_actions,
            drawcall_actions: actions.drawcall_actions,
            bindings_jsonl_path: bindings.bindings_jsonl_path,
            bindings_summary_json_path: bindings.summary_json_path,
            total_drawcalls: bindings.total_drawcalls,
        }
    }
}

} // verus!
