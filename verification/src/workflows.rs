//! High-level workflows over a capture trace: the shared request and
//! response shapes, and the query, export and trigger engines that fill
//! them.
use vstd::prelude::*;

pub mod find_events;
pub mod export_actions;
pub mod export_bundle;
pub mod trigger_capture;

verus! {

#[derive(Debug)]
pub struct TriggerCaptureRequest {
    pub host: String,
    pub target_ident: u32,
    pub num_frames: u32,
    pub timeout_s: u32,
}

#[derive(Debug)]
pub struct TriggerCaptureResponse {
    pub capture_path: String,
    pub frame_number: u32,
    pub api: String,
}

#[derive(Debug)]
pub struct ExportActionsRequest {
    pub capture_path: String,
    pub output_dir: String,
    pub basename: String,
    pub only_drawcalls: bool,
    pub marker_prefix: Option<String>,
    pub event_id_min: Option<u32>,
    pub event_id_max: Option<u32>,
    pub name_contains: Option<String>,
    pub marker_contains: Option<String>,
    pub case_sensitive: bool,
}

#[derive(Debug)]
pub struct ExportActionsResponse {
    pub capture_path: String,
    pub actions_jsonl_path: String,
    pub summary_json_path: String,
    pub total_actions: u64,
    pub drawcall_actions: u64,
}

#[derive(Debug)]
pub struct FindEventsRequest {
    pub capture_path: String,
    pub only_drawcalls: bool,
    pub marker_prefix: Option<String>,
    pub event_id_min: Option<u32>,
    pub event_id_max: Option<u32>,
    pub name_contains: Option<String>,
    pub marker_contains: Option<String>,
    pub case_sensitive: bool,
    pub max_results: Option<u32>,
}

#[derive(Debug)]
pub struct FoundEvent {
    pub event_id: u32,
    pub parent_event_id: Option<u32>,
    pub depth: u32,
    pub name: String,
    pub flags: u64,
    pub flags_names: Vec<String>,
    pub marker_path: Vec<String>,
    pub marker_path_joined: String,
}

#[derive(Debug)]
pub struct FindEventsResponse {
    pub capture_path: String,
    pub total_matches: u64,
    pub truncated: bool,
    pub first_event_id: Option<u32>,
    pub last_event_id: Option<u32>,
    pub matches: Vec<FoundEvent>,
}

#[derive(Debug)]
pub struct ExportBindingsIndexRequest {
    pub capture_path: String,
    pub output_dir: String,
    pub basename: String,
    pub marker_prefix: Option<String>,
    pub event_id_min: Option<u32>,
    pub event_id_max: Option<u32>,
    pub name_contains: Option<String>,
    pub marker_contains: Option<String>,
    pub case_sensitive: bool,
    pub include_cbuffers: bool,
    pub include_outputs: bool,
}

#[derive(Debug)]
pub struct ExportBindingsIndexResponse {
    pub capture_path: String,
    pub bindings_jsonl_path: String,
    pub summary_json_path: String,
    pub total_drawcalls: u64,
}

#[derive(Debug)]
pub struct ExportBundleRequest {
    pub capture_path: String,
    pub output_dir: String,
    pub basename: String,
    pub only_drawcalls: bool,
    pub marker_prefix: Option<String>,
    pub event_id_min: Option<u32>,
    pub event_id_max: Option<u32>,
    pub name_contains: Option<String>,
    pub marker_contains: Option<String>,
    pub case_sensitive: bool,
    pub include_cbuffers: bool,
    pub include_outputs: bool,
}

#[derive(Debug)]
pub struct ExportBundleResponse {
    pub capture_path: String,
    pub actions_jsonl_path: String,
    pub actions_summary_json_path: String,
    pub total_actions: u64,
    pub drawcall_actions: u64,
    pub bindings_jsonl_path: String,
    pub bindings_summary_json_path: String,
    pub total_drawcalls: u64,
}

/// Clones an optional string, preserving its view.
pub fn clone_opt_string(s: &Option<String>) -> (r: Option<String>)
    ensures
        match *s {
            Some(v) => r matches Some(w) && w@ == v@,
            None => r is None,
        },
{
    match s {
        Some(v) => Some(crate::actions::clone_string(v)),
        None => None,
    }
}


#[derive(Debug)]
pub enum TriggerCaptureError {
    CreateArtifactsDir(String),
    WriteScript(String),
    WriteRequest(String),
    QRenderDocPython(Box<crate::scripting::QRenderDocPythonError>),
    ParseJson(String),
    ReadResponse(String),
    ScriptError(String),
}

#[derive(Debug)]
pub enum ExportActionsError {
    CreateOutputDir(String),
    WriteScript(String),
    WriteRequest(String),
    QRenderDocPython(Box<crate::scripting::QRenderDocPythonError>),
    ParseJson(String),
    ReadResponse(String),
    ScriptError(String),
}

#[derive(Debug)]
pub enum FindEventsError {
    CreateScriptsDir(String),
    WriteScript(String),
    WriteRequest(String),
    QRenderDocPython(Box<crate::scripting::QRenderDocPythonError>),
    ReadResponse(String),
    ParseJson(String),
    ScriptError(String),
}

#[derive(Debug)]
pub enum ExportBindingsIndexError {
    CreateOutputDir(String),
    WriteScript(String),
    WriteRequest(String),
    QRenderDocPython(Box<crate::scripting::QRenderDocPythonError>),
    ParseJson(String),
    ReadResponse(String),
    ScriptError(String),
}

#[derive(Debug)]
pub enum ExportBundleError {
    Actions(ExportActionsError),
    Bindings(ExportBindingsIndexError),
}

/// The default control host of a trigger request.
pub fn default_host() -> (r: String)
    ensures
        r@ == "localhost"@,
{
    String::from_str("localhost")
}

/// The default number of frames a trigger request captures.
pub fn default_frames() -> (r: u32)
    ensures
        r == 1,
{
    1
}

/// The default trigger deadline, in seconds.
pub fn default_timeout_s() -> (r: u32)
    ensures
        r == 60,
{
    60
}

/// The default of the boolean request switches.
pub fn default_true() -> (r: bool)
    ensures
        r,
{
    true
}

/// The default cap on materialized matches.
pub fn default_max_results() -> (r: Option<u32>)
    ensures
        r matches Some(k) && k == 200,
{
    Some(200)
}

} // verus!

