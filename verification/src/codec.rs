//! The JSON shapes of the bridge protocol: request documents the
//! library writes, and response envelopes it reads back.
//!
//! Every conversion is specified over the ghost document model, and
//! `lemma_trigger_envelope_roundtrip` shows that an envelope written as
//! a document and read back reproduces the payload field for field.
use vstd::prelude::*;

use crate::json::GJson;
use crate::json::JsonVal;
use crate::json::glookup;
use crate::json::jview;
use crate::json::jview_fields;
use crate::json::lemma_jview_fields_len;
use crate::json::lemma_jview_fields_index;
use crate::json::obj_get;
use crate::scripting::Envelope;
use crate::workflows::TriggerCaptureRequest;
use crate::workflows::FindEventsResponse;
use crate::workflows::FoundEvent;
use crate::workflows::FindEventsRequest;
use crate::workflows::ExportActionsRequest;
use crate::workflows::ExportBindingsIndexRequest;
use crate::workflows::TriggerCaptureResponse;
use crate::actions::clone_string;

verus! {

/// The ghost image of a trigger response.
pub ghost struct GTriggerResponse {
    pub capture_path: Seq<char>,
    pub frame_number: u32,
    pub api: Seq<char>,
}

pub open spec fn gtrigger_view(r: TriggerCaptureResponse) -> GTriggerResponse {
    GTriggerResponse { capture_path: r.capture_path@, frame_number: r.frame_number, api: r.api@ }
}

/// The ghost image of an envelope with a ghost payload.
pub ghost struct GEnvelope<G> {
    pub ok: bool,
    pub result: Option<G>,
    pub error: Option<Seq<char>>,
}

pub open spec fn genv_trigger_view(e: Envelope<TriggerCaptureResponse>) -> GEnvelope<
    GTriggerResponse,
> {
    GEnvelope {
        ok: e.ok,
        result: match e.result {
            Some(r) => Some(gtrigger_view(r)),
            None => None,
        },
        error: match e.error {
            Some(m) => Some(m@),
            None => None,
        },
    }
}

/// The document of a trigger response.
pub open spec fn gtrigger_json(r: GTriggerResponse) -> GJson {
    GJson::Obj(
        seq![
            ("capture_path"@, GJson::Str(r.capture_path)),
            ("frame_number"@, GJson::Num(r.frame_number as u64)),
            ("api"@, GJson::Str(r.api)),
        ],
    )
}

/// The document of a trigger envelope: `ok`, then `result` (the payload
/// document or null), then `error` (the message or null).
pub open spec fn gtrigger_envelope_json(e: GEnvelope<GTriggerResponse>) -> GJson {
    GJson::Obj(
        seq![
            ("ok"@, GJson::Bool(e.ok)),
            (
                "result"@,
                match e.result {
                    Some(r) => gtrigger_json(r),
                    None => GJson::Null,
                },
            ),
            (
                "error"@,
                match e.error {
                    Some(m) => GJson::Str(m),
                    None => GJson::Null,
                },
            ),
        ],
    )
}

/// Reads a trigger response from a document: an object whose
/// `capture_path` and `api` are strings and whose `frame_number` is a
/// number within `u32`.
pub open spec fn parse_gtrigger(g: GJson) -> Option<GTriggerResponse> {
    match g {
        GJson::Obj(fields) => {
            match (glookup(fields, "capture_path"@), glookup(fields, "frame_number"@), glookup(
                fields,
                "api"@,
            )) {
                (Some(GJson::Str(cp)), Some(GJson::Num(n)), Some(GJson::Str(api))) => {
                    if n <= u32::MAX {
                        Some(
                            GTriggerResponse {
                                capture_path: cp,
                                frame_number: n as u32,
                                api: api,
                            },
                        )
                    } else {
                        None
                    }
                },
                _ => None,
            }
        },
        _ => None,
    }
}

/// Reads a trigger envelope from a document.  `ok` must be a boolean;
/// a missing or null `result` is an absent payload; a missing or null
/// `error` is an absent message; anything else of the wrong shape
/// fails the parse.
pub open spec fn parse_gtrigger_envelope(g: GJson) -> Option<GEnvelope<GTriggerResponse>> {
    match g {
        GJson::Obj(fields) => {
            match glookup(fields, "ok"@) {
                Some(GJson::Bool(ok)) => {
                    let result = match glookup(fields, "result"@) {
                        Some(GJson::Null) => Some(None::<GTriggerResponse>),
                        Some(rv) => match parse_gtrigger(rv) {
                            Some(r) => Some(Some(r)),
                            None => None,
                        },
                        None => Some(None::<GTriggerResponse>),
                    };
                    let error = match glookup(fields, "error"@) {
                        Some(GJson::Null) => Some(None::<Seq<char>>),
                        Some(GJson::Str(m)) => Some(Some(m)),
                        Some(_) => None,
                        None => Some(None::<Seq<char>>),
                    };
                    match (result, error) {
                        (Some(r), Some(m)) => Some(GEnvelope { ok: ok, result: r, error: m }),
                        _ => None,
                    }
                },
                _ => None,
            }
        },
        _ => None,
    }
}

/// An envelope written as a document and read back reproduces every
/// field, the payload field for field.
pub proof fn lemma_trigger_envelope_roundtrip(e: GEnvelope<GTriggerResponse>)
    ensures
        parse_gtrigger_envelope(gtrigger_envelope_json(e)) == Some(e),
{
    reveal_strlit("ok");
    reveal_strlit("result");
    reveal_strlit("error");
    reveal_strlit("capture_path");
    reveal_strlit("frame_number");
    reveal_strlit("api");
    assert("ok"@.len() == 2);
    assert("result"@.len() == 6);
    assert("error"@.len() == 5);
    assert("capture_path"@.len() == 12);
    assert("frame_number"@.len() == 12);
    assert("api"@.len() == 3);
    assert("capture_path"@[0] == 'c' && "frame_number"@[0] == 'f');
    let fields = gtrigger_envelope_json(e)->Obj_0;
    lemma_glookup_3(fields);
    assert(glookup(fields, "ok"@) == Some(GJson::Bool(e.ok)));
    assert(glookup(fields, "result"@) == Some(fields[1].1));
    assert(glookup(fields, "error"@) == Some(fields[2].1));
    match e.result {
        Some(r) => {
            let pf = gtrigger_json(r)->Obj_0;
            lemma_glookup_3(pf);
            assert(glookup(pf, "capture_path"@) == Some(GJson::Str(r.capture_path)));
            assert(glookup(pf, "frame_number"@) == Some(GJson::Num(r.frame_number as u64)));
            assert(glookup(pf, "api"@) == Some(GJson::Str(r.api)));
            assert(parse_gtrigger(gtrigger_json(r)) == Some(r));
        },
        None => {},
    }
}

/// Looking up each key of a three-field object with pairwise distinct
/// keys yields that field.
proof fn lemma_glookup_3(fs: Seq<(Seq<char>, GJson)>)
    requires
        fs.len() == 3,
        fs[0].0 != fs[1].0,
        fs[0].0 != fs[2].0,
        fs[1].0 != fs[2].0,
    ensures
        glookup(fs, fs[0].0) == Some(fs[0].1),
        glookup(fs, fs[1].0) == Some(fs[1].1),
        glookup(fs, fs[2].0) == Some(fs[2].1),
{
    let t1 = fs.drop_first();
    let t2 = t1.drop_first();
    assert(t1.len() == 2 && t1[0] == fs[1] && t1[1] == fs[2]);
    assert(t2.len() == 1 && t2[0] == fs[2]);
    assert(glookup(fs, fs[0].0) == Some(fs[0].1));
    assert(glookup(fs, fs[1].0) == glookup(t1, fs[1].0));
    assert(glookup(t1, fs[1].0) == Some(fs[1].1));
    assert(glookup(fs, fs[2].0) == glookup(t1, fs[2].0));
    assert(glookup(t1, fs[2].0) == glookup(t2, fs[2].0));
    assert(glookup(t2, fs[2].0) == Some(fs[2].1));
}

/// Builds the document of a trigger envelope.
pub fn trigger_envelope_to_json(e: &Envelope<TriggerCaptureResponse>) -> (v: JsonVal)
    ensures
        jview(v) == gtrigger_envelope_json(genv_trigger_view(*e)),
{
    let result: JsonVal = match &e.result {
        Some(r) => trigger_response_to_json(r),
        None => JsonVal::Null,
    };
    let error: JsonVal = match &e.error {
        Some(m) => JsonVal::Str(clone_string(m)),
        None => JsonVal::Null,
    };
    let mut fields: Vec<(String, JsonVal)> = Vec::new();
    fields.push((String::from_str("ok"), JsonVal::Bool(e.ok)));
    fields.push((String::from_str("result"), result));
    fields.push((String::from_str("error"), error));
    let v = JsonVal::Obj(fields);
    proof {
        lemma_jview_fields_all(v->Obj_0@);
        assert(jview_fields(v->Obj_0@, 0) =~= gtrigger_envelope_json(
            genv_trigger_view(*e),
        )->Obj_0);
    }
    v
}

/// Builds the document of a trigger response.
pub fn trigger_response_to_json(r: &TriggerCaptureResponse) -> (v: JsonVal)
    ensures
        jview(v) == gtrigger_json(gtrigger_view(*r)),
{
    let mut fields: Vec<(String, JsonVal)> = Vec::new();
    fields.push((String::from_str("capture_path"), JsonVal::Str(clone_string(&r.capture_path))));
    fields.push((String::from_str("frame_number"), JsonVal::Num(r.frame_number as u64)));
    fields.push((String::from_str("api"), JsonVal::Str(clone_string(&r.api))));
    let v = JsonVal::Obj(fields);
    proof {
        lemma_jview_fields_all(v->Obj_0@);
        assert(jview_fields(v->Obj_0@, 0) =~= gtrigger_json(gtrigger_view(*r))->Obj_0);
    }
    v
}

proof fn lemma_jview_fields_all(fs: Seq<(String, JsonVal)>)
    ensures
        jview_fields(fs, 0).len() == fs.len(),
        forall|j: int|
            0 <= j < fs.len() ==> #[trigger] jview_fields(fs, 0)[j] == (fs[j].0@, jview(fs[j].1)),
{
    lemma_jview_fields_len(fs, 0);
    assert forall|j: int|
        0 <= j < fs.len() implies #[trigger] jview_fields(fs, 0)[j] == (
        fs[j].0@,
        jview(fs[j].1),
    ) by {
        lemma_jview_fields_index(fs, 0, j);
    }
}

/// Reads a trigger response from a document.
pub fn trigger_response_of_json(v: &JsonVal) -> (r: Option<TriggerCaptureResponse>)
    ensures
        match parse_gtrigger(jview(*v)) {
            Some(g) => r matches Some(t) && gtrigger_view(t) == g,
            None => r is None,
        },
{
    let fields = match v {
        JsonVal::Obj(fields) => fields,
        _ => {
            return None;
        },
    };
    let cp = match obj_get(fields, "capture_path") {
        Some(JsonVal::Str(s)) => clone_string(s),
        _ => {
            return None;
        },
    };
    let n = match obj_get(fields, "frame_number") {
        Some(JsonVal::Num(n)) => *n,
        _ => {
            return None;
        },
    };
    let api = match obj_get(fields, "api") {
        Some(JsonVal::Str(s)) => clone_string(s),
        _ => {
            return None;
        },
    };
    if n > u32::MAX as u64 {
        return None;
    }
    Some(TriggerCaptureResponse { capture_path: cp, frame_number: n as u32, api })
}

/// Reads a trigger envelope from a document.
pub fn trigger_envelope_of_json(v: &JsonVal) -> (r: Option<Envelope<TriggerCaptureResponse>>)
    ensures
        match parse_gtrigger_envelope(jview(*v)) {
            Some(g) => r matches Some(e) && genv_trigger_view(e) == g,
            None => r is None,
        },
{
    let fields = match v {
        JsonVal::Obj(fields) => fields,
        _ => {
            return None;
        },
    };
    let ok = match obj_get(fields, "ok") {
        Some(JsonVal::Bool(b)) => *b,
        _ => {
            return None;
        },
    };
    let result: Option<TriggerCaptureResponse> = match obj_get(fields, "result") {
        Some(JsonVal::Null) => None,
        Some(rv) => {
            match trigger_response_of_json(rv) {
                Some(t) => Some(t),
                None => {
                    return None;
                },
            }
        },
        None => None,
    };
    let error: Option<String> = match obj_get(fields, "error") {
        Some(JsonVal::Null) => None,
        Some(JsonVal::Str(m)) => Some(clone_string(m)),
        Some(_) => {
            return None;
        },
        None => None,
    };
    Some(Envelope { ok, result, error })
}


fn json_opt_u32(v: Option<u32>) -> (r: JsonVal)
    ensures
        jview(r) == (match v {
            Some(x) => GJson::Num(x as u64),
            None => GJson::Null,
        }),
{
    match v {
        Some(x) => JsonVal::Num(x as u64),
        None => JsonVal::Null,
    }
}

fn json_opt_str(v: &Option<String>) -> (r: JsonVal)
    ensures
        jview(r) == (match *v {
            Some(s) => GJson::Str(s@),
            None => GJson::Null,
        }),
{
    match v {
        Some(s) => JsonVal::Str(clone_string(s)),
        None => JsonVal::Null,
    }
}

/// The document of a trigger request: the flat object of its fields.
pub open spec fn gtrigger_request_json(r: TriggerCaptureRequest) -> GJson {
    GJson::Obj(
        seq![
            ("host"@, GJson::Str(r.host@)),
            ("target_ident"@, GJson::Num(r.target_ident as u64)),
            ("num_frames"@, GJson::Num(r.num_frames as u64)),
            ("timeout_s"@, GJson::Num(r.timeout_s as u64)),
        ],
    )
}

pub fn trigger_request_to_json(r: &TriggerCaptureRequest) -> (v: JsonVal)
    ensures
        jview(v) == gtrigger_request_json(*r),
{
    let mut fields: Vec<(String, JsonVal)> = Vec::new();
    fields.push((String::from_str("host"), JsonVal::Str(clone_string(&r.host))));
    fields.push((String::from_str("target_ident"), JsonVal::Num(r.target_ident as u64)));
    fields.push((String::from_str("num_frames"), JsonVal::Num(r.num_frames as u64)));
    fields.push((String::from_str("timeout_s"), JsonVal::Num(r.timeout_s as u64)));
    let v = JsonVal::Obj(fields);
    proof {
        lemma_jview_fields_all(v->Obj_0@);
        assert(jview_fields(v->Obj_0@, 0) =~= gtrigger_request_json(*r)->Obj_0);
    }
    v
}

pub open spec fn gopt_num(v: Option<u32>) -> GJson {
    match v {
        Some(x) => GJson::Num(x as u64),
        None => GJson::Null,
    }
}

pub open spec fn gopt_str(v: Option<String>) -> GJson {
    match v {
        Some(s) => GJson::Str(s@),
        None => GJson::Null,
    }
}

/// The document of a find-events request: the flat object of its
/// filter fields, absent options as null.
pub open spec fn gfind_request_json(r: FindEventsRequest) -> GJson {
    GJson::Obj(
        seq![
            ("capture_path"@, GJson::Str(r.capture_path@)),
            ("only_drawcalls"@, GJson::Bool(r.only_drawcalls)),
            ("marker_prefix"@, gopt_str(r.marker_prefix)),
            ("event_id_min"@, gopt_num(r.event_id_min)),
            ("event_id_max"@, gopt_num(r.event_id_max)),
            ("name_contains"@, gopt_str(r.name_contains)),
            ("marker_contains"@, gopt_str(r.marker_contains)),
            ("case_sensitive"@, GJson::Bool(r.case_sensitive)),
            ("max_results"@, gopt_num(r.max_results)),
        ],
    )
}

pub fn find_events_request_to_json(r: &FindEventsRequest) -> (v: JsonVal)
    ensures
        jview(v) == gfind_request_json(*r),
{
    let mut fields: Vec<(String, JsonVal)> = Vec::new();
    fields.push((String::from_str("capture_path"), JsonVal::Str(clone_string(&r.capture_path))));
    fields.push((String::from_str("only_drawcalls"), JsonVal::Bool(r.only_drawcalls)));
    fields.push((String::from_str("marker_prefix"), json_opt_str(&r.marker_prefix)));
    fields.push((String::from_str("event_id_min"), json_opt_u32(r.event_id_min)));
    fields.push((String::from_str("event_id_max"), json_opt_u32(r.event_id_max)));
    fields.push((String::from_str("name_contains"), json_opt_str(&r.name_contains)));
    fields.push((String::from_str("marker_contains"), json_opt_str(&r.marker_contains)));
    fields.push((String::from_str("case_sensitive"), JsonVal::Bool(r.case_sensitive)));
    fields.push((String::from_str("max_results"), json_opt_u32(r.max_results)));
    let v = JsonVal::Obj(fields);
    proof {
        lemma_jview_fields_all(v->Obj_0@);
        assert(jview_fields(v->Obj_0@, 0) =~= gfind_request_json(*r)->Obj_0);
    }
    v
}

/// The document of an actions-export request.
pub open spec fn gexport_actions_request_json(r: ExportActionsRequest) -> GJson {
    GJson::Obj(
        seq![
            ("capture_path"@, GJson::Str(r.capture_path@)),
            ("output_dir"@, GJson::Str(r.output_dir@)),
            ("basename"@, GJson::Str(r.basename@)),
            ("only_drawcalls"@, GJson::Bool(r.only_drawcalls)),
            ("marker_prefix"@, gopt_str(r.marker_prefix)),
            ("event_id_min"@, gopt_num(r.event_id_min)),
            ("event_id_max"@, gopt_num(r.event_id_max)),
            ("name_contains"@, gopt_str(r.name_contains)),
            ("marker_contains"@, gopt_str(r.marker_contains)),
            ("case_sensitive"@, GJson::Bool(r.case_sensitive)),
        ],
    )
}

pub fn export_actions_request_to_json(r: &ExportActionsRequest) -> (v: JsonVal)
    ensures
        jview(v) == gexport_actions_request_json(*r),
{
    let mut fields: Vec<(String, JsonVal)> = Vec::new();
    fields.push((String::from_str("capture_path"), JsonVal::Str(clone_string(&r.capture_path))));
    fields.push((String::from_str("output_dir"), JsonVal::Str(clone_string(&r.output_dir))));
    fields.push((String::from_str("basename"), JsonVal::Str(clone_string(&r.basename))));
    fields.push((String::from_str("only_drawcalls"), JsonVal::Bool(r.only_drawcalls)));
    fields.push((String::from_str("marker_prefix"), json_opt_str(&r.marker_prefix)));
    fields.push((String::from_str("event_id_min"), json_opt_u32(r.event_id_min)));
    fields.push((String::from_str("event_id_max"), json_opt_u32(r.event_id_max)));
    fields.push((String::from_str("name_contains"), json_opt_str(&r.name_contains)));
    fields.push((String::from_str("marker_contains"), json_opt_str(&r.marker_contains)));
    fields.push((String::from_str("case_sensitive"), JsonVal::Bool(r.case_sensitive)));
    let v = JsonVal::Obj(fields);
    proof {
        lemma_jview_fields_all(v->Obj_0@);
        assert(jview_fields(v->Obj_0@, 0) =~= gexport_actions_request_json(*r)->Obj_0);
    }
    v
}

/// The document of a bindings-index export request.
pub open spec fn gexport_bindings_request_json(r: ExportBindingsIndexRequest) -> GJson {
    GJson::Obj(
        seq![
            ("capture_path"@, GJson::Str(r.capture_path@)),
            ("output_dir"@, GJson::Str(r.output_dir@)),
            ("basename"@, GJson::Str(r.basename@)),
            ("marker_prefix"@, gopt_str(r.marker_prefix)),
            ("event_id_min"@, gopt_num(r.event_id_min)),
            ("event_id_max"@, gopt_num(r.event_id_max)),
            ("name_contains"@, gopt_str(r.name_contains)),
            ("marker_contains"@, gopt_str(r.marker_contains)),
            ("case_sensitive"@, GJson::Bool(r.case_sensitive)),
            ("include_cbuffers"@, GJson::Bool(r.include_cbuffers)),
            ("include_outputs"@, GJson::Bool(r.include_outputs)),
        ],
    )
}

pub fn export_bindings_request_to_json(r: &ExportBindingsIndexRequest) -> (v: JsonVal)
    ensures
        jview(v) == gexport_bindings_request_json(*r),
{
    let mut fields: Vec<(String, JsonVal)> = Vec::new();
    fields.push((String::from_str("capture_path"), JsonVal::Str(clone_string(&r.capture_path))));
    fields.push((String::from_str("output_dir"), JsonVal::Str(clone_string(&r.output_dir))));
    fields.push((String::from_str("basename"), JsonVal::Str(clone_string(&r.basename))));
    fields.push((String::from_str("marker_prefix"), json_opt_str(&r.marker_prefix)));
    fields.push((String::from_str("event_id_min"), json_opt_u32(r.event_id_min)));
    fields.push((String::from_str("event_id_max"), json_opt_u32(r.event_id_max)));
    fields.push((String::from_str("name_contains"), json_opt_str(&r.name_contains)));
    fields.push((String::from_str("marker_contains"), json_opt_str(&r.marker_contains)));
    fields.push((String::from_str("case_sensitive"), JsonVal::Bool(r.case_sensitive)));
    fields.push((String::from_str("include_cbuffers"), JsonVal::Bool(r.include_cbuffers)));
    fields.push((String::from_str("include_outputs"), JsonVal::Bool(r.include_outputs)));
    let v = JsonVal::Obj(fields);
    proof {
        lemma_jview_fields_all(v->Obj_0@);
        assert(jview_fields(v->Obj_0@, 0) =~= gexport_bindings_request_json(*r)->Obj_0);
    }
    v
}


/// Looking up the key of a field preceded only by other keys yields
/// that field.
proof fn lemma_glookup_at(fs: Seq<(Seq<char>, GJson)>, i: int)
    requires
        0 <= i < fs.len(),
        forall|j: int| 0 <= j < i ==> (#[trigger] fs[j].0) != fs[i].0,
    ensures
        glookup(fs, fs[i].0) == Some(fs[i].1),
    decreases i,
{
    if i > 0 {
        let d = fs.drop_first();
        assert(fs[0].0 != fs[i].0);
        assert(glookup(fs, fs[i].0) == glookup(d, fs[i].0));
        assert(d[i - 1] == fs[i]);
        assert(forall|j: int| 0 <= j < i - 1 ==> (#[trigger] d[j].0) == fs[j + 1].0);
        lemma_glookup_at(d, i - 1);
    }
}

/// The ghost image of one materialized match.
pub ghost struct GFoundEvent {
    pub event_id: u32,
    pub parent_event_id: Option<u32>,
    pub depth: u32,
    pub name: Seq<char>,
    pub flags: u64,
    pub flags_names: Seq<Seq<char>>,
    pub marker_path: Seq<Seq<char>>,
    pub marker_path_joined: Seq<char>,
}

pub open spec fn gfound_view(f: FoundEvent) -> GFoundEvent {
    GFoundEvent {
        event_id: f.event_id,
        parent_event_id: f.parent_event_id,
        depth: f.depth,
        name: f.name@,
        flags: f.flags,
        flags_names: f.flags_names.deep_view(),
        marker_path: f.marker_path.deep_view(),
        marker_path_joined: f.marker_path_joined@,
    }
}

/// The ghost image of a find-events response.
pub ghost struct GFindResponse {
    pub capture_path: Seq<char>,
    pub total_matches: u64,
    pub truncated: bool,
    pub first_event_id: Option<u32>,
    pub last_event_id: Option<u32>,
    pub matches: Seq<GFoundEvent>,
}

pub open spec fn gfind_view(r: FindEventsResponse) -> GFindResponse {
    GFindResponse {
        capture_path: r.capture_path@,
        total_matches: r.total_matches,
        truncated: r.truncated,
        first_event_id: r.first_event_id,
        last_event_id: r.last_event_id,
        matches: Seq::new(r.matches@.len(), |i: int| gfound_view(r.matches@[i])),
    }
}

pub open spec fn genv_find_view(e: Envelope<FindEventsResponse>) -> GEnvelope<GFindResponse> {
    GEnvelope {
        ok: e.ok,
        result: match e.result {
            Some(r) => Some(gfind_view(r)),
            None => None,
        },
        error: match e.error {
            Some(m) => Some(m@),
            None => None,
        },
    }
}

/// An array of strings as a document.
pub open spec fn gstr_arr(ss: Seq<Seq<char>>) -> GJson {
    GJson::Arr(ss.map_values(|s: Seq<char>| GJson::Str(s)))
}

/// The document of one match.
pub open spec fn gfound_json(f: GFoundEvent) -> GJson {
    GJson::Obj(
        seq![
            ("event_id"@, GJson::Num(f.event_id as u64)),
            (
                "parent_event_id"@,
                match f.parent_event_id {
                    Some(p) => GJson::Num(p as u64),
                    None => GJson::Null,
                },
            ),
            ("depth"@, GJson::Num(f.depth as u64)),
            ("name"@, GJson::Str(f.name)),
            ("flags"@, GJson::Num(f.flags)),
            ("flags_names"@, gstr_arr(f.flags_names)),
            ("marker_path"@, gstr_arr(f.marker_path)),
            ("marker_path_joined"@, GJson::Str(f.marker_path_joined)),
        ],
    )
}

/// The document of a find-events response.
pub open spec fn gfind_json(r: GFindResponse) -> GJson {
    GJson::Obj(
        seq![
            ("capture_path"@, GJson::Str(r.capture_path)),
            ("total_matches"@, GJson::Num(r.total_matches)),
            ("truncated"@, GJson::Bool(r.truncated)),
            (
                "first_event_id"@,
                match r.first_event_id {
                    Some(p) => GJson::Num(p as u64),
                    None => GJson::Null,
                },
            ),
            (
                "last_event_id"@,
                match r.last_event_id {
                    Some(p) => GJson::Num(p as u64),
                    None => GJson::Null,
                },
            ),
            ("matches"@, GJson::Arr(r.matches.map_values(|f: GFoundEvent| gfound_json(f)))),
        ],
    )
}

pub open spec fn gfind_envelope_json(e: GEnvelope<GFindResponse>) -> GJson {
    GJson::Obj(
        seq![
            ("ok"@, GJson::Bool(e.ok)),
            (
                "result"@,
                match e.result {
                    Some(r) => gfind_json(r),
                    None => GJson::Null,
                },
            ),
            (
                "error"@,
                match e.error {
                    Some(m) => GJson::Str(m),
                    None => GJson::Null,
                },
            ),
        ],
    )
}

/// Reads a string array from document items.
pub open spec fn parse_gstrs(items: Seq<GJson>) -> Option<Seq<Seq<char>>>
    decreases items.len(),
{
    if items.len() == 0 {
        Some(Seq::<Seq<char>>::empty())
    } else {
        match items[0] {
            GJson::Str(s) => match parse_gstrs(items.drop_first()) {
                Some(rest) => Some(seq![s] + rest),
                None => None,
            },
            _ => None,
        }
    }
}

/// Reads an optional id: null for absent, a number within `u32` for
/// present.
pub open spec fn parse_gopt_id(g: GJson) -> Option<Option<u32>> {
    match g {
        GJson::Null => Some(None::<u32>),
        GJson::Num(n) => if n <= u32::MAX {
            Some(Some(n as u32))
        } else {
            None
        },
        _ => None,
    }
}

/// Reads one match from a document.
pub open spec fn parse_gfound(g: GJson) -> Option<GFoundEvent> {
    match g {
        GJson::Obj(fields) => {
            let event_id = glookup(fields, "event_id"@);
            let parent = glookup(fields, "parent_event_id"@);
            let depth = glookup(fields, "depth"@);
            let name = glookup(fields, "name"@);
            let flags = glookup(fields, "flags"@);
            let flags_names = glookup(fields, "flags_names"@);
            let marker_path = glookup(fields, "marker_path"@);
            let joined = glookup(fields, "marker_path_joined"@);
            if {
                &&& event_id matches Some(GJson::Num(n)) && n <= u32::MAX
                &&& parent matches Some(p) && parse_gopt_id(p) is Some
                &&& depth matches Some(GJson::Num(d)) && d <= u32::MAX
                &&& name matches Some(GJson::Str(_))
                &&& flags matches Some(GJson::Num(_))
                &&& flags_names matches Some(GJson::Arr(its)) && parse_gstrs(its) is Some
                &&& marker_path matches Some(GJson::Arr(its)) && parse_gstrs(its) is Some
                &&& joined matches Some(GJson::Str(_))
            } {
                Some(
                    GFoundEvent {
                        event_id: (event_id->0->Num_0) as u32,
                        parent_event_id: parse_gopt_id(parent->0)->0,
                        depth: (depth->0->Num_0) as u32,
                        name: name->0->Str_0,
                        flags: flags->0->Num_0,
                        flags_names: parse_gstrs(flags_names->0->Arr_0)->0,
                        marker_path: parse_gstrs(marker_path->0->Arr_0)->0,
                        marker_path_joined: joined->0->Str_0,
                    },
                )
            } else {
                None
            }
        },
        _ => None,
    }
}

/// Reads the matches array.
pub open spec fn parse_gfounds(items: Seq<GJson>) -> Option<Seq<GFoundEvent>>
    decreases items.len(),
{
    if items.len() == 0 {
        Some(Seq::<GFoundEvent>::empty())
    } else {
        match (parse_gfound(items[0]), parse_gfounds(items.drop_first())) {
            (Some(f), Some(rest)) => Some(seq![f] + rest),
            _ => None,
        }
    }
}

/// Reads a find-events response from a document.
pub open spec fn parse_gfind(g: GJson) -> Option<GFindResponse> {
    match g {
        GJson::Obj(fields) => {
            let capture_path = glookup(fields, "capture_path"@);
            let total = glookup(fields, "total_matches"@);
            let truncated = glookup(fields, "truncated"@);
            let first = glookup(fields, "first_event_id"@);
            let last = glookup(fields, "last_event_id"@);
            let matches = glookup(fields, "matches"@);
            if {
                &&& capture_path matches Some(GJson::Str(_))
                &&& total matches Some(GJson::Num(_))
                &&& truncated matches Some(GJson::Bool(_))
                &&& first matches Some(f) && parse_gopt_id(f) is Some
                &&& last matches Some(l) && parse_gopt_id(l) is Some
                &&& matches matches Some(GJson::Arr(its)) && parse_gfounds(its) is Some
            } {
                Some(
                    GFindResponse {
                        capture_path: capture_path->0->Str_0,
                        total_matches: total->0->Num_0,
                        truncated: truncated->0->Bool_0,
                        first_event_id: parse_gopt_id(first->0)->0,
                        last_event_id: parse_gopt_id(last->0)->0,
                        matches: parse_gfounds(matches->0->Arr_0)->0,
                    },
                )
            } else {
                None
            }
        },
        _ => None,
    }
}

/// Reads a find-events envelope from a document, under the same rules
/// as the trigger envelope.
pub open spec fn parse_gfind_envelope(g: GJson) -> Option<GEnvelope<GFindResponse>> {
    match g {
        GJson::Obj(fields) => {
            match glookup(fields, "ok"@) {
                Some(GJson::Bool(ok)) => {
                    let result = match glookup(fields, "result"@) {
                        Some(GJson::Null) => Some(None::<GFindResponse>),
                        Some(rv) => match parse_gfind(rv) {
                            Some(r) => Some(Some(r)),
                            None => None,
                        },
                        None => Some(None::<GFindResponse>),
                    };
                    let error = match glookup(fields, "error"@) {
                        Some(GJson::Null) => Some(None::<Seq<char>>),
                        Some(GJson::Str(m)) => Some(Some(m)),
                        Some(_) => None,
                        None => Some(None::<Seq<char>>),
                    };
                    match (result, error) {
                        (Some(r), Some(m)) => Some(GEnvelope { ok: ok, result: r, error: m }),
                        _ => None,
                    }
                },
                _ => None,
            }
        },
        _ => None,
    }
}

proof fn lemma_gstrs_roundtrip(ss: Seq<Seq<char>>)
    ensures
        parse_gstrs(ss.map_values(|s: Seq<char>| GJson::Str(s))) == Some(ss),
    decreases ss.len(),
{
    let items = ss.map_values(|s: Seq<char>| GJson::Str(s));
    if ss.len() > 0 {
        assert(items[0] == GJson::Str(ss[0]));
        assert(items.drop_first() =~= ss.drop_first().map_values(|s: Seq<char>| GJson::Str(s)));
        lemma_gstrs_roundtrip(ss.drop_first());
        assert(seq![ss[0]] + ss.drop_first() =~= ss);
    } else {
        assert(items.len() == 0);
        assert(Seq::<Seq<char>>::empty() =~= ss);
    }
}

proof fn lemma_gfound_roundtrip(f: GFoundEvent)
    ensures
        parse_gfound(gfound_json(f)) == Some(f),
{
    reveal_strlit("event_id");
    reveal_strlit("parent_event_id");
    reveal_strlit("depth");
    reveal_strlit("name");
    reveal_strlit("flags");
    reveal_strlit("flags_names");
    reveal_strlit("marker_path");
    reveal_strlit("marker_path_joined");
    assert("event_id"@.len() == 8);
    assert("parent_event_id"@.len() == 15);
    assert("depth"@.len() == 5);
    assert("name"@.len() == 4);
    assert("flags"@.len() == 5);
    assert("flags_names"@.len() == 11);
    assert("marker_path"@.len() == 11);
    assert("marker_path_joined"@.len() == 18);
    assert("depth"@[0] == 'd' && "flags"@[0] == 'f');
    assert("flags_names"@[0] == 'f' && "marker_path"@[0] == 'm');
    let fs = gfound_json(f)->Obj_0;
    assert(fs.len() == 8);
    lemma_glookup_at(fs, 0);
    lemma_glookup_at(fs, 1);
    lemma_glookup_at(fs, 2);
    lemma_glookup_at(fs, 3);
    lemma_glookup_at(fs, 4);
    lemma_glookup_at(fs, 5);
    lemma_glookup_at(fs, 6);
    lemma_glookup_at(fs, 7);
    lemma_gstrs_roundtrip(f.flags_names);
    lemma_gstrs_roundtrip(f.marker_path);
}

proof fn lemma_gfounds_roundtrip(ms: Seq<GFoundEvent>)
    ensures
        parse_gfounds(ms.map_values(|f: GFoundEvent| gfound_json(f))) == Some(ms),
    decreases ms.len(),
{
    let items = ms.map_values(|f: GFoundEvent| gfound_json(f));
    if ms.len() > 0 {
        assert(items[0] == gfound_json(ms[0]));
        lemma_gfound_roundtrip(ms[0]);
        assert(items.drop_first() =~= ms.drop_first().map_values(
            |f: GFoundEvent| gfound_json(f),
        ));
        lemma_gfounds_roundtrip(ms.drop_first());
        assert(seq![ms[0]] + ms.drop_first() =~= ms);
    } else {
        assert(items.len() == 0);
        assert(Seq::<GFoundEvent>::empty() =~= ms);
    }
}

proof fn lemma_gfind_roundtrip(r: GFindResponse)
    ensures
        parse_gfind(gfind_json(r)) == Some(r),
{
    reveal_strlit("capture_path");
    reveal_strlit("total_matches");
    reveal_strlit("truncated");
    reveal_strlit("first_event_id");
    reveal_strlit("last_event_id");
    reveal_strlit("matches");
    assert("capture_path"@.len() == 12);
    assert("total_matches"@.len() == 13);
    assert("truncated"@.len() == 9);
    assert("first_event_id"@.len() == 14);
    assert("last_event_id"@.len() == 13);
    assert("matches"@.len() == 7);
    assert("total_matches"@[0] == 't' && "last_event_id"@[0] == 'l');
    let fs = gfind_json(r)->Obj_0;
    assert(fs.len() == 6);
    lemma_glookup_at(fs, 0);
    lemma_glookup_at(fs, 1);
    lemma_glookup_at(fs, 2);
    lemma_glookup_at(fs, 3);
    lemma_glookup_at(fs, 4);
    lemma_glookup_at(fs, 5);
    lemma_gfounds_roundtrip(r.matches);
}

/// A find-events envelope written as a document and read back
/// reproduces every field, each materialized match field for field.
pub proof fn lemma_find_envelope_roundtrip(e: GEnvelope<GFindResponse>)
    ensures
        parse_gfind_envelope(gfind_envelope_json(e)) == Some(e),
{
    reveal_strlit("ok");
    reveal_strlit("result");
    reveal_strlit("error");
    assert("ok"@.len() == 2);
    assert("result"@.len() == 6);
    assert("error"@.len() == 5);
    let fields = gfind_envelope_json(e)->Obj_0;
    lemma_glookup_3(fields);
    assert(glookup(fields, "ok"@) == Some(GJson::Bool(e.ok)));
    assert(glookup(fields, "result"@) == Some(fields[1].1));
    assert(glookup(fields, "error"@) == Some(fields[2].1));
    match e.result {
        Some(r) => {
            lemma_gfind_roundtrip(r);
        },
        None => {},
    }
}


/// Builds the document of one materialized match.
pub fn found_event_to_json(f: &FoundEvent) -> (v: JsonVal)
    ensures
        jview(v) == gfound_json(gfound_view(*f)),
{
    let mut fields: Vec<(String, JsonVal)> = Vec::new();
    fields.push((String::from_str("event_id"), JsonVal::Num(f.event_id as u64)));
    fields.push((String::from_str("parent_event_id"), match f.parent_event_id {
        Some(p) => JsonVal::Num(p as u64),
        None => JsonVal::Null,
    }));
    fields.push((String::from_str("depth"), JsonVal::Num(f.depth as u64)));
    fields.push((String::from_str("name"), JsonVal::Str(clone_string(&f.name))));
    fields.push((String::from_str("flags"), JsonVal::Num(f.flags)));
    fields.push((
        String::from_str("flags_names"),
        crate::workflows::export_actions::json_strings(&f.flags_names),
    ));
    fields.push((
        String::from_str("marker_path"),
        crate::workflows::export_actions::json_strings(&f.marker_path),
    ));
    fields.push((
        String::from_str("marker_path_joined"),
        JsonVal::Str(clone_string(&f.marker_path_joined)),
    ));
    let v = JsonVal::Obj(fields);
    proof {
        lemma_jview_fields_all(v->Obj_0@);
        assert(jview_fields(v->Obj_0@, 0) =~= gfound_json(gfound_view(*f))->Obj_0);
    }
    v
}

/// Builds the document of a find-events response.
pub fn find_response_to_json(r: &FindEventsResponse) -> (v: JsonVal)
    ensures
        jview(v) == gfind_json(gfind_view(*r)),
{
    let mut items: Vec<JsonVal> = Vec::new();
    let mut i: usize = 0;
    while i < r.matches.len()
        invariant
            0 <= i <= r.matches@.len(),
            items@.len() == i,
            forall|j: int|
                0 <= j < i ==> jview(#[trigger] items@[j]) == gfound_json(
                    gfound_view(r.matches@[j]),
                ),
        decreases r.matches@.len() - i,
    {
        items.push(found_event_to_json(&r.matches[i]));
        i += 1;
    }
    let mut fields: Vec<(String, JsonVal)> = Vec::new();
    fields.push((String::from_str("capture_path"), JsonVal::Str(clone_string(&r.capture_path))));
    fields.push((String::from_str("total_matches"), JsonVal::Num(r.total_matches)));
    fields.push((String::from_str("truncated"), JsonVal::Bool(r.truncated)));
    fields.push((String::from_str("first_event_id"), match r.first_event_id {
        Some(p) => JsonVal::Num(p as u64),
        None => JsonVal::Null,
    }));
    fields.push((String::from_str("last_event_id"), match r.last_event_id {
        Some(p) => JsonVal::Num(p as u64),
        None => JsonVal::Null,
    }));
    let ghost gitems = items@;
    fields.push((String::from_str("matches"), JsonVal::Arr(items)));
    let v = JsonVal::Obj(fields);
    proof {
        lemma_jview_fields_all(v->Obj_0@);
        crate::json::lemma_jview_items_len(gitems, 0);
        assert(crate::json::jview_items(gitems, 0) =~= gfind_view(*r).matches.map_values(
            |f: GFoundEvent| gfound_json(f),
        )) by {
            assert forall|j: int| 0 <= j < gitems.len() implies crate::json::jview_items(
                gitems,
                0,
            )[j] == gfound_json(gfind_view(*r).matches[j]) by {
                crate::json::lemma_jview_items_index(gitems, 0, j);
            }
        }
        assert(jview_fields(v->Obj_0@, 0) =~= gfind_json(gfind_view(*r))->Obj_0);
    }
    v
}

/// Builds the document of a find-events envelope.
pub fn find_envelope_to_json(e: &Envelope<FindEventsResponse>) -> (v: JsonVal)
    ensures
        jview(v) == gfind_envelope_json(genv_find_view(*e)),
{
    let result: JsonVal = match &e.result {
        Some(r) => find_response_to_json(r),
        None => JsonVal::Null,
    };
    let error: JsonVal = match &e.error {
        Some(m) => JsonVal::Str(clone_string(m)),
        None => JsonVal::Null,
    };
    let mut fields: Vec<(String, JsonVal)> = Vec::new();
    fields.push((String::from_str("ok"), JsonVal::Bool(e.ok)));
    fields.push((String::from_str("result"), result));
    fields.push((String::from_str("error"), error));
    let v = JsonVal::Obj(fields);
    proof {
        lemma_jview_fields_all(v->Obj_0@);
        assert(jview_fields(v->Obj_0@, 0) =~= gfind_envelope_json(genv_find_view(*e))->Obj_0);
    }
    v
}


proof fn lemma_parse_gstrs_split(items: Seq<GJson>, i: int)
    requires
        0 <= i <= items.len(),
        forall|j: int| 0 <= j < i ==> (#[trigger] items[j]) is Str,
    ensures
        parse_gstrs(items) == (match parse_gstrs(items.skip(i)) {
            Some(rest) => Some(Seq::new(i as nat, |j: int| items[j]->Str_0) + rest),
            None => None::<Seq<Seq<char>>>,
        }),
    decreases items.len() - i,
{
    if i == items.len() {
        assert(items.skip(i).len() == 0);
        match parse_gstrs(items) {
            Some(all) => {
                lemma_parse_gstrs_values(items, all);
                assert(Seq::new(i as nat, |j: int| items[j]->Str_0) + Seq::<Seq<char>>::empty()
                    =~= all);
            },
            None => {
                lemma_parse_gstrs_total(items);
            },
        }
    } else {
        if items[i] is Str {
            lemma_parse_gstrs_split(items, i + 1);
            assert(items.skip(i)[0] == items[i]);
            assert(items.skip(i).drop_first() =~= items.skip(i + 1));
            match parse_gstrs(items.skip(i + 1)) {
                Some(rest) => {
                    assert(parse_gstrs(items.skip(i)) == Some(seq![items[i]->Str_0] + rest));
                    assert(Seq::new(i as nat, |j: int| items[j]->Str_0) + (seq![items[i]->Str_0]
                        + rest) =~= Seq::new((i + 1) as nat, |j: int| items[j]->Str_0) + rest);
                },
                None => {
                    assert(parse_gstrs(items.skip(i)) is None);
                },
            }
        } else {
            assert(items.skip(i)[0] == items[i]);
            assert(parse_gstrs(items.skip(i)) is None);
            lemma_parse_gstrs_not_str(items, i);
        }
    }
}

proof fn lemma_parse_gstrs_total(items: Seq<GJson>)
    requires
        forall|j: int| 0 <= j < items.len() ==> (#[trigger] items[j]) is Str,
    ensures
        parse_gstrs(items) is Some,
    decreases items.len(),
{
    if items.len() > 0 {
        assert(forall|j: int|
            0 <= j < items.drop_first().len() ==> (#[trigger] items.drop_first()[j]) is Str);
        lemma_parse_gstrs_total(items.drop_first());
    }
}

proof fn lemma_parse_gstrs_values(items: Seq<GJson>, all: Seq<Seq<char>>)
    requires
        parse_gstrs(items) == Some(all),
    ensures
        all.len() == items.len(),
        forall|j: int| 0 <= j < items.len() ==> (#[trigger] items[j]) is Str,
        forall|j: int| 0 <= j < items.len() ==> all[j] == (#[trigger] items[j])->Str_0,
    decreases items.len(),
{
    if items.len() > 0 {
        let rest = parse_gstrs(items.drop_first())->0;
        lemma_parse_gstrs_values(items.drop_first(), rest);
        assert forall|j: int| 0 <= j < items.len() implies (#[trigger] items[j]) is Str by {
            if j > 0 {
                assert(items.drop_first()[j - 1] is Str);
            }
        }
        assert forall|j: int| 0 <= j < items.len() implies all[j] == (
        #[trigger] items[j])->Str_0 by {
            if j > 0 {
                assert(all[j] == rest[j - 1]);
                assert(items.drop_first()[j - 1] == items[j]);
            }
        }
    }
}

proof fn lemma_parse_gstrs_not_str(items: Seq<GJson>, i: int)
    requires
        0 <= i < items.len(),
        !(items[i] is Str),
    ensures
        parse_gstrs(items) is None,
    decreases i,
{
    if items.len() > 0 && items[0] is Str && i > 0 {
        assert(items.drop_first()[i - 1] == items[i]);
        lemma_parse_gstrs_not_str(items.drop_first(), i - 1);
    }
}

/// Reads a string array from a document's items.
fn strings_of_json(items: &Vec<JsonVal>) -> (r: Option<Vec<String>>)
    ensures
        match parse_gstrs(crate::json::jview_items(items@, 0)) {
            Some(ss) => r matches Some(v) && v.deep_view() == ss,
            None => r is None,
        },
{
    let ghost gitems = crate::json::jview_items(items@, 0);
    proof {
        crate::json::lemma_jview_items_len(items@, 0);
        assert forall|j: int| 0 <= j < items@.len() implies #[trigger] gitems[j] == jview(
            items@[j],
        ) by {
            crate::json::lemma_jview_items_index(items@, 0, j);
        }
    }
    let mut out: Vec<String> = Vec::new();
    let mut i: usize = 0;
    while i < items.len()
        invariant
            0 <= i <= items@.len(),
            gitems == crate::json::jview_items(items@, 0),
            gitems.len() == items@.len(),
            forall|j: int| 0 <= j < items@.len() ==> #[trigger] gitems[j] == jview(items@[j]),
            out@.len() == i,
            forall|j: int| 0 <= j < i ==> (#[trigger] gitems[j]) is Str,
            forall|j: int| 0 <= j < i ==> out@[j]@ == (#[trigger] gitems[j])->Str_0,
        decreases items@.len() - i,
    {
        match &items[i] {
            JsonVal::Str(m) => {
                out.push(clone_string(m));
            },
            _ => {
                proof {
                    lemma_parse_gstrs_not_str(gitems, i as int);
                }
                return None;
            },
        }
        i += 1;
    }
    proof {
        lemma_parse_gstrs_split(gitems, gitems.len() as int);
        assert(parse_gstrs(gitems) == Some(Seq::new(gitems.len(), |j: int| gitems[j]->Str_0)));
        assert(out.deep_view() =~= Seq::new(gitems.len(), |j: int| gitems[j]->Str_0));
    }
    Some(out)
}

/// Reads an optional id from a document.
fn opt_id_of_json(v: &JsonVal) -> (r: Option<Option<u32>>)
    ensures
        r == parse_gopt_id(jview(*v)),
{
    match v {
        JsonVal::Null => Some(None),
        JsonVal::Num(n) => {
            if *n <= u32::MAX as u64 {
                Some(Some(*n as u32))
            } else {
                None
            }
        },
        _ => None,
    }
}

/// Reads one materialized match from a document.
pub fn found_event_of_json(v: &JsonVal) -> (r: Option<FoundEvent>)
    ensures
        match parse_gfound(jview(*v)) {
            Some(g) => r matches Some(f) && gfound_view(f) == g,
            None => r is None,
        },
{
    let fields = match v {
        JsonVal::Obj(fields) => fields,
        _ => {
            return None;
        },
    };
    let event_id = match obj_get(fields, "event_id") {
        Some(JsonVal::Num(n)) => {
            if *n <= u32::MAX as u64 {
                *n as u32
            } else {
                return None;
            }
        },
        _ => {
            return None;
        },
    };
    let parent_event_id: Option<u32> = match obj_get(fields, "parent_event_id") {
        Some(p) => match opt_id_of_json(p) {
            Some(x) => x,
            None => {
                return None;
            },
        },
        None => {
            return None;
        },
    };
    let depth = match obj_get(fields, "depth") {
        Some(JsonVal::Num(n)) => {
            if *n <= u32::MAX as u64 {
                *n as u32
            } else {
                return None;
            }
        },
        _ => {
            return None;
        },
    };
    let name = match obj_get(fields, "name") {
        Some(JsonVal::Str(s)) => clone_string(s),
        _ => {
            return None;
        },
    };
    let flags = match obj_get(fields, "flags") {
        Some(JsonVal::Num(n)) => *n,
        _ => {
            return None;
        },
    };
    let flags_names = match obj_get(fields, "flags_names") {
        Some(JsonVal::Arr(items)) => match strings_of_json(items) {
            Some(v) => v,
            None => {
                return None;
            },
        },
        _ => {
            return None;
        },
    };
    let marker_path = match obj_get(fields, "marker_path") {
        Some(JsonVal::Arr(items)) => match strings_of_json(items) {
            Some(v) => v,
            None => {
                return None;
            },
        },
        _ => {
            return None;
        },
    };
    let marker_path_joined = match obj_get(fields, "marker_path_joined") {
        Some(JsonVal::Str(s)) => clone_string(s),
        _ => {
            return None;
        },
    };
    Some(
        FoundEvent {
            event_id,
            parent_event_id,
            depth,
            name,
            flags,
            flags_names,
            marker_path,
            marker_path_joined,
        },
    )
}

proof fn lemma_parse_gfounds_split(items: Seq<GJson>, i: int)
    requires
        0 <= i <= items.len(),
        forall|j: int| 0 <= j < i ==> parse_gfound(#[trigger] items[j]) is Some,
    ensures
        parse_gfounds(items) == (match parse_gfounds(items.skip(i)) {
            Some(rest) => Some(
                Seq::new(i as nat, |j: int| parse_gfound(items[j])->0) + rest,
            ),
            None => None::<Seq<GFoundEvent>>,
        }),
    decreases items.len() - i,
{
    if i == items.len() {
        assert(items.skip(i).len() == 0);
        match parse_gfounds(items) {
            Some(all) => {
                lemma_parse_gfounds_values(items, all);
                assert(Seq::new(i as nat, |j: int| parse_gfound(items[j])->0)
                    + Seq::<GFoundEvent>::empty() =~= all);
            },
            None => {
                lemma_parse_gfounds_total(items);
            },
        }
    } else {
        if parse_gfound(items[i]) is Some {
            lemma_parse_gfounds_split(items, i + 1);
            assert(items.skip(i)[0] == items[i]);
            assert(items.skip(i).drop_first() =~= items.skip(i + 1));
            match parse_gfounds(items.skip(i + 1)) {
                Some(rest) => {
                    assert(parse_gfounds(items.skip(i)) == Some(
                        seq![parse_gfound(items[i])->0] + rest,
                    ));
                    assert(Seq::new(i as nat, |j: int| parse_gfound(items[j])->0) + (seq![
                        parse_gfound(items[i])->0,
                    ] + rest) =~= Seq::new((i + 1) as nat, |j: int| parse_gfound(items[j])->0)
                        + rest);
                },
                None => {
                    assert(parse_gfounds(items.skip(i)) is None);
                },
            }
        } else {
            assert(items.skip(i)[0] == items[i]);
            assert(parse_gfounds(items.skip(i)) is None);
            lemma_parse_gfounds_not_found(items, i);
        }
    }
}

proof fn lemma_parse_gfounds_total(items: Seq<GJson>)
    requires
        forall|j: int| 0 <= j < items.len() ==> parse_gfound(#[trigger] items[j]) is Some,
    ensures
        parse_gfounds(items) is Some,
    decreases items.len(),
{
    if items.len() > 0 {
        assert(forall|j: int|
            0 <= j < items.drop_first().len() ==> parse_gfound(
                #[trigger] items.drop_first()[j],
            ) is Some);
        lemma_parse_gfounds_total(items.drop_first());
    }
}

proof fn lemma_parse_gfounds_values(items: Seq<GJson>, all: Seq<GFoundEvent>)
    requires
        parse_gfounds(items) == Some(all),
    ensures
        all.len() == items.len(),
        forall|j: int| 0 <= j < items.len() ==> parse_gfound(#[trigger] items[j]) is Some,
        forall|j: int|
            0 <= j < items.len() ==> all[j] == parse_gfound(#[trigger] items[j])->0,
    decreases items.len(),
{
    if items.len() > 0 {
        let rest = parse_gfounds(items.drop_first())->0;
        lemma_parse_gfounds_values(items.drop_first(), rest);
        assert forall|j: int|
            0 <= j < items.len() implies parse_gfound(#[trigger] items[j]) is Some by {
            if j > 0 {
                assert(parse_gfound(items.drop_first()[j - 1]) is Some);
            }
        }
        assert forall|j: int| 0 <= j < items.len() implies all[j] == parse_gfound(
            #[trigger] items[j],
        )->0 by {
            if j > 0 {
                assert(all[j] == rest[j - 1]);
                assert(items.drop_first()[j - 1] == items[j]);
            }
        }
    }
}

proof fn lemma_parse_gfounds_not_found(items: Seq<GJson>, i: int)
    requires
        0 <= i < items.len(),
        parse_gfound(items[i]) is None,
    ensures
        parse_gfounds(items) is None,
    decreases i,
{
    if items.len() > 0 && parse_gfound(items[0]) is Some && i > 0 {
        assert(items.drop_first()[i - 1] == items[i]);
        lemma_parse_gfounds_not_found(items.drop_first(), i - 1);
    }
}

/// Reads a find-events response from a document.
#[verifier::loop_isolation(false)]
pub fn find_response_of_json(v: &JsonVal) -> (r: Option<FindEventsResponse>)
    ensures
        match parse_gfind(jview(*v)) {
            Some(g) => r matches Some(t) && gfind_view(t) == g,
            None => r is None,
        },
{
    let fields = match v {
        JsonVal::Obj(fields) => fields,
        _ => {
            return None;
        },
    };
    let capture_path = match obj_get(fields, "capture_path") {
        Some(JsonVal::Str(s)) => clone_string(s),
        _ => {
            return None;
        },
    };
    let total_matches = match obj_get(fields, "total_matches") {
        Some(JsonVal::Num(n)) => *n,
        _ => {
            return None;
        },
    };
    let truncated = match obj_get(fields, "truncated") {
        Some(JsonVal::Bool(b)) => *b,
        _ => {
            return None;
        },
    };
    let first_event_id: Option<u32> = match obj_get(fields, "first_event_id") {
        Some(p) => match opt_id_of_json(p) {
            Some(x) => x,
            None => {
                return None;
            },
        },
        None => {
            return None;
        },
    };
    let last_event_id: Option<u32> = match obj_get(fields, "last_event_id") {
        Some(p) => match opt_id_of_json(p) {
            Some(x) => x,
            None => {
                return None;
            },
        },
        None => {
            return None;
        },
    };
    let items = match obj_get(fields, "matches") {
        Some(JsonVal::Arr(items)) => items,
        _ => {
            return None;
        },
    };
    let ghost gitems = crate::json::jview_items(items@, 0);
    proof {
        crate::json::lemma_jview_items_len(items@, 0);
        assert forall|j: int| 0 <= j < items@.len() implies #[trigger] gitems[j] == jview(
            items@[j],
        ) by {
            crate::json::lemma_jview_items_index(items@, 0, j);
        }
    }
    let mut matches: Vec<FoundEvent> = Vec::new();
    let mut i: usize = 0;
    while i < items.len()
        invariant
            0 <= i <= items@.len(),
            gitems == crate::json::jview_items(items@, 0),
            gitems.len() == items@.len(),
            forall|j: int| 0 <= j < items@.len() ==> #[trigger] gitems[j] == jview(items@[j]),
            matches@.len() == i,
            forall|j: int| 0 <= j < i ==> parse_gfound(#[trigger] gitems[j]) is Some,
            forall|j: int|
                0 <= j < i ==> gfound_view(#[trigger] matches@[j]) == parse_gfound(gitems[j])->0,
        decreases items@.len() - i,
    {
        match found_event_of_json(&items[i]) {
            Some(f) => {
                matches.push(f);
            },
            None => {
                proof {
                    lemma_parse_gfounds_not_found(gitems, i as int);
                }
                return None;
            },
        }
        i += 1;
    }
    proof {
        lemma_parse_gfounds_split(gitems, gitems.len() as int);
        assert(parse_gfounds(gitems) == Some(
            Seq::new(gitems.len(), |j: int| parse_gfound(gitems[j])->0),
        ));
    }
    let out = FindEventsResponse {
        capture_path,
        total_matches,
        truncated,
        first_event_id,
        last_event_id,
        matches,
    };
    proof {
        assert(gfind_view(out).matches =~= parse_gfounds(gitems)->0);
    }
    Some(out)
}

/// Reads a find-events envelope from a document.
pub fn find_envelope_of_json(v: &JsonVal) -> (r: Option<Envelope<FindEventsResponse>>)
    ensures
        match parse_gfind_envelope(jview(*v)) {
            Some(g) => r matches Some(e) && genv_find_view(e) == g,
            None => r is None,
        },
{
    let fields = match v {
        JsonVal::Obj(fields) => fields,
        _ => {
            return None;
        },
    };
    let ok = match obj_get(fields, "ok") {
        Some(JsonVal::Bool(b)) => *b,
        _ => {
            return None;
        },
    };
    let result: Option<FindEventsResponse> = match obj_get(fields, "result") {
        Some(JsonVal::Null) => None,
        Some(rv) => {
            match find_response_of_json(rv) {
                Some(t) => Some(t),
                None => {
                    return None;
                },
            }
        },
        None => None,
    };
    let error: Option<String> = match obj_get(fields, "error") {
        Some(JsonVal::Null) => None,
        Some(JsonVal::Str(m)) => Some(clone_string(m)),
        Some(_) => {
            return None;
        },
        None => None,
    };
    Some(Envelope { ok, result, error })
}

} // verus!




