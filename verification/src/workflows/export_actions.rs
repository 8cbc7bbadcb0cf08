//! The export variant of the traversal: every match becomes one JSON
//! line, and a summary document carries the aggregate totals.  The
//! caller writes the lines and the summary to the two output paths the
//! response names.
use vstd::prelude::*;

use crate::actions::ActionNode;
use crate::actions::ActionRec;
use crate::actions::ActionRecord;
use crate::actions::FilterV;
use crate::actions::QueryFilter;
use crate::actions::all_recs;
use crate::actions::clone_string;
use crate::actions::collect_records;
use crate::actions::emitted_recs;
use crate::actions::filter_records;
use crate::actions::filter_view;
use crate::actions::record_view;
use crate::actions::wf_forest;
use crate::flags::flag_names;
use crate::flags::is_drawcall_like;
use crate::flags::spec_flag_names;
use crate::flags::spec_is_drawcall_like;
use crate::json::GJson;
use crate::json::JsonVal;
use crate::json::grender;
use crate::json::jview;
use crate::json::jview_fields;
use crate::json::jview_items;
use crate::json::lemma_jview_fields_len;
use crate::json::lemma_jview_items_index;
use crate::json::lemma_jview_items_len;
use crate::json::render_json;
use crate::text::chars_of_str;
use crate::text::chars_of_string;
use crate::text::string_of_chars;
use crate::workflows::ExportActionsRequest;
use crate::workflows::ExportActionsResponse;
use crate::workflows::clone_opt_string;

verus! {

/// The filter an export request asks for.
pub open spec fn export_filter(req: ExportActionsRequest) -> FilterV {
    FilterV {
        only_drawcalls: req.only_drawcalls,
        marker_prefix: match req.marker_prefix {
            Some(s) => Some(s@),
            None => None,
        },
        event_id_min: req.event_id_min,
        event_id_max: req.event_id_max,
        name_contains: match req.name_contains {
            Some(s) => Some(s@),
            None => None,
        },
        marker_contains: match req.marker_contains {
            Some(s) => Some(s@),
            None => None,
        },
        case_sensitive: req.case_sensitive,
    }
}

/// The JSON document of one exported record.
pub open spec fn grec_json(r: ActionRec) -> GJson {
    GJson::Obj(
        seq![
            ("event_id"@, GJson::Num(r.event_id as u64)),
            (
                "parent_event_id"@,
                match r.parent_event_id {
                    Some(p) => GJson::Num(p as u64),
                    None => GJson::Null,
                },
            ),
            ("depth"@, GJson::Num(r.depth as u64)),
            ("name"@, GJson::Str(r.name)),
            ("flags"@, GJson::Num(r.flags)),
            ("flags_names"@, GJson::Arr(spec_flag_names(r.flags).map_values(|s| GJson::Str(s)))),
            ("marker_path"@, GJson::Arr(r.marker_path.map_values(|s| GJson::Str(s)))),
            ("num_children"@, GJson::Num(r.num_children as u64)),
        ],
    )
}

/// The summary document of one export.
pub open spec fn gsummary_json(
    capture_path: Seq<char>,
    api: Seq<char>,
    total_actions: u64,
    drawcall_actions: u64,
    actions_jsonl_path: Seq<char>,
) -> GJson {
    GJson::Obj(
        seq![
            ("capture_path"@, GJson::Str(capture_path)),
            ("api"@, GJson::Str(api)),
            ("total_actions"@, GJson::Num(total_actions)),
            ("drawcall_actions"@, GJson::Num(drawcall_actions)),
            ("actions_jsonl_path"@, GJson::Str(actions_jsonl_path)),
        ],
    )
}

/// A JSON array of strings.
pub fn json_strings(v: &Vec<String>) -> (r: JsonVal)
    ensures
        jview(r) == GJson::Arr(v.deep_view().map_values(|s: Seq<char>| GJson::Str(s))),
{
    let mut items: Vec<JsonVal> = Vec::new();
    let mut i: usize = 0;
    while i < v.len()
        invariant
            0 <= i <= v@.len(),
            items@.len() == i,
            forall|j: int| 0 <= j < i ==> (#[trigger] items@[j] matches JsonVal::Str(s) && s@ == v@[j]@),
        decreases v@.len() - i,
    {
        items.push(JsonVal::Str(clone_string(&v[i])));
        i += 1;
    }
    let r = JsonVal::Arr(items);
    proof {
        lemma_jview_items_len(r->Arr_0@, 0);
        assert(jview_items(r->Arr_0@, 0) =~= v.deep_view().map_values(
            |s: Seq<char>| GJson::Str(s),
        )) by {
            assert forall|j: int| 0 <= j < v@.len() implies jview_items(r->Arr_0@, 0)[j]
                == GJson::Str(v@[j]@) by {
                lemma_jview_items_index(r->Arr_0@, 0, j);
            }
        }
    }
    r
}

proof fn lemma_jview_fields_unfold_all(fs: Seq<(String, JsonVal)>)
    requires
        fs.len() <= 8,
    ensures
        jview_fields(fs, 0) =~= Seq::new(fs.len(), |j: int| (fs[j].0@, jview(fs[j].1))),
{
    lemma_jview_fields_len(fs, 0);
    assert forall|j: int| 0 <= j < fs.len() implies jview_fields(fs, 0)[j] == (
        fs[j].0@,
        jview(fs[j].1),
    ) by {
        crate::json::lemma_jview_fields_index(fs, 0, j);
    }
}

/// The JSON line of one record.
pub fn record_json(rec: &ActionRecord) -> (r: JsonVal)
    ensures
        jview(r) == grec_json(record_view(*rec)),
{
    let mut fields: Vec<(String, JsonVal)> = Vec::new();
    fields.push((String::from_str("event_id"), JsonVal::Num(rec.event_id as u64)));
    fields.push(
        (
            String::from_str("parent_event_id"),
            match rec.parent_event_id {
                Some(p) => JsonVal::Num(p as u64),
                None => JsonVal::Null,
            },
        ),
    );
    fields.push((String::from_str("depth"), JsonVal::Num(rec.depth as u64)));
    fields.push((String::from_str("name"), JsonVal::Str(clone_string(&rec.name))));
    fields.push((String::from_str("flags"), JsonVal::Num(rec.flags)));
    fields.push((String::from_str("flags_names"), json_strings(&flag_names(rec.flags))));
    fields.push((String::from_str("marker_path"), json_strings(&rec.marker_path)));
    fields.push((String::from_str("num_children"), JsonVal::Num(rec.num_children as u64)));
    let r = JsonVal::Obj(fields);
    proof {
        lemma_jview_fields_unfold_all(r->Obj_0@);
        assert(jview(r) == GJson::Obj(jview_fields(r->Obj_0@, 0)));
        assert(jview_fields(r->Obj_0@, 0) =~= grec_json(record_view(*rec))->Obj_0);
    }
    r
}

/// `dir/base<suffix>`: the path of one output file.
pub fn output_path(dir: &String, base: &String, suffix: &str) -> (r: String)
    ensures
        r@ == dir@ + seq!['/'] + base@ + suffix@,
{
    let mut out = chars_of_string(dir);
    out.push('/');
    let b = chars_of_string(base);
    let mut i: usize = 0;
    while i < b.len()
        invariant
            0 <= i <= b@.len(),
            out@ == dir@ + seq!['/'] + b@.take(i as int),
        decreases b@.len() - i,
    {
        out.push(b[i]);
        i += 1;
        proof {
            assert(dir@ + seq!['/'] + b@.take(i as int) =~= (dir@ + seq!['/'] + b@.take(
                i as int - 1,
            )).push(b@[i as int - 1]));
        }
    }
    proof {
        assert(b@.take(b@.len() as int) =~= b@);
    }
    let sfx = chars_of_str(suffix);
    let ghost base1 = dir@ + seq!['/'] + base@;
    let mut i: usize = 0;
    while i < sfx.len()
        invariant
            0 <= i <= sfx@.len(),
            out@ == base1 + sfx@.take(i as int),
        decreases sfx@.len() - i,
    {
        out.push(sfx[i]);
        i += 1;
        proof {
            assert(base1 + sfx@.take(i as int) =~= (base1 + sfx@.take(i as int - 1)).push(
                sfx@[i as int - 1],
            ));
        }
    }
    proof {
        assert(sfx@.take(sfx@.len() as int) =~= sfx@);
    }
    string_of_chars(&out)
}

/// Everything one export produces: the JSONL lines, the summary
/// document's text, and the response describing them.
pub struct ExportActionsArtifacts {
    pub lines: Vec<String>,
    pub summary_json: String,
    pub response: ExportActionsResponse,
}

/// What an export promises: one rendered line per emitted record in
/// traversal order, totals over the whole trace, and the two output
/// paths derived from the request.
pub open spec fn export_actions_post(
    req: ExportActionsRequest,
    ns: Seq<ActionNode>,
    api: Seq<char>,
    out: ExportActionsArtifacts,
) -> bool {
    let em = emitted_recs(export_filter(req), ns);
    let jsonl_path = req.output_dir@ + seq!['/'] + req.basename@ + ".actions.jsonl"@;
    &&& out.lines@.len() == em.len()
    &&& forall|i: int|
        0 <= i < em.len() ==> (#[trigger] out.lines@[i])@ == grender(grec_json(em[i]))
    &&& out.response.total_actions == all_recs(ns).len()
    &&& out.response.drawcall_actions == all_recs(ns).filter(
        |r: ActionRec| spec_is_drawcall_like(r.flags),
    ).len()
    &&& out.response.capture_path@ == req.capture_path@
    &&& out.response.actions_jsonl_path@ == jsonl_path
    &&& out.response.summary_json_path@ == req.output_dir@ + seq!['/'] + req.basename@
        + ".summary.json"@
    &&& out.summary_json@ == grender(
        gsummary_json(
            req.capture_path@,
            api,
            out.response.total_actions,
            out.response.drawcall_actions,
            jsonl_path,
        ),
    )
}

/// Runs the export traversal.  `api` names the detected graphics API of
/// the opened capture and is echoed into the summary.
pub fn export_actions_jsonl(
    nodes: &Vec<ActionNode>,
    req: &ExportActionsRequest,
    api: &String,
) -> (out: ExportActionsArtifacts)
    requires
        wf_forest(nodes@, 0, 0),
        all_recs(nodes@).len() <= u64::MAX,
    ensures
        export_actions_post(*req, nodes@, api@, out),
{
    let filter = QueryFilter {
        only_drawcalls: req.only_drawcalls,
        marker_prefix: clone_opt_string(&req.marker_prefix),
        event_id_min: req.event_id_min,
        event_id_max: req.event_id_max,
        name_contains: clone_opt_string(&req.name_contains),
        marker_contains: clone_opt_string(&req.marker_contains),
        case_sensitive: req.case_sensitive,
    };
    proof {
        assert(filter_view(filter) == export_filter(*req));
    }
    let recs = collect_records(nodes);
    let matched = filter_records(&filter, &recs);
    let ghost em = emitted_recs(export_filter(*req), nodes@);
    proof {
        assert(matched@.map_values(|r: ActionRecord| record_view(r)) == em);
    }
    let mut lines: Vec<String> = Vec::new();
    let mut i: usize = 0;
    while i < matched.len()
        invariant
            0 <= i <= matched@.len(),
            em == matched@.map_values(|r: ActionRecord| record_view(r)),
            lines@.len() == i,
            forall|j: int|
                0 <= j < i ==> (#[trigger] lines@[j])@ == grender(grec_json(em[j])),
        decreases matched@.len() - i,
    {
        let v = record_json(&matched[i]);
        proof {
            assert(record_view(matched@[i as int]) == em[i as int]);
        }
        lines.push(render_json(&v));
        i += 1;
    }
    let total: usize = recs.len();
    let mut drawcalls: usize = 0;
    let ghost dpred = |r: ActionRec| spec_is_drawcall_like(r.flags);
    proof {
        vstd::seq::Seq::<ActionRec>::empty().lemma_filter_len(dpred);
        assert(recs@.take(0).map_values(|r: ActionRecord| record_view(r))
            =~= Seq::<ActionRec>::empty());
        reveal(Seq::filter);
    }
    let mut i: usize = 0;
    while i < recs.len()
        invariant
            0 <= i <= recs@.len(),
            dpred == (|r: ActionRec| spec_is_drawcall_like(r.flags)),
            drawcalls == recs@.take(i as int).map_values(
                |r: ActionRecord| record_view(r),
            ).filter(dpred).len(),
            drawcalls <= i,
        decreases recs@.len() - i,
    {
        let ghost prefix = recs@.take(i as int).map_values(|r: ActionRecord| record_view(r));
        if is_drawcall_like(recs[i].flags) {
            drawcalls += 1;
        }
        i += 1;
        proof {
            let x = record_view(recs@[i - 1]);
            assert(recs@.take(i as int).map_values(|r: ActionRecord| record_view(r))
                =~= prefix.push(x));
            crate::actions::lemma_filter_push(prefix, x, dpred);
        }
    }
    proof {
        assert(recs@.take(recs@.len() as int) =~= recs@);
        assert(recs@.map_values(|r: ActionRecord| record_view(r)) == all_recs(nodes@));
    }
    let jsonl_path = output_path(&req.output_dir, &req.basename, ".actions.jsonl");
    let summary_path = output_path(&req.output_dir, &req.basename, ".summary.json");
    let total64: u64 = total as u64;
    let drawcalls64: u64 = drawcalls as u64;
    let mut sfields: Vec<(String, JsonVal)> = Vec::new();
    sfields.push((String::from_str("capture_path"), JsonVal::Str(clone_string(&req.capture_path))));
    sfields.push((String::from_str("api"), JsonVal::Str(clone_string(api))));
    sfields.push((String::from_str("total_actions"), JsonVal::Num(total64)));
    sfields.push((String::from_str("drawcall_actions"), JsonVal::Num(drawcalls64)));
    sfields.push((String::from_str("actions_jsonl_path"), JsonVal::Str(clone_string(&jsonl_path))));
    let sdoc = JsonVal::Obj(sfields);
    proof {
        lemma_jview_fields_unfold_all(sdoc->Obj_0@);
        assert(jview_fields(sdoc->Obj_0@, 0) =~= gsummary_json(
            req.capture_path@,
            api@,
            total64,
            drawcalls64,
            jsonl_path@,
        )->Obj_0);
    }
    let summary_json = render_json(&sdoc);
    ExportActionsArtifacts {
        lines,
        summary_json,
        response: ExportActionsResponse {
            capture_path: clone_string(&req.capture_path),
            actions_jsonl_path: jsonl_path,
            summary_json_path: summary_path,
            total_actions: total64,
            drawcall_actions: drawcalls64,
        },
    }
}

} // verus!
