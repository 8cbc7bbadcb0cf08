//! The find-events query: scan the whole trace, materialize at most
//! `max_results` matches, and report the true totals and id span.
use vstd::prelude::*;

use crate::actions::ActionNode;
use crate::actions::ActionRec;
use crate::actions::ActionRecord;
use crate::actions::FilterV;
use crate::actions::QueryFilter;
use crate::actions::clone_string;
use crate::actions::clone_string_vec;
use crate::actions::collect_records;
use crate::actions::emitted_recs;
use crate::actions::filter_records;
use crate::actions::filter_view;
use crate::actions::record_view;
use crate::actions::wf_forest;
use crate::actions::all_recs;
use crate::actions::ids_increasing;
use crate::actions::lemma_first_last_ordered;
use crate::actions::lemma_marker_prefix_monotone;
use crate::actions::lemma_only_drawcalls_monotone;
use crate::flags::flag_names;
use crate::flags::spec_flag_names;
use crate::text::join_path;
use crate::text::spec_join;
use crate::text::string_of_chars;
use crate::workflows::FindEventsRequest;
use crate::workflows::FindEventsResponse;
use crate::workflows::FoundEvent;
use crate::workflows::clone_opt_string;

verus! {

/// The filter a find-events request asks for.
pub open spec fn request_filter(req: FindEventsRequest) -> FilterV {
    FilterV {
        only_drawcalls: req.only_drawcalls,
        marker_prefix: match req.marker_prefix {
            Some(s) => Some(s@),
            None => None,
        },
        event_id_min: req.event_id_min,
        event_id_max: req.event_id_max,
        name_contains: match req.name_contains {
            Some(s) => Some(s@),
            None => None,
        },
        marker_contains: match req.marker_contains {
            Some(s) => Some(s@),
            None => None,
        },
        case_sensitive: req.case_sensitive,
    }
}

/// A materialized match reproduces one emitted record field for field,
/// with the decoded flag names and the joined marker path derived from it.
pub open spec fn found_event_matches(fe: FoundEvent, r: ActionRec) -> bool {
    &&& fe.event_id == r.event_id
    &&& fe.parent_event_id == r.parent_event_id
    &&& fe.depth as nat == r.depth
    &&& fe.name@ == r.name
    &&& fe.flags == r.flags
    &&& fe.flags_names.deep_view() == spec_flag_names(r.flags)
    &&& fe.marker_path.deep_view() == r.marker_path
    &&& fe.marker_path_joined@ == spec_join(r.marker_path)
}

/// What a find-events response promises about the trace it scanned.
pub open spec fn find_events_post(
    req: FindEventsRequest,
    ns: Seq<ActionNode>,
    r: FindEventsResponse,
) -> bool {
    let em = emitted_recs(request_filter(req), ns);
    &&& r.capture_path@ == req.capture_path@
    &&& r.total_matches == em.len()
    &&& r.matches@.len() == (match req.max_results {
        Some(k) => if em.len() <= k as nat {
            em.len()
        } else {
            k as nat
        },
        None => em.len(),
    })
    &&& forall|i: int|
        0 <= i < r.matches@.len() ==> found_event_matches(#[trigger] r.matches@[i], em[i])
    &&& r.truncated == (r.matches@.len() < em.len())
    &&& (req.max_results is None ==> !r.truncated)
    &&& r.first_event_id == (if em.len() == 0 {
        None::<u32>
    } else {
        Some(em[0].event_id)
    })
    &&& r.last_event_id == (if em.len() == 0 {
        None::<u32>
    } else {
        Some(em.last().event_id)
    })
}

fn found_event_of(rec: &ActionRecord) -> (fe: FoundEvent)
    ensures
        found_event_matches(fe, record_view(*rec)),
{
    let joined = join_path(&rec.marker_path);
    FoundEvent {
        event_id: rec.event_id,
        parent_event_id: rec.parent_event_id,
        depth: rec.depth,
        name: clone_string(&rec.name),
        flags: rec.flags,
        flags_names: flag_names(rec.flags),
        marker_path: clone_string_vec(&rec.marker_path),
        marker_path_joined: string_of_chars(&joined),
    }
}

/// Scans the whole trace under the request's filter.  Every match is
/// counted and the id span reflects all of them; at most `max_results`
/// matches are materialized, and `truncated` says whether any were left
/// out.  With no cap the response is never truncated.
pub fn find_events(nodes: &Vec<ActionNode>, req: &FindEventsRequest) -> (r: FindEventsResponse)
    requires
        wf_forest(nodes@, 0, 0),
    ensures
        find_events_post(*req, nodes@, r),
{
    let filter = QueryFilter {
        only_drawcalls: req.only_drawcalls,
        marker_prefix: clone_opt_string(&req.marker_prefix),
        event_id_min: req.event_id_min,
        event_id_max: req.event_id_max,
        name_contains: clone_opt_string(&req.name_contains),
        marker_contains: clone_opt_string(&req.marker_contains),
        case_sensitive: req.case_sensitive,
    };
    proof {
        assert(filter_view(filter) == request_filter(*req));
    }
    let recs = collect_records(nodes);
    let matched = filter_records(&filter, &recs);
    let ghost em = emitted_recs(request_filter(*req), nodes@);
    proof {
        assert(matched@.map_values(|r: ActionRecord| record_view(r)) == em);
        assert(matched@.len() == em.len());
    }
    let total: usize = matched.len();
    let keep: usize = match req.max_results {
        Some(k) => {
            if total <= k as usize {
                total
            } else {
                k as usize
            }
        },
        None => total,
    };
    let mut out: Vec<FoundEvent> = Vec::new();
    let mut i: usize = 0;
    while i < keep
        invariant
            0 <= i <= keep <= matched@.len(),
            em == matched@.map_values(|r: ActionRecord| record_view(r)),
            out@.len() == i,
            forall|j: int|
                0 <= j < i ==> found_event_matches(#[trigger] out@[j], em[j]),
        decreases keep - i,
    {
        assert(record_view(matched@[i as int]) == em[i as int]);
        out.push(found_event_of(&matched[i]));
        i += 1;
    }
    let first_event_id: Option<u32> = if total > 0 {
        proof {
            assert(record_view(matched@[0]) == em[0]);
        }
        Some(matched[0].event_id)
    } else {
        None
    };
    let last_event_id: Option<u32> = if total > 0 {
        proof {
            assert(record_view(matched@[total - 1]) == em[total - 1]);
        }
        Some(matched[total - 1].event_id)
    } else {
        None
    };
    FindEventsResponse {
        capture_path: clone_string(&req.capture_path),
        total_matches: total as u64,
        truncated: keep < total,
        first_event_id,
        last_event_id,
        matches: out,
    }
}


/// Restricting a query to drawcall-like actions never reports more
/// matches: of two responses over one trace whose requests differ only
/// in `only_drawcalls`, the restricted one counts no more.
pub proof fn lemma_response_only_drawcalls_monotone(
    req_restricted: FindEventsRequest,
    req_free: FindEventsRequest,
    ns: Seq<ActionNode>,
    r_restricted: FindEventsResponse,
    r_free: FindEventsResponse,
)
    requires
        find_events_post(req_restricted, ns, r_restricted),
        find_events_post(req_free, ns, r_free),
        req_restricted.only_drawcalls,
        (request_filter(req_free) == FilterV {
            only_drawcalls: false,
            ..request_filter(req_restricted)
        }),
    ensures
        r_restricted.total_matches <= r_free.total_matches,
{
    let f = request_filter(req_restricted);
    assert(request_filter(req_restricted) == FilterV { only_drawcalls: true, ..f });
    lemma_only_drawcalls_monotone(f, ns);
}

/// Narrowing a query's marker prefix by trailing segments never reports
/// more matches; read the other way, widening never reports fewer.
pub proof fn lemma_response_marker_prefix_monotone(
    req_narrow: FindEventsRequest,
    req_wide: FindEventsRequest,
    ns: Seq<ActionNode>,
    r_narrow: FindEventsResponse,
    r_wide: FindEventsResponse,
    p: Seq<char>,
    ext: Seq<char>,
)
    requires
        find_events_post(req_narrow, ns, r_narrow),
        find_events_post(req_wide, ns, r_wide),
        (request_filter(req_narrow) == FilterV {
            marker_prefix: Some(p + seq!['/'] + ext),
            ..request_filter(req_wide)
        }),
        request_filter(req_wide).marker_prefix == Some(p),
    ensures
        r_narrow.total_matches <= r_wide.total_matches,
{
    let f = request_filter(req_wide);
    assert(request_filter(req_wide) == FilterV { marker_prefix: Some(p), ..f });
    lemma_marker_prefix_monotone(f, ns, p, ext);
}

/// In a trace whose preorder event ids increase, a response's id span
/// is ordered, and it is absent exactly when nothing matched.
pub proof fn lemma_response_id_span(
    req: FindEventsRequest,
    ns: Seq<ActionNode>,
    r: FindEventsResponse,
)
    requires
        find_events_post(req, ns, r),
        ids_increasing(all_recs(ns)),
    ensures
        (r.first_event_id is Some && r.last_event_id is Some) ==> (r.first_event_id->0
            <= r.last_event_id->0),
        r.first_event_id is None <==> r.total_matches == 0,
        r.last_event_id is None <==> r.total_matches == 0,
{
    let em = emitted_recs(request_filter(req), ns);
    if em.len() > 0 {
        lemma_first_last_ordered(request_filter(req), ns);
    }
}

} // verus!

