//! The action-tree model and the preorder record pass.
//!
//! A capture trace is a forest of `ActionNode`s.  Walking it in preorder
//! while maintaining the stack of open push-marker scopes yields one
//! `ActionRecord` per node; the record's marker path describes the node's
//! container (it never includes the node's own name).  The ghost-level
//! mirror of that pass is `recs_forest` / `recs_node`, and every query or
//! export over the tree is specified against it.
use vstd::prelude::*;

use crate::flags::spec_is_push_marker;
use crate::flags::is_push_marker;

verus! {

/// One node of a capture trace: its position in the command stream, its
/// display name, its flag bitset and its ordered children.
pub struct ActionNode {
    pub event_id: u32,
    pub name: String,
    pub flags: u64,
    pub children: Vec<ActionNode>,
}

/// The mathematical image of one visited node.
pub ghost struct ActionRec {
    pub event_id: u32,
    pub parent_event_id: Option<u32>,
    pub depth: nat,
    pub name: Seq<char>,
    pub flags: u64,
    pub marker_path: Seq<Seq<char>>,
    pub num_children: nat,
}

/// The record produced for `n` when visited under the given marker stack,
/// depth and parent.
pub open spec fn rec_of(
    n: ActionNode,
    stack: Seq<Seq<char>>,
    depth: nat,
    parent: Option<u32>,
) -> ActionRec {
    ActionRec {
        event_id: n.event_id,
        parent_event_id: parent,
        depth: depth,
        name: n.name@,
        flags: n.flags,
        marker_path: stack,
        num_children: n.children@.len(),
    }
}

/// The marker stack in force inside `n`'s subtree.
pub open spec fn child_stack(stack: Seq<Seq<char>>, n: ActionNode) -> Seq<Seq<char>> {
    if spec_is_push_marker(n.flags) {
        stack.push(n.name@)
    } else {
        stack
    }
}

/// All records of the subtree rooted at `n`, in preorder.
pub open spec fn recs_node(
    n: ActionNode,
    stack: Seq<Seq<char>>,
    depth: nat,
    parent: Option<u32>,
) -> Seq<ActionRec>
    decreases n,
{
    seq![rec_of(n, stack, depth, parent)] + recs_forest(
        n.children@,
        child_stack(stack, n),
        depth + 1,
        Some(n.event_id),
        0,
    )
}

/// All records of the forest suffix `ns[i..]`, in preorder.
pub open spec fn recs_forest(
    ns: Seq<ActionNode>,
    stack: Seq<Seq<char>>,
    depth: nat,
    parent: Option<u32>,
    i: int,
) -> Seq<ActionRec>
    decreases ns, ns.len() - i,
    when 0 <= i <= ns.len()
{
    if i == ns.len() {
        Seq::<ActionRec>::empty()
    } else {
        recs_node(ns[i], stack, depth, parent) + recs_forest(ns, stack, depth, parent, i + 1)
    }
}

/// The full preorder record sequence of a trace.
pub open spec fn all_recs(ns: Seq<ActionNode>) -> Seq<ActionRec> {
    recs_forest(ns, Seq::<Seq<char>>::empty(), 0, None, 0)
}

/// Machine bounds a walkable tree obeys: depths stay within `u32` and no
/// node has more than `u32::MAX` children.
pub open spec fn wf_node(n: ActionNode, depth: nat) -> bool
    decreases n,
{
    &&& depth <= u32::MAX
    &&& n.children@.len() <= u32::MAX
    &&& wf_forest(n.children@, depth + 1, 0)
}

pub open spec fn wf_forest(ns: Seq<ActionNode>, depth: nat, i: int) -> bool
    decreases ns, ns.len() - i,
    when 0 <= i <= ns.len()
{
    i == ns.len() || (wf_node(ns[i], depth) && wf_forest(ns, depth, i + 1))
}

/// One record of the preorder pass, in executable form.
pub struct ActionRecord {
    pub event_id: u32,
    pub parent_event_id: Option<u32>,
    pub depth: u32,
    pub name: String,
    pub flags: u64,
    pub marker_path: Vec<String>,
    pub num_children: u32,
}

pub open spec fn record_view(r: ActionRecord) -> ActionRec {
    ActionRec {
        event_id: r.event_id,
        parent_event_id: r.parent_event_id,
        depth: r.depth as nat,
        name: r.name@,
        flags: r.flags,
        marker_path: r.marker_path.deep_view(),
        num_children: r.num_children as nat,
    }
}

pub fn clone_string(s: &String) -> (r: String)
    ensures
        r@ == s@,
{
    s.clone()
}

pub fn clone_string_vec(v: &Vec<String>) -> (r: Vec<String>)
    ensures
        r.deep_view() == v.deep_view(),
{
    let mut out: Vec<String> = Vec::new();
    let mut i: usize = 0;
    while i < v.len()
        invariant
            0 <= i <= v@.len(),
            out@.len() == i,
            forall|j: int| 0 <= j < i ==> out@[j]@ == v@[j]@,
        decreases v.len() - i,
    {
        out.push(clone_string(&v[i]));
        i += 1;
    }
    proof {
        assert(out.deep_view() =~= v.deep_view());
    }
    out
}

fn collect_node(
    n: &ActionNode,
    stack: &Vec<String>,
    depth: u32,
    parent: Option<u32>,
    out: &mut Vec<ActionRecord>,
)
    requires
        wf_node(*n, depth as nat),
    ensures
        final(out)@.map_values(|r: ActionRecord| record_view(r)) == old(out)@.map_values(
            |r: ActionRecord| record_view(r),
        ) + recs_node(*n, stack.deep_view(), depth as nat, parent),
    decreases *n,
{
    let rec = ActionRecord {
        event_id: n.event_id,
        parent_event_id: parent,
        depth: depth,
        name: clone_string(&n.name),
        flags: n.flags,
        marker_path: clone_string_vec(stack),
        num_children: n.children.len() as u32,
    };
    proof {
        assert(record_view(rec) == rec_of(*n, stack.deep_view(), depth as nat, parent));
    }
    out.push(rec);
    let cstack: Vec<String> = if is_push_marker(n.flags) {
        let mut s = clone_string_vec(stack);
        s.push(clone_string(&n.name));
        proof {
            assert(s.deep_view() =~= child_stack(stack.deep_view(), *n));
        }
        s
    } else {
        let s = clone_string_vec(stack);
        proof {
            assert(s.deep_view() =~= child_stack(stack.deep_view(), *n));
        }
        s
    };
    let ghost base = old(out)@.map_values(|r: ActionRecord| record_view(r)) + seq![
        rec_of(*n, stack.deep_view(), depth as nat, parent),
    ];
    proof {
        assert(out@.map_values(|r: ActionRecord| record_view(r)) =~= base);
    }
    let ghost cs = cstack.deep_view();
    let ghost d1 = depth as nat + 1;
    let ghost pid = Some(n.event_id);
    let mut i: usize = 0;
    while i < n.children.len()
        invariant
            0 <= i <= n.children@.len(),
            wf_node(*n, depth as nat),
            depth as nat + 1 <= u32::MAX + 1,
            cs == cstack.deep_view(),
            d1 == depth as nat + 1,
            pid == Some(n.event_id),
            out@.map_values(|r: ActionRecord| record_view(r)) + recs_forest(
                n.children@,
                cs,
                d1,
                pid,
                i as int,
            ) == base + recs_forest(n.children@, cs, d1, pid, 0),
        decreases n.children@.len() - i,
    {
        assert(wf_node(n.children@[i as int], d1)) by {
            lemma_wf_forest_index(n.children@, d1, i as int);
        }
        let ghost prev = out@.map_values(|r: ActionRecord| record_view(r));
        collect_node(&n.children[i], &cstack, depth + 1, Some(n.event_id), out);
        i += 1;
        proof {
            lemma_recs_forest_step(n.children@, cs, d1, pid, i as int);
            assert(out@.map_values(|r: ActionRecord| record_view(r)) + recs_forest(
                n.children@,
                cs,
                d1,
                pid,
                i as int,
            ) =~= prev + recs_forest(n.children@, cs, d1, pid, i - 1));
        }
    }
    proof {
        assert(recs_forest(n.children@, cs, d1, pid, n.children@.len() as int)
            =~= Seq::<ActionRec>::empty());
        assert(out@.map_values(|r: ActionRecord| record_view(r)) =~= old(
            out,
        )@.map_values(|r: ActionRecord| record_view(r)) + recs_node(
            *n,
            stack.deep_view(),
            depth as nat,
            parent,
        ));
    }
}

/// Each member of a well-formed forest suffix is a well-formed node.
pub proof fn lemma_wf_forest_index(ns: Seq<ActionNode>, depth: nat, i: int)
    requires
        wf_forest(ns, depth, 0),
        0 <= i < ns.len(),
    ensures
        wf_node(ns[i], depth),
{
    lemma_wf_forest_index_from(ns, depth, 0, i);
}

proof fn lemma_wf_forest_index_from(ns: Seq<ActionNode>, depth: nat, j: int, i: int)
    requires
        wf_forest(ns, depth, j),
        0 <= j <= i < ns.len(),
    ensures
        wf_node(ns[i], depth),
    decreases i - j,
{
    if j < i {
        lemma_wf_forest_index_from(ns, depth, j + 1, i);
    }
}

proof fn lemma_recs_forest_step(
    ns: Seq<ActionNode>,
    stack: Seq<Seq<char>>,
    depth: nat,
    parent: Option<u32>,
    i: int,
)
    requires
        0 < i <= ns.len(),
    ensures
        recs_forest(ns, stack, depth, parent, i - 1) == recs_node(
            ns[i - 1],
            stack,
            depth,
            parent,
        ) + recs_forest(ns, stack, depth, parent, i),
{
}


/// All records of a trace, in preorder, in executable form.
pub fn collect_records(nodes: &Vec<ActionNode>) -> (out: Vec<ActionRecord>)
    requires
        wf_forest(nodes@, 0, 0),
    ensures
        out@.map_values(|r: ActionRecord| record_view(r)) == all_recs(nodes@),
{
    let mut out: Vec<ActionRecord> = Vec::new();
    let stack: Vec<String> = Vec::new();
    proof {
        assert(stack.deep_view() =~= Seq::<Seq<char>>::empty());
        assert(out@.map_values(|r: ActionRecord| record_view(r)) =~= Seq::<ActionRec>::empty());
    }
    let mut i: usize = 0;
    while i < nodes.len()
        invariant
            0 <= i <= nodes@.len(),
            wf_forest(nodes@, 0, 0),
            stack.deep_view() == Seq::<Seq<char>>::empty(),
            out@.map_values(|r: ActionRecord| record_view(r)) + recs_forest(
                nodes@,
                Seq::<Seq<char>>::empty(),
                0,
                None,
                i as int,
            ) == all_recs(nodes@),
        decreases nodes@.len() - i,
    {
        assert(wf_node(nodes@[i as int], 0)) by {
            lemma_wf_forest_index(nodes@, 0, i as int);
        }
        let ghost prev = out@.map_values(|r: ActionRecord| record_view(r));
        collect_node(&nodes[i], &stack, 0, None, &mut out);
        i += 1;
        proof {
            lemma_recs_forest_step(nodes@, Seq::<Seq<char>>::empty(), 0, None, i as int);
            assert(out@.map_values(|r: ActionRecord| record_view(r)) + recs_forest(
                nodes@,
                Seq::<Seq<char>>::empty(),
                0,
                None,
                i as int,
            ) =~= prev + recs_forest(nodes@, Seq::<Seq<char>>::empty(), 0, None, i - 1));
        }
    }
    proof {
        assert(recs_forest(nodes@, Seq::<Seq<char>>::empty(), 0, None, nodes@.len() as int)
            =~= Seq::<ActionRec>::empty());
        assert(out@.map_values(|r: ActionRecord| record_view(r)) =~= all_recs(nodes@));
    }
    out
}

/// The query predicates of one traversal: which records are emitted.
pub struct QueryFilter {
    pub only_drawcalls: bool,
    pub marker_prefix: Option<String>,
    pub event_id_min: Option<u32>,
    pub event_id_max: Option<u32>,
    pub name_contains: Option<String>,
    pub marker_contains: Option<String>,
    pub case_sensitive: bool,
}

/// The mathematical image of a query filter.
pub ghost struct FilterV {
    pub only_drawcalls: bool,
    pub marker_prefix: Option<Seq<char>>,
    pub event_id_min: Option<u32>,
    pub event_id_max: Option<u32>,
    pub name_contains: Option<Seq<char>>,
    pub marker_contains: Option<Seq<char>>,
    pub case_sensitive: bool,
}

pub open spec fn filter_view(f: QueryFilter) -> FilterV {
    FilterV {
        only_drawcalls: f.only_drawcalls,
        marker_prefix: match f.marker_prefix {
            Some(s) => Some(s@),
            None => None,
        },
        event_id_min: f.event_id_min,
        event_id_max: f.event_id_max,
        name_contains: match f.name_contains {
            Some(s) => Some(s@),
            None => None,
        },
        marker_contains: match f.marker_contains {
            Some(s) => Some(s@),
            None => None,
        },
        case_sensitive: f.case_sensitive,
    }
}

/// The marker path used for scope gating: the container path plus the
/// node's own name when the node itself opens a marker scope.
pub open spec fn effective_path(r: ActionRec) -> Seq<Seq<char>> {
    if spec_is_push_marker(r.flags) {
        r.marker_path.push(r.name)
    } else {
        r.marker_path
    }
}

/// Scope gating: with a marker prefix set, a record is eligible only when
/// its joined effective path equals the prefix or starts with it followed
/// by `/`.
pub open spec fn in_scope(prefix: Option<Seq<char>>, r: ActionRec) -> bool {
    match prefix {
        None => true,
        Some(p) => {
            let j = crate::text::spec_join(effective_path(r));
            j == p || crate::text::spec_starts_with(j, p + seq!['/'])
        },
    }
}

/// Both id bounds are inclusive.
pub open spec fn passes_id_bounds(min: Option<u32>, max: Option<u32>, id: u32) -> bool {
    &&& match min {
        Some(m) => id >= m,
        None => true,
    }
    &&& match max {
        Some(m) => id <= m,
        None => true,
    }
}

/// The emission predicate apart from scope gating.
pub open spec fn passes_filter(f: FilterV, r: ActionRec) -> bool {
    &&& !f.only_drawcalls || crate::flags::spec_is_drawcall_like(r.flags)
    &&& passes_id_bounds(f.event_id_min, f.event_id_max, r.event_id)
    &&& match f.name_contains {
        None => true,
        Some(nd) => crate::text::spec_contains(
            crate::text::spec_fold_case(f.case_sensitive, r.name),
            crate::text::spec_fold_case(f.case_sensitive, nd),
        ),
    }
    &&& match f.marker_contains {
        None => true,
        Some(nd) => crate::text::spec_contains(
            crate::text::spec_fold_case(f.case_sensitive, crate::text::spec_join(r.marker_path)),
            crate::text::spec_fold_case(f.case_sensitive, nd),
        ),
    }
}

/// A record is emitted iff it is in scope and passes every predicate.
pub open spec fn emitted_rec(f: FilterV, r: ActionRec) -> bool {
    in_scope(f.marker_prefix, r) && passes_filter(f, r)
}

/// The emitted records of a trace under a filter, in traversal order.
pub open spec fn emitted_recs(f: FilterV, ns: Seq<ActionNode>) -> Seq<ActionRec> {
    all_recs(ns).filter(|r: ActionRec| emitted_rec(f, r))
}

/// Decides the scope gate for one record.
fn record_in_scope(f: &QueryFilter, r: &ActionRecord) -> (b: bool)
    ensures
        b == in_scope(filter_view(*f).marker_prefix, record_view(*r)),
{
    match &f.marker_prefix {
        None => true,
        Some(p) => {
            let eff: Vec<String> = if is_push_marker(r.flags) {
                let mut v = clone_string_vec(&r.marker_path);
                v.push(clone_string(&r.name));
                proof {
                    assert(v.deep_view() =~= effective_path(record_view(*r)));
                }
                v
            } else {
                let v = clone_string_vec(&r.marker_path);
                proof {
                    assert(v.deep_view() =~= effective_path(record_view(*r)));
                }
                v
            };
            let joined = crate::text::join_path(&eff);
            let pch = crate::text::chars_of_string(p);
            if crate::text::eq_chars(&joined, &pch) {
                true
            } else {
                let mut pslash = pch;
                pslash.push('/');
                proof {
                    assert(pslash@ =~= p@ + seq!['/']);
                }
                crate::text::starts_with_chars(&joined, &pslash)
            }
        },
    }
}

/// Decides the emission predicate for one record.
fn record_passes(f: &QueryFilter, r: &ActionRecord) -> (b: bool)
    ensures
        b == passes_filter(filter_view(*f), record_view(*r)),
{
    if f.only_drawcalls && !crate::flags::is_drawcall_like(r.flags) {
        return false;
    }
    let id_ok = (match f.event_id_min {
        Some(m) => r.event_id >= m,
        None => true,
    }) && (match f.event_id_max {
        Some(m) => r.event_id <= m,
        None => true,
    });
    if !id_ok {
        return false;
    }
    let name_ok = match &f.name_contains {
        None => true,
        Some(nd) => {
            let hay = crate::text::fold_case(f.case_sensitive, &crate::text::chars_of_string(
                &r.name,
            ));
            let needle = crate::text::fold_case(f.case_sensitive, &crate::text::chars_of_string(
                nd,
            ));
            crate::text::contains_chars(&hay, &needle)
        },
    };
    if !name_ok {
        return false;
    }
    match &f.marker_contains {
        None => true,
        Some(nd) => {
            let joined = crate::text::join_path(&r.marker_path);
            let hay = crate::text::fold_case(f.case_sensitive, &joined);
            let needle = crate::text::fold_case(f.case_sensitive, &crate::text::chars_of_string(
                nd,
            ));
            crate::text::contains_chars(&hay, &needle)
        },
    }
}

/// Decides emission for one record.
pub fn record_matches(f: &QueryFilter, r: &ActionRecord) -> (b: bool)
    ensures
        b == emitted_rec(filter_view(*f), record_view(*r)),
{
    record_in_scope(f, r) && record_passes(f, r)
}

pub proof fn lemma_filter_push<A>(s: Seq<A>, x: A, pred: spec_fn(A) -> bool)
    ensures
        s.push(x).filter(pred) == s.filter(pred) + (if pred(x) {
            seq![x]
        } else {
            Seq::<A>::empty()
        }),
{
    reveal(Seq::filter);
    assert(s.push(x).drop_last() =~= s);
    assert(s.push(x).last() == x);
}

/// The emitted records of a trace, in executable form.
pub fn filter_records(f: &QueryFilter, recs: &Vec<ActionRecord>) -> (out: Vec<ActionRecord>)
    ensures
        out@.map_values(|r: ActionRecord| record_view(r)) == recs@.map_values(
            |r: ActionRecord| record_view(r),
        ).filter(|r: ActionRec| emitted_rec(filter_view(*f), r)),
{
    let ghost pred = |r: ActionRec| emitted_rec(filter_view(*f), r);
    let mut out: Vec<ActionRecord> = Vec::new();
    proof {
        assert(recs@.take(0).map_values(|r: ActionRecord| record_view(r))
            =~= Seq::<ActionRec>::empty());
        reveal(Seq::filter);
        assert(out@.map_values(|r: ActionRecord| record_view(r)) =~= recs@.take(0).map_values(
            |r: ActionRecord| record_view(r),
        ).filter(pred));
    }
    let mut i: usize = 0;
    while i < recs.len()
        invariant
            0 <= i <= recs@.len(),
            pred == (|r: ActionRec| emitted_rec(filter_view(*f), r)),
            out@.map_values(|r: ActionRecord| record_view(r)) == recs@.take(
                i as int,
            ).map_values(|r: ActionRecord| record_view(r)).filter(pred),
        decreases recs@.len() - i,
    {
        let ghost prefix = recs@.take(i as int).map_values(|r: ActionRecord| record_view(r));
        let m = record_matches(f, &recs[i]);
        if m {
            out.push(clone_record(&recs[i]));
        }
        i += 1;
        proof {
            let x = record_view(recs@[i - 1]);
            assert(recs@.take(i as int).map_values(|r: ActionRecord| record_view(r))
                =~= prefix.push(x));
            lemma_filter_push(prefix, x, pred);
            if pred(x) {
                assert(out@.map_values(|r: ActionRecord| record_view(r)) =~= prefix.filter(
                    pred,
                ) + seq![x]);
            } else {
                assert(out@.map_values(|r: ActionRecord| record_view(r)) =~= prefix.filter(
                    pred,
                ) + Seq::<ActionRec>::empty());
                assert(prefix.filter(pred) + Seq::<ActionRec>::empty() =~= prefix.filter(pred));
            }
        }
    }
    proof {
        assert(recs@.take(recs@.len() as int) =~= recs@);
    }
    out
}

pub fn clone_record(r: &ActionRecord) -> (out: ActionRecord)
    ensures
        record_view(out) == record_view(*r),
{
    let out = ActionRecord {
        event_id: r.event_id,
        parent_event_id: r.parent_event_id,
        depth: r.depth,
        name: clone_string(&r.name),
        flags: r.flags,
        marker_path: clone_string_vec(&r.marker_path),
        num_children: r.num_children,
    };
    out
}


/// Pointwise-stronger predicates filter to no more elements.
proof fn lemma_filter_implies_len<A>(s: Seq<A>, p1: spec_fn(A) -> bool, p2: spec_fn(A) -> bool)
    requires
        forall|x: A| #[trigger] p1(x) ==> p2(x),
    ensures
        s.filter(p1).len() <= s.filter(p2).len(),
    decreases s.len(),
{
    reveal(Seq::filter);
    if s.len() > 0 {
        lemma_filter_implies_len(s.drop_last(), p1, p2);
    }
}

/// Restricting the traversal to drawcall-like actions never emits more
/// records than the unrestricted traversal with the same other predicates.
pub proof fn lemma_only_drawcalls_monotone(f: FilterV, ns: Seq<ActionNode>)
    ensures
        emitted_recs(FilterV { only_drawcalls: true, ..f }, ns).len() <= emitted_recs(
            FilterV { only_drawcalls: false, ..f },
            ns,
        ).len(),
{
    let ft = FilterV { only_drawcalls: true, ..f };
    let ff = FilterV { only_drawcalls: false, ..f };
    assert(forall|r: ActionRec| #[trigger] emitted_rec(ft, r) ==> emitted_rec(ff, r));
    lemma_filter_implies_len(
        all_recs(ns),
        |r: ActionRec| emitted_rec(ft, r),
        |r: ActionRec| emitted_rec(ff, r),
    );
}

proof fn lemma_prefix_of_concat(a: Seq<char>, b: Seq<char>)
    ensures
        crate::text::spec_starts_with(a + b, a),
{
    assert((a + b).subrange(0, a.len() as int) =~= a);
}

proof fn lemma_starts_with_trans(x: Seq<char>, y: Seq<char>, z: Seq<char>)
    requires
        crate::text::spec_starts_with(x, y),
        crate::text::spec_starts_with(y, z),
    ensures
        crate::text::spec_starts_with(x, z),
{
    assert(x.subrange(0, z.len() as int) =~= z) by {
        assert forall|i: int| 0 <= i < z.len() implies x[i] == z[i] by {
            assert(y[i] == x.subrange(0, y.len() as int)[i]);
            assert(z[i] == y.subrange(0, z.len() as int)[i]);
        }
    }
}

/// Narrowing a marker prefix (appending trailing segments) never increases
/// the emitted count; equivalently, widening never decreases it.
pub proof fn lemma_marker_prefix_monotone(
    f: FilterV,
    ns: Seq<ActionNode>,
    p: Seq<char>,
    ext: Seq<char>,
)
    ensures
        emitted_recs(FilterV { marker_prefix: Some(p + seq!['/'] + ext), ..f }, ns).len()
            <= emitted_recs(FilterV { marker_prefix: Some(p), ..f }, ns).len(),
{
    let narrow = p + seq!['/'] + ext;
    let fn_ = FilterV { marker_prefix: Some(narrow), ..f };
    let fw = FilterV { marker_prefix: Some(p), ..f };
    assert forall|r: ActionRec| #[trigger] emitted_rec(fn_, r) implies emitted_rec(fw, r) by {
        let j = crate::text::spec_join(effective_path(r));
        assert(p + seq!['/'] + ext =~= (p + seq!['/']) + ext);
        lemma_prefix_of_concat(p + seq!['/'], ext);
        if j == narrow {
            assert(crate::text::spec_starts_with(j, p + seq!['/']));
        } else {
            assert(crate::text::spec_starts_with(j, narrow + seq!['/']));
            assert(narrow + seq!['/'] =~= (p + seq!['/']) + (ext + seq!['/']));
            lemma_prefix_of_concat(p + seq!['/'], ext + seq!['/']);
            lemma_starts_with_trans(j, narrow + seq!['/'], p + seq!['/']);
        }
    }
    lemma_filter_implies_len(
        all_recs(ns),
        |r: ActionRec| emitted_rec(fn_, r),
        |r: ActionRec| emitted_rec(fw, r),
    );
}

/// The id-range bounds are inclusive: records at either endpoint pass.
pub proof fn lemma_id_bounds_inclusive(lo: u32, hi: u32)
    requires
        lo <= hi,
    ensures
        passes_id_bounds(Some(lo), Some(hi), lo),
        passes_id_bounds(Some(lo), Some(hi), hi),
        forall|id: u32| passes_id_bounds(Some(lo), Some(hi), id) <==> lo <= id <= hi,
{
}

/// Event ids strictly increase along the sequence.
pub open spec fn ids_increasing(rs: Seq<ActionRec>) -> bool {
    forall|i: int, j: int|
        0 <= i < j < rs.len() ==> #[trigger] rs[i].event_id < #[trigger] rs[j].event_id
}

proof fn lemma_filter_element_of<A>(s: Seq<A>, pred: spec_fn(A) -> bool)
    ensures
        forall|k: int|
            0 <= k < s.filter(pred).len() ==> s.contains(#[trigger] s.filter(pred)[k]),
    decreases s.len(),
{
    reveal(Seq::filter);
    if s.len() > 0 {
        let d = s.drop_last();
        lemma_filter_element_of(d, pred);
        assert forall|k: int|
            0 <= k < s.filter(pred).len() implies s.contains(#[trigger] s.filter(pred)[k]) by {
            if k < d.filter(pred).len() {
                assert(d.contains(d.filter(pred)[k]));
                let j = choose|j: int| 0 <= j < d.len() && d[j] == d.filter(pred)[k];
                assert(s[j] == s.filter(pred)[k]);
            } else {
                assert(s.filter(pred)[k] == s.last());
                assert(s[s.len() - 1] == s.last());
            }
        }
    }
}

/// Filtering preserves strictly increasing event ids.
pub proof fn lemma_filter_preserves_increasing(rs: Seq<ActionRec>, pred: spec_fn(ActionRec) -> bool)
    requires
        ids_increasing(rs),
    ensures
        ids_increasing(rs.filter(pred)),
    decreases rs.len(),
{
    reveal(Seq::filter);
    if rs.len() > 0 {
        let d = rs.drop_last();
        assert(ids_increasing(d)) by {
            assert forall|i: int, j: int|
                0 <= i < j < d.len() implies #[trigger] d[i].event_id
                < #[trigger] d[j].event_id by {
                assert(d[i] == rs[i]);
                assert(d[j] == rs[j]);
            }
        }
        lemma_filter_preserves_increasing(d, pred);
        if pred(rs.last()) {
            lemma_filter_element_of(d, pred);
            let out = rs.filter(pred);
            assert(out == d.filter(pred).push(rs.last()));
            assert forall|i: int, j: int|
                0 <= i < j < out.len() implies #[trigger] out[i].event_id
                < #[trigger] out[j].event_id by {
                if j < out.len() - 1 {
                    assert(out[i] == d.filter(pred)[i]);
                    assert(out[j] == d.filter(pred)[j]);
                } else {
                    assert(out[j] == rs.last());
                    assert(out[i] == d.filter(pred)[i]);
                    assert(d.contains(d.filter(pred)[i]));
                    let m = choose|m: int| 0 <= m < d.len() && d[m] == d.filter(pred)[i];
                    assert(rs[m] == out[i]);
                    assert(rs[m].event_id < rs[rs.len() - 1].event_id);
                }
            }
        }
    }
}

/// In a trace whose preorder event ids increase, the first emitted record
/// never carries a larger id than the last one.
pub proof fn lemma_first_last_ordered(f: FilterV, ns: Seq<ActionNode>)
    requires
        ids_increasing(all_recs(ns)),
        emitted_recs(f, ns).len() > 0,
    ensures
        emitted_recs(f, ns)[0].event_id <= emitted_recs(f, ns).last().event_id,
{
    lemma_filter_preserves_increasing(all_recs(ns), |r: ActionRec| emitted_rec(f, r));
    let out = emitted_recs(f, ns);
    if out.len() > 1 {
        assert(out[0].event_id < out[out.len() - 1].event_id);
    }
}

} // verus!


