//! The action flag bitset: category bits, marker bits, and the fixed
//! bit-to-name table used to decode a flag word into a list of names.
use vstd::prelude::*;

verus! {

pub const FLAG_CLEAR: u64 = 0x1;

pub const FLAG_DRAWCALL: u64 = 0x2;

pub const FLAG_DISPATCH: u64 = 0x4;

pub const FLAG_MESH_DISPATCH: u64 = 0x8;

pub const FLAG_DISPATCH_RAY: u64 = 0x10;

pub const FLAG_COPY: u64 = 0x20;

pub const FLAG_PRESENT: u64 = 0x40;

pub const FLAG_SET_MARKER: u64 = 0x80;

pub const FLAG_PUSH_MARKER: u64 = 0x100;

pub const FLAG_POP_MARKER: u64 = 0x200;

/// The node opens a marker scope that brackets its subtree.
pub open spec fn spec_is_push_marker(f: u64) -> bool {
    f & FLAG_PUSH_MARKER != 0
}

pub fn is_push_marker(f: u64) -> (b: bool)
    ensures
        b == spec_is_push_marker(f),
{
    f & FLAG_PUSH_MARKER != 0
}

/// The node closes a marker scope.
pub open spec fn spec_is_pop_marker(f: u64) -> bool {
    f & FLAG_POP_MARKER != 0
}

pub fn is_pop_marker(f: u64) -> (b: bool)
    ensures
        b == spec_is_pop_marker(f),
{
    f & FLAG_POP_MARKER != 0
}

/// Drawcall-like categories: drawcall, dispatch, mesh dispatch, dispatch ray.
pub open spec fn spec_is_drawcall_like(f: u64) -> bool {
    f & (FLAG_DRAWCALL | FLAG_DISPATCH | FLAG_MESH_DISPATCH | FLAG_DISPATCH_RAY) != 0
}

pub fn is_drawcall_like(f: u64) -> (b: bool)
    ensures
        b == spec_is_drawcall_like(f),
{
    f & (FLAG_DRAWCALL | FLAG_DISPATCH | FLAG_MESH_DISPATCH | FLAG_DISPATCH_RAY) != 0
}

/// The decoded names of a flag word, in the fixed table order.
pub open spec fn spec_flag_names(f: u64) -> Seq<Seq<char>> {
    Seq::<Seq<char>>::empty() + (if f & FLAG_CLEAR != 0 {
        seq!["Clear"@]
    } else {
        Seq::<Seq<char>>::empty()
    }) + (if f & FLAG_DRAWCALL != 0 {
        seq!["Drawcall"@]
    } else {
        Seq::<Seq<char>>::empty()
    }) + (if f & FLAG_DISPATCH != 0 {
        seq!["Dispatch"@]
    } else {
        Seq::<Seq<char>>::empty()
    }) + (if f & FLAG_MESH_DISPATCH != 0 {
        seq!["MeshDispatch"@]
    } else {
        Seq::<Seq<char>>::empty()
    }) + (if f & FLAG_DISPATCH_RAY != 0 {
        seq!["DispatchRay"@]
    } else {
        Seq::<Seq<char>>::empty()
    }) + (if f & FLAG_COPY != 0 {
        seq!["Copy"@]
    } else {
        Seq::<Seq<char>>::empty()
    }) + (if f & FLAG_PRESENT != 0 {
        seq!["Present"@]
    } else {
        Seq::<Seq<char>>::empty()
    }) + (if f & FLAG_SET_MARKER != 0 {
        seq!["SetMarker"@]
    } else {
        Seq::<Seq<char>>::empty()
    }) + (if f & FLAG_PUSH_MARKER != 0 {
        seq!["PushMarker"@]
    } else {
        Seq::<Seq<char>>::empty()
    }) + (if f & FLAG_POP_MARKER != 0 {
        seq!["PopMarker"@]
    } else {
        Seq::<Seq<char>>::empty()
    })
}

fn append_if(out: &mut Vec<String>, cond: bool, name: &str)
    ensures
        final(out).deep_view() == old(out).deep_view() + (if cond {
            seq![name@]
        } else {
            Seq::<Seq<char>>::empty()
        }),
{
    if cond {
        out.push(String::from_str(name));
        proof {
            assert(final(out).deep_view() =~= old(out).deep_view() + seq![name@]);
        }
    } else {
        proof {
            assert(final(out).deep_view() =~= old(out).deep_view()
                + Seq::<Seq<char>>::empty());
        }
    }
}

pub fn flag_names(f: u64) -> (r: Vec<String>)
    ensures
        r.deep_view() == spec_flag_names(f),
{
    let mut out: Vec<String> = Vec::new();
    proof {
        assert(out.deep_view() =~= Seq::<Seq<char>>::empty());
    }
    append_if(&mut out, f & FLAG_CLEAR != 0, "Clear");
    append_if(&mut out, f & FLAG_DRAWCALL != 0, "Drawcall");
    append_if(&mut out, f & FLAG_DISPATCH != 0, "Dispatch");
    append_if(&mut out, f & FLAG_MESH_DISPATCH != 0, "MeshDispatch");
    append_if(&mut out, f & FLAG_DISPATCH_RAY != 0, "DispatchRay");
    append_if(&mut out, f & FLAG_COPY != 0, "Copy");
    append_if(&mut out, f & FLAG_PRESENT != 0, "Present");
    append_if(&mut out, f & FLAG_SET_MARKER != 0, "SetMarker");
    append_if(&mut out, f & FLAG_PUSH_MARKER != 0, "PushMarker");
    append_if(&mut out, f & FLAG_POP_MARKER != 0, "PopMarker");
    out
}

} // verus!
