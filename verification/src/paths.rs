//! Path resolution against a base directory.  A path is taken as
//! absolute when it starts with a separator or names a drive, as in
//! `c:/`; anything else is joined onto the base with `/`.
use vstd::prelude::*;

verus! {

/// The path stands on its own and must not be joined onto a base.
pub open spec fn spec_is_absolute(p: Seq<char>) -> bool {
    ||| (p.len() > 0 && (p[0] == '/' || p[0] == '\\'))
    ||| (p.len() >= 3 && p[1] == ':' && (p[2] == '/' || p[2] == '\\'))
}

pub fn is_absolute_path(p: &String) -> (r: bool)
    ensures
        r == spec_is_absolute(p@),
{
    let cs = crate::text::chars_of_string(p);
    (cs.len() > 0 && (cs[0] == '/' || cs[0] == '\\')) || (cs.len() >= 3 && cs[1] == ':' && (cs[2]
        == '/' || cs[2] == '\\'))
}

/// The resolved form of a possibly relative path: the path itself when
/// absolute, otherwise `base/path`.
pub open spec fn spec_resolved(base: Seq<char>, value: Seq<char>) -> Seq<char> {
    if spec_is_absolute(value) {
        value
    } else {
        base + seq!['/'] + value
    }
}

pub fn resolve_path_from_base(base: &String, value: &String) -> (r: String)
    ensures
        r@ == spec_resolved(base@, value@),
{
    if is_absolute_path(value) {
        crate::actions::clone_string(value)
    } else {
        let mut out = crate::text::chars_of_string(base);
        out.push('/');
        let vc = crate::text::chars_of_string(value);
        let mut i: usize = 0;
        while i < vc.len()
            invariant
                0 <= i <= vc@.len(),
                vc@ == value@,
                out@ == base@ + seq!['/'] + value@.take(i as int),
            decreases vc@.len() - i,
        {
            out.push(vc[i]);
            i += 1;
            proof {
                assert(base@ + seq!['/'] + value@.take(i as int) =~= (base@ + seq!['/']
                    + value@.take(i as int - 1)).push(value@[i as int - 1]));
            }
        }
        proof {
            assert(value@.take(value@.len() as int) =~= value@);
        }
        crate::text::string_of_chars(&out)
    }
}

} // verus!
