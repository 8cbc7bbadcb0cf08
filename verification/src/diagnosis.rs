//! The environment diagnosis engine: a pure classifier over the tool's
//! self-check prose, plus the composite environment report.
//!
//! Everything here is text to structure: the tool's output is scanned
//! for fixed phrases, candidate manifest paths are collected from lines
//! that look like JSON file paths, and the results are deduplicated and
//! sorted.  Running the tool and reading files or environment variables
//! is I/O and happens outside the library.
use vstd::prelude::*;

use crate::text::spec_lower;
use crate::text::spec_contains;
use crate::text::lower_chars;
use crate::text::contains_chars;
use crate::text::chars_of_str;
use crate::text::chars_of_string;
use crate::text::string_of_chars;
use crate::text::eq_chars;
use crate::renderdoccmd::RenderDocInstallation;

verus! {

/// Whitespace as the trimming of report lines understands it.
pub open spec fn is_space(c: char) -> bool {
    c == ' ' || c == '\t' || c == '\r' || c == '\n'
}

pub open spec fn trim_start_rec(s: Seq<char>) -> Seq<char>
    decreases s.len(),
{
    if s.len() > 0 && is_space(s[0]) {
        trim_start_rec(s.drop_first())
    } else {
        s
    }
}

pub open spec fn trim_end_rec(s: Seq<char>) -> Seq<char>
    decreases s.len(),
{
    if s.len() > 0 && is_space(s.last()) {
        trim_end_rec(s.drop_last())
    } else {
        s
    }
}

/// A line with surrounding whitespace removed.
pub open spec fn spec_trim(s: Seq<char>) -> Seq<char> {
    trim_end_rec(trim_start_rec(s))
}

fn is_space_exec(c: char) -> (b: bool)
    ensures
        b == is_space(c),
{
    c == ' ' || c == '\t' || c == '\r' || c == '\n'
}

proof fn lemma_trim_start_skip(s: Seq<char>, i: int)
    requires
        0 <= i <= s.len(),
        forall|j: int| 0 <= j < i ==> is_space(s[j]),
    ensures
        trim_start_rec(s) == trim_start_rec(s.skip(i)),
    decreases i,
{
    if i > 0 {
        assert(is_space(s[0]));
        assert(s.drop_first() =~= s.skip(1));
        lemma_trim_start_skip_step(s, i);
    } else {
        assert(s.skip(0) =~= s);
    }
}

proof fn lemma_trim_start_skip_step(s: Seq<char>, i: int)
    requires
        0 < i <= s.len(),
        forall|j: int| 0 <= j < i ==> is_space(s[j]),
    ensures
        trim_start_rec(s) == trim_start_rec(s.skip(i)),
    decreases i,
{
    assert(s.drop_first() =~= s.skip(1));
    if i == 1 {
    } else {
        assert(forall|j: int| 0 <= j < i - 1 ==> is_space(s.skip(1)[j]));
        lemma_trim_start_skip_step(s.skip(1), i - 1);
        assert(s.skip(1).skip(i - 1) =~= s.skip(i));
    }
}

proof fn lemma_trim_end_take(s: Seq<char>, i: int)
    requires
        0 <= i <= s.len(),
        forall|j: int| i <= j < s.len() ==> is_space(s[j]),
    ensures
        trim_end_rec(s) == trim_end_rec(s.take(i)),
    decreases s.len() - i,
{
    if i < s.len() {
        assert(is_space(s.last()));
        assert(s.drop_last() =~= s.take(s.len() - 1));
        lemma_trim_end_take(s.take(s.len() - 1), i);
        assert(s.take(s.len() - 1).take(i) =~= s.take(i));
    } else {
        assert(s.take(i) =~= s);
    }
}

/// Trims whitespace from both ends.
pub fn trim_chars(s: &Vec<char>) -> (r: Vec<char>)
    ensures
        r@ == spec_trim(s@),
{
    let n: usize = s.len();
    let mut a: usize = 0;
    while a < n && is_space_exec(s[a])
        invariant
            0 <= a <= n,
            n == s@.len(),
            forall|j: int| 0 <= j < a ==> is_space(s@[j]),
        decreases n - a,
    {
        a += 1;
    }
    proof {
        lemma_trim_start_skip(s@, a as int);
        assert(trim_start_rec(s@.skip(a as int)) == s@.skip(a as int));
    }
    let mut b: usize = n;
    while b > a && is_space_exec(s[b - 1])
        invariant
            a <= b <= n,
            n == s@.len(),
            forall|j: int| b <= j < n ==> is_space(s@[j]),
        decreases b,
    {
        b -= 1;
    }
    let ghost mid = s@.skip(a as int);
    proof {
        assert(forall|j: int| b - a <= j < mid.len() ==> is_space(#[trigger] mid[j]));
        lemma_trim_end_take(mid, b - a);
        if b > a {
            assert(!is_space(mid.take(b - a).last()));
        }
        assert(trim_end_rec(mid.take(b - a)) == mid.take(b - a));
        assert(spec_trim(s@) == mid.take(b - a));
    }
    let mut out: Vec<char> = Vec::new();
    let mut i: usize = a;
    while i < b
        invariant
            a <= i <= b <= n,
            n == s@.len(),
            mid == s@.skip(a as int),
            out@ == mid.take(i - a),
        decreases b - i,
    {
        out.push(s[i]);
        i += 1;
        proof {
            assert(mid.take(i - a) =~= mid.take(i - a - 1).push(s@[i - 1]));
        }
    }
    out
}

/// The index of the first newline, or the length when there is none.
pub open spec fn first_newline(s: Seq<char>) -> int
    decreases s.len(),
{
    if s.len() == 0 {
        0
    } else if s[0] == '\n' {
        0
    } else {
        1 + first_newline(s.drop_first())
    }
}

proof fn lemma_first_newline_bounds(s: Seq<char>)
    ensures
        0 <= first_newline(s) <= s.len(),
        forall|j: int| 0 <= j < first_newline(s) ==> s[j] != '\n',
        first_newline(s) < s.len() ==> s[first_newline(s)] == '\n',
    decreases s.len(),
{
    if s.len() > 0 && s[0] != '\n' {
        lemma_first_newline_bounds(s.drop_first());
        assert(forall|j: int|
            0 <= j < first_newline(s.drop_first()) ==> s.drop_first()[j] != '\n');
        assert forall|j: int| 0 <= j < first_newline(s) implies s[j] != '\n' by {
            if j > 0 {
                assert(s.drop_first()[j - 1] != '\n');
            }
        }
    }
}

/// The lines of a report: split on newline, no trailing empty line for
/// a trailing newline.
pub open spec fn spec_lines(s: Seq<char>) -> Seq<Seq<char>>
    decreases s.len(),
    via spec_lines_dec
{
    if s.len() == 0 {
        Seq::<Seq<char>>::empty()
    } else {
        let i = first_newline(s);
        if i == s.len() {
            seq![s]
        } else {
            seq![s.take(i)] + spec_lines(s.skip(i + 1))
        }
    }
}

#[via_fn]
proof fn spec_lines_dec(s: Seq<char>) {
    lemma_first_newline_bounds(s);
}

/// Splits into lines.
pub fn split_lines(s: &Vec<char>) -> (r: Vec<Vec<char>>)
    ensures
        r.deep_view() == spec_lines(s@),
    decreases s@.len(),
{
    let n: usize = s.len();
    if n == 0 {
        let out: Vec<Vec<char>> = Vec::new();
        proof {
            assert(out.deep_view() =~= spec_lines(s@));
        }
        return out;
    }
    let mut i: usize = 0;
    while i < n && s[i] != '\n'
        invariant
            0 <= i <= n,
            n == s@.len(),
            forall|j: int| 0 <= j < i ==> s@[j] != '\n',
        decreases n - i,
    {
        i += 1;
    }
    proof {
        lemma_first_newline_eq(s@, i as int);
    }
    let mut first: Vec<char> = Vec::new();
    let mut k: usize = 0;
    while k < i
        invariant
            0 <= k <= i <= n,
            n == s@.len(),
            first@ == s@.take(k as int),
        decreases i - k,
    {
        first.push(s[k]);
        k += 1;
        proof {
            assert(s@.take(k as int) =~= s@.take(k as int - 1).push(s@[k as int - 1]));
        }
    }
    if i == n {
        let mut out: Vec<Vec<char>> = Vec::new();
        proof {
            assert(first@ =~= s@);
        }
        out.push(first);
        proof {
            assert(first_newline(s@) == i as int);
            assert(spec_lines(s@) == seq![s@]);
            assert(out.deep_view().len() == 1);
            assert(out.deep_view()[0] == out@[0]@);
            assert(out.deep_view() =~= spec_lines(s@));
        }
        out
    } else {
        let mut rest: Vec<char> = Vec::new();
        let mut k: usize = i + 1;
        while k < n
            invariant
                i + 1 <= k <= n,
                n == s@.len(),
                rest@ == s@.subrange(i + 1, k as int),
            decreases n - k,
        {
            rest.push(s[k]);
            k += 1;
            proof {
                assert(s@.subrange(i + 1, k as int) =~= s@.subrange(i + 1, k as int - 1).push(
                    s@[k as int - 1],
                ));
            }
        }
        proof {
            assert(rest@ =~= s@.skip(i + 1));
            assert(rest@.len() < s@.len());
        }
        let tail = split_lines(&rest);
        let mut out: Vec<Vec<char>> = Vec::new();
        out.push(first);
        let mut k: usize = 0;
        while k < tail.len()
            invariant
                0 <= k <= tail@.len(),
                out@.len() == k + 1,
                out@[0]@ == s@.take(i as int),
                forall|j: int| 0 <= j < k ==> out@[j + 1]@ == tail@[j]@,
            decreases tail@.len() - k,
        {
            out.push(clone_chars(&tail[k]));
            k += 1;
        }
        proof {
            assert(tail.deep_view() == spec_lines(s@.skip(i + 1)));
            assert(out.deep_view() =~= seq![s@.take(i as int)] + spec_lines(s@.skip(i + 1))) by {
                assert(out.deep_view().len() == tail@.len() + 1);
                assert(out.deep_view()[0] == out@[0]@);
                assert forall|j: int| 0 <= j < tail@.len() implies #[trigger] out.deep_view()[j
                    + 1] == spec_lines(s@.skip(i + 1))[j] by {
                    assert(out.deep_view()[j + 1] == out@[j + 1]@);
                    assert(tail.deep_view()[j] == tail@[j]@);
                    assert(out@[j + 1]@ == tail@[j]@);
                }
            }
            assert(first_newline(s@) == i as int);
            assert(out.deep_view() =~= spec_lines(s@));
        }
        out
    }
}

proof fn lemma_first_newline_eq(s: Seq<char>, i: int)
    requires
        0 <= i <= s.len(),
        forall|j: int| 0 <= j < i ==> s[j] != '\n',
        i < s.len() ==> s[i] == '\n',
    ensures
        first_newline(s) == i,
    decreases i,
{
    lemma_first_newline_bounds(s);
    if i > 0 {
        assert(s[0] != '\n');
        assert(forall|j: int| 0 <= j < i - 1 ==> s.drop_first()[j] != '\n');
        assert(i - 1 < s.drop_first().len() ==> s.drop_first()[i - 1] == '\n');
        lemma_first_newline_eq(s.drop_first(), i - 1);
    }
}

pub fn clone_chars(v: &Vec<char>) -> (r: Vec<char>)
    ensures
        r@ == v@,
{
    let mut out: Vec<char> = Vec::new();
    let mut i: usize = 0;
    while i < v.len()
        invariant
            0 <= i <= v@.len(),
            out@ == v@.take(i as int),
        decreases v@.len() - i,
    {
        out.push(v[i]);
        i += 1;
        proof {
            assert(v@.take(i as int) =~= v@.take(i as int - 1).push(v@[i as int - 1]));
        }
    }
    proof {
        assert(v@.take(v@.len() as int) =~= v@);
    }
    out
}

/// `p` is a suffix of `s`.
pub open spec fn spec_ends_with(s: Seq<char>, p: Seq<char>) -> bool {
    p.len() <= s.len() && s.subrange(s.len() - p.len(), s.len() as int) == p
}

pub fn ends_with_chars(s: &Vec<char>, p: &Vec<char>) -> (b: bool)
    ensures
        b == spec_ends_with(s@, p@),
{
    let n: usize = s.len();
    let m: usize = p.len();
    if m > n {
        return false;
    }
    let mut k: usize = 0;
    while k < m
        invariant
            0 <= k <= m <= n,
            n == s@.len(),
            m == p@.len(),
            forall|j: int| 0 <= j < k ==> s@[n - m + j] == p@[j],
        decreases m - k,
    {
        if s[n - m + k] != p[k] {
            assert(s@.subrange(n - m, n as int)[k as int] != p@[k as int]);
            return false;
        }
        k += 1;
    }
    assert(s@.subrange(n - m, n as int) =~= p@);
    true
}


/// Strict lexicographic order on character sequences, by code point; a
/// proper prefix comes first.
pub open spec fn lex_lt_from(a: Seq<char>, b: Seq<char>, k: int) -> bool
    decreases a.len() - k,
    when 0 <= k <= a.len() && k <= b.len()
{
    if k == a.len() {
        k < b.len()
    } else if k == b.len() {
        false
    } else if a[k] == b[k] {
        lex_lt_from(a, b, k + 1)
    } else {
        a[k] < b[k]
    }
}

pub open spec fn lex_lt(a: Seq<char>, b: Seq<char>) -> bool {
    lex_lt_from(a, b, 0)
}

/// The order is irreflexive.
proof fn lemma_lex_irrefl(a: Seq<char>, k: int)
    requires
        0 <= k <= a.len(),
    ensures
        !lex_lt_from(a, a, k),
    decreases a.len() - k,
{
    if k < a.len() {
        lemma_lex_irrefl(a, k + 1);
    }
}

/// The order is total: distinct sequences compare one way or the other.
proof fn lemma_lex_total(a: Seq<char>, b: Seq<char>, k: int)
    requires
        0 <= k <= a.len(),
        k <= b.len(),
        a.skip(k) != b.skip(k),
    ensures
        lex_lt_from(a, b, k) || lex_lt_from(b, a, k),
    decreases a.len() - k,
{
    if k == a.len() {
        assert(a.skip(k).len() == 0);
        if k == b.len() {
            assert(a.skip(k) =~= b.skip(k));
        }
    } else if k == b.len() {
    } else if a[k] != b[k] {
    } else {
        assert(a.skip(k + 1) != b.skip(k + 1)) by {
            if a.skip(k + 1) == b.skip(k + 1) {
                assert(a.skip(k) =~= b.skip(k)) by {
                    assert(a.skip(k).len() == b.skip(k).len()) by {
                        assert(a.skip(k + 1).len() == b.skip(k + 1).len());
                    }
                    assert forall|m: int| 0 <= m < a.skip(k).len() implies a.skip(k)[m] == b.skip(
                        k,
                    )[m] by {
                        if m > 0 {
                            assert(a.skip(k + 1)[m - 1] == b.skip(k + 1)[m - 1]);
                        }
                    }
                }
            }
        }
        lemma_lex_total(a, b, k + 1);
    }
}

/// The order is transitive.
proof fn lemma_lex_trans(a: Seq<char>, b: Seq<char>, c: Seq<char>, k: int)
    requires
        0 <= k <= a.len(),
        k <= b.len(),
        k <= c.len(),
        lex_lt_from(a, b, k),
        lex_lt_from(b, c, k),
    ensures
        lex_lt_from(a, c, k),
    decreases a.len() - k,
{
    if k == a.len() {
        if k < b.len() && k < c.len() {
        }
    } else if k < b.len() && k < c.len() && a[k] == b[k] && b[k] == c[k] {
        lemma_lex_trans(a, b, c, k + 1);
    } else {
    }
}

/// Compares two character vectors lexicographically.
pub fn lex_less(a: &Vec<char>, b: &Vec<char>) -> (r: bool)
    ensures
        r == lex_lt(a@, b@),
{
    let alen: usize = a.len();
    let blen: usize = b.len();
    let mut k: usize = 0;
    while k < alen && k < blen
        invariant
            0 <= k <= alen,
            k <= blen,
            alen == a@.len(),
            blen == b@.len(),
            lex_lt(a@, b@) == lex_lt_from(a@, b@, k as int),
        decreases alen - k,
    {
        let x = a[k];
        let y = b[k];
        if x != y {
            return x < y;
        }
        k += 1;
    }
    k == alen && k < blen
}

/// A line that looks like a JSON file path: non-empty after trimming,
/// and its lower-cased form ends with `.json` or mentions `.json`
/// followed by a space or a tab.
pub open spec fn manifest_candidate(line: Seq<char>) -> bool {
    let t = spec_trim(line);
    let l = spec_lower(t);
    &&& t.len() > 0
    &&& (spec_ends_with(l, ".json"@) || spec_contains(l, ".json "@) || spec_contains(
        l,
        ".json\t"@,
    ))
}

/// Strictly sorted: every element is lexicographically below the next,
/// which also makes the elements pairwise distinct.
pub open spec fn strictly_sorted(v: Seq<Seq<char>>) -> bool {
    forall|i: int, j: int| 0 <= i < j < v.len() ==> lex_lt(#[trigger] v[i], #[trigger] v[j])
}

/// Inserts into a strictly sorted vector, keeping it sorted and
/// ignoring an element already present.
fn sorted_insert(v: &mut Vec<Vec<char>>, x: Vec<char>)
    requires
        strictly_sorted(old(v).deep_view()),
    ensures
        strictly_sorted(final(v).deep_view()),
        final(v).deep_view().to_set() == old(v).deep_view().to_set().insert(x@),
{
    let n: usize = v.len();
    let mut idx: usize = 0;
    while idx < n && lex_less(&v[idx], &x)
        invariant
            0 <= idx <= n,
            n == v@.len(),
            strictly_sorted(v.deep_view()),
            forall|j: int| 0 <= j < idx ==> lex_lt(#[trigger] v.deep_view()[j], x@),
        decreases n - idx,
    {
        proof {
            assert(v.deep_view()[idx as int] == v@[idx as int]@);
        }
        idx += 1;
    }
    proof {
        if idx < n {
            assert(v.deep_view()[idx as int] == v@[idx as int]@);
        }
    }
    if idx < n {
        if eq_chars(&v[idx], &x) {
            proof {
                assert(v.deep_view()[idx as int] == x@);
                assert(v.deep_view().to_set().contains(x@));
                assert(v.deep_view().to_set() =~= v.deep_view().to_set().insert(x@));
            }
            return ;
        }
    }
    let ghost oldv = v.deep_view();
    proof {
        if idx < oldv.len() {
            assert(!lex_lt(oldv[idx as int], x@));
            assert(oldv[idx as int] != x@);
            assert(oldv[idx as int].skip(0) =~= oldv[idx as int]);
            assert(x@.skip(0) =~= x@);
            lemma_lex_total(oldv[idx as int], x@, 0);
            assert(lex_lt(x@, oldv[idx as int]));
        }
    }
    v.insert(idx, x);
    proof {
        let newv = v.deep_view();
        assert(newv.len() == oldv.len() + 1);
        assert(newv[idx as int] == x@);
        assert forall|j: int| 0 <= j < newv.len() implies #[trigger] newv[j] == (if j < idx {
            oldv[j]
        } else if j == idx {
            x@
        } else {
            oldv[j - 1]
        }) by {
            assert(v@ == old(v)@.insert(idx as int, x));
        }
        assert forall|i: int, j: int| 0 <= i < j < newv.len() implies lex_lt(
            #[trigger] newv[i],
            #[trigger] newv[j],
        ) by {
            if i < idx && j < idx {
            } else if i < idx && j == idx {
                assert(lex_lt(oldv[i], x@));
            } else if i < idx && j > idx {
                assert(lex_lt(oldv[i], oldv[j - 1]));
            } else if i == idx && j > idx {
                if idx < oldv.len() {
                    if j - 1 == idx {
                        assert(lex_lt(x@, oldv[idx as int]));
                    } else {
                        lemma_lex_trans(x@, oldv[idx as int], oldv[j - 1], 0);
                    }
                }
            } else {
                assert(lex_lt(oldv[i - 1], oldv[j - 1]));
            }
        }
        assert(newv.to_set() =~= oldv.to_set().insert(x@)) by {
            assert forall|e: Seq<char>| newv.to_set().contains(e) implies oldv.to_set().insert(
                x@,
            ).contains(e) by {
                let j = choose|j: int| 0 <= j < newv.len() && newv[j] == e;
                if j != idx {
                    if j < idx {
                        assert(oldv[j] == e);
                    } else {
                        assert(oldv[j - 1] == e);
                    }
                    assert(oldv.to_set().contains(e));
                }
            }
            assert forall|e: Seq<char>| oldv.to_set().insert(x@).contains(e) implies newv.to_set()
                .contains(e) by {
                if e == x@ {
                    assert(newv[idx as int] == e);
                } else {
                    let j = choose|j: int| 0 <= j < oldv.len() && oldv[j] == e;
                    if j < idx {
                        assert(newv[j] == e);
                    } else {
                        assert(newv[j + 1] == e);
                    }
                }
            }
        }
    }
}

/// The set of trimmed candidate lines of a report.
pub open spec fn manifest_path_set(text: Seq<char>) -> Set<Seq<char>> {
    spec_lines(text).filter(|line: Seq<char>| manifest_candidate(line)).map_values(
        |line: Seq<char>| spec_trim(line),
    ).to_set()
}

/// The trimmed candidate lines of a report, deduplicated and sorted.
pub fn extract_manifest_paths(text: &String) -> (r: Vec<String>)
    ensures
        strictly_sorted(r.deep_view()),
        r.deep_view().to_set() == manifest_path_set(text@),
        r.deep_view() == canon_sorted(manifest_path_set(text@)),
{
    let cs = chars_of_string(text);
    let lines = split_lines(&cs);
    let mut acc: Vec<Vec<char>> = Vec::new();
    let ghost cand = |line: Seq<char>| manifest_candidate(line);
    let ghost trimmed = |line: Seq<char>| spec_trim(line);
    proof {
        reveal(Seq::filter);
        assert(lines.deep_view().take(0) =~= Seq::<Seq<char>>::empty());
        assert(acc.deep_view().to_set() =~= lines.deep_view().take(0).filter(cand).map_values(
            trimmed,
        ).to_set());
    }
    let mut i: usize = 0;
    while i < lines.len()
        invariant
            0 <= i <= lines@.len(),
            lines.deep_view().len() == lines@.len(),
            forall|j: int| 0 <= j < lines@.len() ==> lines.deep_view()[j] == lines@[j]@,
            cand == (|line: Seq<char>| manifest_candidate(line)),
            trimmed == (|line: Seq<char>| spec_trim(line)),
            strictly_sorted(acc.deep_view()),
            acc.deep_view().to_set() == lines.deep_view().take(i as int).filter(
                cand,
            ).map_values(trimmed).to_set(),
        decreases lines@.len() - i,
    {
        let line = &lines[i];
        let t = trim_chars(line);
        let keep: bool = if t.len() == 0 {
            false
        } else {
            let l = lower_chars(&t);
            let suffix = chars_of_str(".json");
            let sp = chars_of_str(".json ");
            let tb = chars_of_str(".json\t");
            ends_with_chars(&l, &suffix) || contains_chars(&l, &sp) || contains_chars(&l, &tb)
        };
        proof {
            assert(lines.deep_view()[i as int] == lines@[i as int]@);
            assert(keep == manifest_candidate(lines.deep_view()[i as int]));
        }
        let ghost prefix = lines.deep_view().take(i as int);
        if keep {
            sorted_insert(&mut acc, t);
        }
        i += 1;
        proof {
            let x = lines.deep_view()[i - 1];
            assert(lines.deep_view().take(i as int) =~= prefix.push(x));
            crate::actions::lemma_filter_push(prefix, x, cand);
            if cand(x) {
                assert(prefix.push(x).filter(cand).map_values(trimmed) =~= prefix.filter(
                    cand,
                ).map_values(trimmed).push(spec_trim(x)));
                assert(prefix.push(x).filter(cand).map_values(trimmed).to_set() =~= prefix.filter(
                    cand,
                ).map_values(trimmed).to_set().insert(spec_trim(x))) by {
                    lemma_to_set_push(prefix.filter(cand).map_values(trimmed), spec_trim(x));
                }
            } else {
                assert(prefix.push(x).filter(cand) =~= prefix.filter(cand));
            }
        }
    }
    proof {
        assert(lines.deep_view().take(lines@.len() as int) =~= lines.deep_view());
    }
    let mut out: Vec<String> = Vec::new();
    let mut i: usize = 0;
    while i < acc.len()
        invariant
            0 <= i <= acc@.len(),
            out@.len() == i,
            forall|j: int| 0 <= j < i ==> out@[j]@ == acc@[j]@,
        decreases acc@.len() - i,
    {
        out.push(string_of_chars(&acc[i]));
        i += 1;
    }
    proof {
        assert forall|j: int| 0 <= j < acc@.len() implies #[trigger] out.deep_view()[j]
            == acc.deep_view()[j] by {
            assert(out.deep_view()[j] == out@[j]@);
            assert(acc.deep_view()[j] == acc@[j]@);
        }
        assert(out.deep_view() =~= acc.deep_view());
        let gset = manifest_path_set(text@);
        assert(strictly_sorted(out.deep_view()) && out.deep_view().to_set() == gset);
        assert(exists|v: Seq<Seq<char>>| strictly_sorted(v) && #[trigger] v.to_set() == gset) by {
            assert(strictly_sorted(out.deep_view()) && out.deep_view().to_set() == gset);
        }
        lemma_sorted_unique(canon_sorted(gset), out.deep_view());
    }
    out
}

proof fn lemma_to_set_push(s: Seq<Seq<char>>, x: Seq<char>)
    ensures
        s.push(x).to_set() == s.to_set().insert(x),
{
    assert(s.push(x).to_set() =~= s.to_set().insert(x)) by {
        assert forall|e: Seq<char>| s.push(x).to_set().contains(e) implies s.to_set().insert(
            x,
        ).contains(e) by {
            let j = choose|j: int| 0 <= j < s.push(x).len() && s.push(x)[j] == e;
            if j < s.len() {
                assert(s[j] == e);
            }
        }
        assert forall|e: Seq<char>| s.to_set().insert(x).contains(e) implies s.push(x).to_set()
            .contains(e) by {
            if e == x {
                assert(s.push(x)[s.len() as int] == e);
            } else {
                let j = choose|j: int| 0 <= j < s.len() && s[j] == e;
                assert(s.push(x)[j] == e);
            }
        }
    }
}


/// The classified self-check report of the layer registration.
#[derive(Debug)]
pub struct VulkanLayerDiagnosis {
    pub supported: bool,
    pub needs_attention: bool,
    pub unfixable: bool,
    pub need_elevation: bool,
    pub this_install_registered: Option<bool>,
    pub other_installs_registered: Option<bool>,
    pub conflicting_manifests: Vec<String>,
    pub summary: String,
    pub stdout: String,
    pub stderr: String,
    pub suggested_commands: Vec<String>,
}

#[derive(Debug)]
pub enum VulkanLayerDiagnosisError {
    Spawn(String),
    InvalidUtf8,
}

/// The text the classifier scans: both streams, lower-cased.
pub open spec fn diag_combined(stdout: Seq<char>, stderr: Seq<char>) -> Seq<char> {
    stderr + seq!['\n'] + stdout
}

/// The self-check sub-command itself was not recognized.
pub open spec fn spec_unsupported(l: Seq<char>) -> bool {
    ||| spec_contains(l, "is not a valid command"@)
    ||| spec_contains(l, "not a valid command"@)
    ||| spec_contains(l, "unknown command"@)
    ||| spec_contains(l, "unrecognized command"@)
}

pub open spec fn spec_layer_ok(l: Seq<char>) -> bool {
    spec_contains(l, "appears to be correctly registered"@)
}

pub open spec fn spec_layer_unfixable(l: Seq<char>) -> bool {
    spec_contains(l, "unfixable problem"@)
}

pub open spec fn spec_needs_attention(l: Seq<char>) -> bool {
    !spec_layer_ok(l) && (spec_contains(l, "vulkan layer"@) || spec_layer_unfixable(l))
}

pub open spec fn spec_need_elevation(l: Seq<char>) -> bool {
    ||| spec_contains(l, "administrator"@)
    ||| spec_contains(l, "admin privileges"@)
    ||| spec_contains(l, "elevation"@)
}

/// Everything the classifier promises of its result, given the
/// executable path it names in remediation commands and the two
/// captured streams.
pub open spec fn vulkan_layer_diagnosis_post(
    exe: Seq<char>,
    stdout: Seq<char>,
    stderr: Seq<char>,
    d: VulkanLayerDiagnosis,
) -> bool {
    let combined = diag_combined(stdout, stderr);
    let l = spec_lower(combined);
    let ok = spec_layer_ok(l);
    let unfix = spec_layer_unfixable(l);
    let na = spec_needs_attention(l);
    &&& d.stdout@ == stdout
    &&& d.stderr@ == stderr
    &&& d.supported == !spec_unsupported(l)
    &&& (!d.supported ==> {
        &&& !d.needs_attention
        &&& !d.unfixable
        &&& !d.need_elevation
        &&& d.this_install_registered is None
        &&& d.other_installs_registered is None
        &&& d.conflicting_manifests@.len() == 0
        &&& d.suggested_commands@.len() == 0
        &&& d.summary@ == "renderdoccmd does not support the `vulkanlayer` command (too old?)"@
    })
    &&& (d.supported ==> {
        &&& d.unfixable == unfix
        &&& d.needs_attention == na
        &&& d.need_elevation == spec_need_elevation(l)
        &&& d.this_install_registered == (if spec_contains(
            l,
            "this build's renderdoc layer is not registered"@,
        ) {
            Some(false)
        } else if ok {
            Some(true)
        } else {
            None::<bool>
        })
        &&& d.other_installs_registered == (if spec_contains(l, "non-matching renderdoc layer"@)
            || spec_contains(l, "other installs registered"@) {
            Some(true)
        } else {
            None::<bool>
        })
        &&& strictly_sorted(d.conflicting_manifests.deep_view())
        &&& d.conflicting_manifests.deep_view() == canon_sorted(manifest_path_set(combined))
        &&& d.conflicting_manifests.deep_view().to_set() == manifest_path_set(combined)
        &&& (na ==> d.suggested_commands.deep_view() == seq![
            seq!['"'] + exe + "\" vulkanlayer --register --user"@,
            seq!['"'] + exe + "\" vulkanlayer --register --system"@,
        ])
        &&& (!na ==> d.suggested_commands@.len() == 0)
        &&& d.summary@ == (if ok {
            "RenderDoc Vulkan layer is correctly registered"@
        } else if unfix {
            "RenderDoc Vulkan layer configuration has an unfixable problem"@
        } else if na {
            "RenderDoc Vulkan layer is not correctly registered"@
        } else {
            "RenderDoc Vulkan layer status is unknown"@
        })
    })
}

/// `"exe" <suffix>`: a remediation command naming the executable.
fn quoted_command(exe: &String, suffix: &str) -> (r: String)
    ensures
        r@ == seq!['"'] + exe@ + suffix@,
{
    let mut out: Vec<char> = Vec::new();
    out.push('"');
    let e = chars_of_string(exe);
    let mut i: usize = 0;
    while i < e.len()
        invariant
            0 <= i <= e@.len(),
            e@ == exe@,
            out@ == seq!['"'] + exe@.take(i as int),
        decreases e@.len() - i,
    {
        out.push(e[i]);
        i += 1;
        proof {
            assert(seq!['"'] + exe@.take(i as int) =~= (seq!['"'] + exe@.take(i as int - 1)).push(
                exe@[i as int - 1],
            ));
        }
    }
    proof {
        assert(exe@.take(exe@.len() as int) =~= exe@);
    }
    let sfx = chars_of_str(suffix);
    let ghost base = seq!['"'] + exe@;
    let mut i: usize = 0;
    while i < sfx.len()
        invariant
            0 <= i <= sfx@.len(),
            sfx@ == suffix@,
            out@ == base + suffix@.take(i as int),
            base == seq!['"'] + exe@,
        decreases sfx@.len() - i,
    {
        out.push(sfx[i]);
        i += 1;
        proof {
            assert(base + suffix@.take(i as int) =~= (base + suffix@.take(i as int - 1)).push(
                suffix@[i as int - 1],
            ));
        }
    }
    proof {
        assert(suffix@.take(suffix@.len() as int) =~= suffix@);
    }
    string_of_chars(&out)
}

fn contains_phrase(hay: &Vec<char>, phrase: &str) -> (b: bool)
    ensures
        b == spec_contains(hay@, phrase@),
{
    let p = chars_of_str(phrase);
    contains_chars(hay, &p)
}

/// Classifies the self-check output: phrase checks decide support,
/// registration, elevation and attention; candidate manifest paths are
/// collected from the raw (un-lowered) text.
pub fn diagnose_vulkan_layer_output(
    renderdoccmd_exe: &String,
    stdout: String,
    stderr: String,
) -> (d: VulkanLayerDiagnosis)
    ensures
        vulkan_layer_diagnosis_post(renderdoccmd_exe@, stdout@, stderr@, d),
{
    let mut combined: Vec<char> = chars_of_string(&stderr);
    combined.push('\n');
    let so = chars_of_string(&stdout);
    let mut i: usize = 0;
    while i < so.len()
        invariant
            0 <= i <= so@.len(),
            so@ == stdout@,
            combined@ == stderr@ + seq!['\n'] + stdout@.take(i as int),
        decreases so@.len() - i,
    {
        combined.push(so[i]);
        i += 1;
        proof {
            assert(stderr@ + seq!['\n'] + stdout@.take(i as int) =~= (stderr@ + seq!['\n']
                + stdout@.take(i as int - 1)).push(stdout@[i as int - 1]));
        }
    }
    proof {
        assert(stdout@.take(stdout@.len() as int) =~= stdout@);
        assert(combined@ =~= diag_combined(stdout@, stderr@));
    }
    let lower = lower_chars(&combined);
    let supported = !(contains_phrase(&lower, "is not a valid command") || contains_phrase(
        &lower,
        "not a valid command",
    ) || contains_phrase(&lower, "unknown command") || contains_phrase(
        &lower,
        "unrecognized command",
    ));
    if !supported {
        return VulkanLayerDiagnosis {
            supported: false,
            needs_attention: false,
            unfixable: false,
            need_elevation: false,
            this_install_registered: None,
            other_installs_registered: None,
            conflicting_manifests: Vec::new(),
            summary: String::from_str(
                "renderdoccmd does not support the `vulkanlayer` command (too old?)",
            ),
            stdout,
            stderr,
            suggested_commands: Vec::new(),
        };
    }
    let ok = contains_phrase(&lower, "appears to be correctly registered");
    let unfixable = contains_phrase(&lower, "unfixable problem");
    let needs_attention = !ok && (contains_phrase(&lower, "vulkan layer") || unfixable);
    let need_elevation = contains_phrase(&lower, "administrator") || contains_phrase(
        &lower,
        "admin privileges",
    ) || contains_phrase(&lower, "elevation");
    let this_install_registered: Option<bool> = if contains_phrase(
        &lower,
        "this build's renderdoc layer is not registered",
    ) {
        Some(false)
    } else if ok {
        Some(true)
    } else {
        None
    };
    let other_installs_registered: Option<bool> = if contains_phrase(
        &lower,
        "non-matching renderdoc layer",
    ) || contains_phrase(&lower, "other installs registered") {
        Some(true)
    } else {
        None
    };
    let combined_text = string_of_chars(&combined);
    let conflicting_manifests = extract_manifest_paths(&combined_text);
    let mut suggested_commands: Vec<String> = Vec::new();
    if needs_attention {
        suggested_commands.push(
            quoted_command(renderdoccmd_exe, "\" vulkanlayer --register --user"),
        );
        suggested_commands.push(
            quoted_command(renderdoccmd_exe, "\" vulkanlayer --register --system"),
        );
        proof {
            assert(suggested_commands.deep_view() =~= seq![
                seq!['"'] + renderdoccmd_exe@ + "\" vulkanlayer --register --user"@,
                seq!['"'] + renderdoccmd_exe@ + "\" vulkanlayer --register --system"@,
            ]);
        }
    }
    let summary = if ok {
        String::from_str("RenderDoc Vulkan layer is correctly registered")
    } else if unfixable {
        String::from_str("RenderDoc Vulkan layer configuration has an unfixable problem")
    } else if needs_attention {
        String::from_str("RenderDoc Vulkan layer is not correctly registered")
    } else {
        String::from_str("RenderDoc Vulkan layer status is unknown")
    };
    VulkanLayerDiagnosis {
        supported: true,
        needs_attention,
        unfixable,
        need_elevation,
        this_install_registered,
        other_installs_registered,
        conflicting_manifests,
        summary,
        stdout,
        stderr,
        suggested_commands,
    }
}


/// The order is asymmetric.
proof fn lemma_lex_asym(a: Seq<char>, b: Seq<char>)
    requires
        lex_lt(a, b),
    ensures
        !lex_lt(b, a),
{
    if lex_lt(b, a) {
        lemma_lex_trans(a, b, a, 0);
        lemma_lex_irrefl(a, 0);
    }
}

/// A strictly sorted sequence is determined by its element set.
pub proof fn lemma_sorted_unique(a: Seq<Seq<char>>, b: Seq<Seq<char>>)
    requires
        strictly_sorted(a),
        strictly_sorted(b),
        a.to_set() == b.to_set(),
    ensures
        a == b,
    decreases a.len(),
{
    if a.len() == 0 {
        if b.len() > 0 {
            assert(b.to_set().contains(b[0]));
            assert(a.to_set().contains(b[0]));
        }
        assert(a =~= b);
    } else {
        if b.len() == 0 {
            assert(a.to_set().contains(a[0]));
            assert(b.to_set().contains(a[0]));
        }
        let x = a.last();
        let y = b.last();
        assert(a.to_set().contains(x)) by {
            assert(a[a.len() - 1] == x);
        }
        assert(b.to_set().contains(y)) by {
            assert(b[b.len() - 1] == y);
        }
        assert(x == y) by {
            let j = choose|j: int| 0 <= j < b.len() && b[j] == x;
            let k = choose|k: int| 0 <= k < a.len() && a[k] == y;
            if j < b.len() - 1 {
                assert(lex_lt(b[j], b[b.len() - 1]));
                if k < a.len() - 1 {
                    assert(lex_lt(a[k], a[a.len() - 1]));
                    lemma_lex_asym(x, y);
                }
            }
        }
        let ad = a.drop_last();
        let bd = b.drop_last();
        assert(ad.to_set() =~= a.to_set().remove(x)) by {
            assert forall|e: Seq<char>| ad.to_set().contains(e) implies a.to_set().remove(
                x,
            ).contains(e) by {
                let j = choose|j: int| 0 <= j < ad.len() && ad[j] == e;
                assert(a[j] == e);
                assert(lex_lt(a[j], a[a.len() - 1]));
                if e == x {
                    lemma_lex_irrefl(x, 0);
                }
            }
            assert forall|e: Seq<char>| a.to_set().remove(x).contains(e) implies ad.to_set()
                .contains(e) by {
                let j = choose|j: int| 0 <= j < a.len() && a[j] == e;
                assert(j < a.len() - 1) by {
                    if j == a.len() - 1 {
                        assert(e == x);
                    }
                }
                assert(ad[j] == e);
            }
        }
        assert(bd.to_set() =~= b.to_set().remove(y)) by {
            assert forall|e: Seq<char>| bd.to_set().contains(e) implies b.to_set().remove(
                y,
            ).contains(e) by {
                let j = choose|j: int| 0 <= j < bd.len() && bd[j] == e;
                assert(b[j] == e);
                assert(lex_lt(b[j], b[b.len() - 1]));
                if e == y {
                    lemma_lex_irrefl(y, 0);
                }
            }
            assert forall|e: Seq<char>| b.to_set().remove(y).contains(e) implies bd.to_set()
                .contains(e) by {
                let j = choose|j: int| 0 <= j < b.len() && b[j] == e;
                assert(j < b.len() - 1) by {
                    if j == b.len() - 1 {
                        assert(e == y);
                    }
                }
                assert(bd[j] == e);
            }
        }
        assert(strictly_sorted(ad)) by {
            assert forall|i: int, j: int| 0 <= i < j < ad.len() implies lex_lt(
                #[trigger] ad[i],
                #[trigger] ad[j],
            ) by {
                assert(ad[i] == a[i]);
                assert(ad[j] == a[j]);
            }
        }
        assert(strictly_sorted(bd)) by {
            assert forall|i: int, j: int| 0 <= i < j < bd.len() implies lex_lt(
                #[trigger] bd[i],
                #[trigger] bd[j],
            ) by {
                assert(bd[i] == b[i]);
                assert(bd[j] == b[j]);
            }
        }
        lemma_sorted_unique(ad, bd);
        assert(a =~= b) by {
            assert(a.len() == b.len());
            assert forall|i: int| 0 <= i < a.len() implies a[i] == b[i] by {
                if i < a.len() - 1 {
                    assert(ad[i] == bd[i]);
                }
            }
        }
    }
}

/// The one strictly sorted sequence holding exactly the given elements.
pub open spec fn canon_sorted(s: Set<Seq<char>>) -> Seq<Seq<char>> {
    choose|v: Seq<Seq<char>>| strictly_sorted(v) && v.to_set() == s
}


/// One environment variable as handed to the report: its name and its
/// value, if it was set.
#[derive(Debug)]
pub struct EnvironmentVarInfo {
    pub name: String,
    pub value: Option<String>,
}

/// The composite environment report.
#[derive(Debug)]
pub struct EnvironmentDiagnosis {
    pub root_dir: String,
    pub qrenderdoc_exe: String,
    pub renderdoccmd_exe: String,
    pub platform: String,
    pub arch: String,
    pub is_elevated: Option<bool>,
    pub renderdoccmd_version: Option<String>,
    pub vulkan_layer: Option<VulkanLayerDiagnosis>,
    pub vulkan_layer_manifests: Vec<String>,
    pub env: Vec<EnvironmentVarInfo>,
    pub warnings: Vec<String>,
    pub suggested_commands: Vec<String>,
}

/// The value of the first listed variable with the given name, or the
/// empty string when it is absent or unset.
pub open spec fn env_value(env: Seq<EnvironmentVarInfo>, name: Seq<char>, i: int) -> Seq<char>
    decreases env.len() - i,
    when 0 <= i <= env.len()
{
    if i == env.len() {
        Seq::<char>::empty()
    } else if env[i].name@ == name {
        match env[i].value {
            Some(v) => v@,
            None => Seq::<char>::empty(),
        }
    } else {
        env_value(env, name, i + 1)
    }
}

/// The parts joined with the separator between them.
pub open spec fn spec_sep_join(parts: Seq<Seq<char>>, sep: Seq<char>) -> Seq<char>
    decreases parts.len(),
{
    if parts.len() == 0 {
        Seq::<char>::empty()
    } else if parts.len() == 1 {
        parts[0]
    } else {
        spec_sep_join(parts.drop_last(), sep) + sep + parts.last()
    }
}

/// The index of the last path separator, or a negative value when
/// there is none.
pub open spec fn last_sep(s: Seq<char>) -> int
    decreases s.len(),
{
    if s.len() == 0 {
        -1
    } else if s.last() == '/' || s.last() == '\\' {
        s.len() - 1
    } else {
        last_sep(s.drop_last())
    }
}

/// The directory part of a path: everything before the last separator,
/// empty when the path has none.
pub open spec fn parent_dir(s: Seq<char>) -> Seq<char> {
    if last_sep(s) < 0 {
        Seq::<char>::empty()
    } else {
        s.take(last_sep(s))
    }
}

proof fn lemma_last_sep_bounds(s: Seq<char>)
    ensures
        -1 <= last_sep(s) < s.len(),
    decreases s.len(),
{
    if s.len() > 0 && !(s.last() == '/' || s.last() == '\\') {
        lemma_last_sep_bounds(s.drop_last());
    }
}

proof fn lemma_last_sep_eq(s: Seq<char>, k: int)
    requires
        -1 <= k < s.len(),
        k >= 0 ==> (s[k] == '/' || s[k] == '\\'),
        forall|j: int| k < j < s.len() ==> !(s[j] == '/' || s[j] == '\\'),
    ensures
        last_sep(s) == k,
    decreases s.len(),
{
    if s.len() == 0 {
    } else if s.last() == '/' || s.last() == '\\' {
        assert(k == s.len() - 1) by {
            if k < s.len() - 1 {
                assert(!(s[s.len() - 1] == '/' || s[s.len() - 1] == '\\'));
            }
        }
    } else {
        assert(k < s.len() - 1) by {
            if k == s.len() - 1 {
                assert(s[k] == '/' || s[k] == '\\');
            }
        }
        let d = s.drop_last();
        assert(forall|j: int| k < j < d.len() ==> !(#[trigger] d[j] == '/' || d[j] == '\\'));
        assert(k >= 0 ==> (d[k] == s[k]));
        lemma_last_sep_eq(d, k);
    }
}

fn parent_dir_exec(s: &Vec<char>) -> (r: Vec<char>)
    ensures
        r@ == parent_dir(s@),
{
    let n: usize = s.len();
    let mut b: usize = n;
    while b > 0 && !(s[b - 1] == '/' || s[b - 1] == '\\')
        invariant
            0 <= b <= n,
            n == s@.len(),
            forall|j: int| b <= j < n ==> !(#[trigger] s@[j] == '/' || s@[j] == '\\'),
        decreases b,
    {
        b -= 1;
    }
    if b == 0 {
        proof {
            lemma_last_sep_eq(s@, -1);
        }
        Vec::new()
    } else {
        proof {
            lemma_last_sep_eq(s@, b - 1);
        }
        let mut out: Vec<char> = Vec::new();
        let mut i: usize = 0;
        while i < b - 1
            invariant
                0 <= i <= b - 1,
                b <= n == s@.len(),
                out@ == s@.take(i as int),
            decreases b - 1 - i,
        {
            out.push(s[i]);
            i += 1;
            proof {
                assert(s@.take(i as int) =~= s@.take(i as int - 1).push(s@[i as int - 1]));
            }
        }
        out
    }
}

/// The set of directories the manifest paths lie in.
pub open spec fn manifest_dir_set(manifests: Seq<Seq<char>>) -> Set<Seq<char>> {
    manifests.map_values(|p: Seq<char>| parent_dir(p)).to_set()
}

/// The directories of the detected manifests, deduplicated and sorted.
pub fn manifest_dirs(manifests: &Vec<String>) -> (r: Vec<String>)
    ensures
        strictly_sorted(r.deep_view()),
        r.deep_view().to_set() == manifest_dir_set(manifests.deep_view()),
        r.deep_view() == canon_sorted(manifest_dir_set(manifests.deep_view())),
{
    let mut acc: Vec<Vec<char>> = Vec::new();
    let ghost pmap = |p: Seq<char>| parent_dir(p);
    proof {
        assert(manifests.deep_view().take(0).map_values(pmap) =~= Seq::<Seq<char>>::empty());
        assert(acc.deep_view().to_set() =~= manifests.deep_view().take(0).map_values(
            pmap,
        ).to_set());
    }
    let mut i: usize = 0;
    while i < manifests.len()
        invariant
            0 <= i <= manifests@.len(),
            manifests.deep_view().len() == manifests@.len(),
            forall|j: int|
                0 <= j < manifests@.len() ==> manifests.deep_view()[j] == manifests@[j]@,
            pmap == (|p: Seq<char>| parent_dir(p)),
            strictly_sorted(acc.deep_view()),
            acc.deep_view().to_set() == manifests.deep_view().take(i as int).map_values(
                pmap,
            ).to_set(),
        decreases manifests@.len() - i,
    {
        let cs = chars_of_string(&manifests[i]);
        let pd = parent_dir_exec(&cs);
        let ghost prefix = manifests.deep_view().take(i as int);
        sorted_insert(&mut acc, pd);
        i += 1;
        proof {
            let x = manifests.deep_view()[i - 1];
            assert(manifests.deep_view().take(i as int) =~= prefix.push(x));
            assert(prefix.push(x).map_values(pmap) =~= prefix.map_values(pmap).push(pmap(x)));
            lemma_to_set_push(prefix.map_values(pmap), pmap(x));
        }
    }
    proof {
        assert(manifests.deep_view().take(manifests@.len() as int) =~= manifests.deep_view());
    }
    let mut out: Vec<String> = Vec::new();
    let mut i: usize = 0;
    while i < acc.len()
        invariant
            0 <= i <= acc@.len(),
            out@.len() == i,
            forall|j: int| 0 <= j < i ==> out@[j]@ == acc@[j]@,
        decreases acc@.len() - i,
    {
        out.push(string_of_chars(&acc[i]));
        i += 1;
    }
    proof {
        assert forall|j: int| 0 <= j < acc@.len() implies #[trigger] out.deep_view()[j]
            == acc.deep_view()[j] by {
            assert(out.deep_view()[j] == out@[j]@);
            assert(acc.deep_view()[j] == acc@[j]@);
        }
        assert(out.deep_view() =~= acc.deep_view());
        let gset = manifest_dir_set(manifests.deep_view());
        assert(strictly_sorted(out.deep_view()) && out.deep_view().to_set() == gset);
        assert(exists|v: Seq<Seq<char>>| strictly_sorted(v) && #[trigger] v.to_set() == gset) by {
            assert(strictly_sorted(out.deep_view()) && out.deep_view().to_set() == gset);
        }
        lemma_sorted_unique(canon_sorted(gset), out.deep_view());
    }
    out
}


/// The warnings of the environment report, in their fixed append order:
/// platform support, architecture support, the layer diagnosis summary,
/// elevation, the two loader variables, and the manifest-directory
/// cross-check.
pub open spec fn spec_env_warnings(
    root_dir: Seq<char>,
    platform: Seq<char>,
    arch: Seq<char>,
    is_elevated: Option<bool>,
    vk: Option<VulkanLayerDiagnosis>,
    manifests: Seq<Seq<char>>,
    env: Seq<EnvironmentVarInfo>,
) -> Seq<Seq<char>> {
    let vil = env_value(env, "VK_INSTANCE_LAYERS"@, 0);
    let vlp = env_value(env, "VK_LAYER_PATH"@, 0);
    let dirs = canon_sorted(manifest_dir_set(manifests));
    Seq::<Seq<char>>::empty() + (if platform == "macos"@ {
        seq![
            "RenderDoc on macOS is experimental and not officially supported for debugging; capture/replay may be unreliable."@,
        ]
    } else {
        Seq::<Seq<char>>::empty()
    }) + (if platform == "linux"@ && arch != "x86_64"@ {
        seq![
            "RenderDoc officially supports only x86_64 Linux; current arch is `"@ + arch
                + "` (ARM/32-bit targets are not supported)."@,
        ]
    } else {
        Seq::<Seq<char>>::empty()
    }) + (if platform == "windows"@ && arch != "x86_64"@ {
        seq![
            "RenderDoc Windows support is primarily x86_64; current arch is `"@ + arch
                + "` and may not work."@,
        ]
    } else {
        Seq::<Seq<char>>::empty()
    }) + (match vk {
        Some(v) => if !v.supported || v.unfixable || v.needs_attention {
            seq![v.summary@]
        } else {
            Seq::<Seq<char>>::empty()
        },
        None => Seq::<Seq<char>>::empty(),
    }) + (if (match vk {
        Some(v) => v.need_elevation && v.needs_attention,
        None => false,
    }) && is_elevated == Some(false) {
        seq![
            "Vulkan layer registration may require administrator privileges. Re-run the registration command as administrator."@,
        ]
    } else {
        Seq::<Seq<char>>::empty()
    }) + (if vil.len() > 0 && !spec_contains(vil, "VK_LAYER_RENDERDOC_Capture"@) {
        seq![
            "VK_INSTANCE_LAYERS is set but does not include VK_LAYER_RENDERDOC_Capture; this can prevent RenderDoc's layer from being enabled."@,
        ]
    } else {
        Seq::<Seq<char>>::empty()
    }) + (if vlp.len() > 0 && !spec_contains(vlp, root_dir) {
        seq![
            "VK_LAYER_PATH is set; if Vulkan capture fails, ensure it includes the RenderDoc layer JSON location or unregister conflicting installs."@,
        ]
    } else {
        Seq::<Seq<char>>::empty()
    }) + (if manifests.len() > 0 && dirs.len() > 0 && vlp.len() > 0 && !(exists|k: int|
        0 <= k < dirs.len() && spec_contains(vlp, #[trigger] dirs[k])) {
        seq![
            "VK_LAYER_PATH is set but does not appear to include the RenderDoc Vulkan layer manifest directory. Detected manifest dirs: "@
                + spec_sep_join(dirs, " | "@),
        ]
    } else {
        Seq::<Seq<char>>::empty()
    })
}

/// The suggested commands of the environment report, in their fixed
/// append order.
pub open spec fn spec_env_suggestions(
    renderdoccmd_exe: Seq<char>,
    root_dir: Seq<char>,
    platform: Seq<char>,
    vk: Option<VulkanLayerDiagnosis>,
    manifests: Seq<Seq<char>>,
    env: Seq<EnvironmentVarInfo>,
) -> Seq<Seq<char>> {
    let vil = env_value(env, "VK_INSTANCE_LAYERS"@, 0);
    let vlp = env_value(env, "VK_LAYER_PATH"@, 0);
    let dirs = canon_sorted(manifest_dir_set(manifests));
    Seq::<Seq<char>>::empty() + (match vk {
        Some(v) => if v.supported && !v.unfixable && v.needs_attention {
            v.suggested_commands.deep_view() + seq![
                seq!['"'] + renderdoccmd_exe
                    + "\" capture <your_exe> [args...] (fallback: injection-based capture)"@,
            ]
        } else {
            Seq::<Seq<char>>::empty()
        },
        None => Seq::<Seq<char>>::empty(),
    }) + (if vil.len() > 0 && !spec_contains(vil, "VK_LAYER_RENDERDOC_Capture"@) {
        seq![
            "Set VK_INSTANCE_LAYERS to include VK_LAYER_RENDERDOC_Capture, or clear it if it is forcing a different layer set."@,
        ]
    } else {
        Seq::<Seq<char>>::empty()
    }) + (if manifests.len() > 0 && dirs.len() > 0 && vlp.len() > 0 && !(exists|k: int|
        0 <= k < dirs.len() && spec_contains(vlp, #[trigger] dirs[k])) {
        seq![
            "Update VK_LAYER_PATH to include the detected directories (separator `"@ + (if platform
                == "windows"@ {
                ";"@
            } else {
                ":"@
            }) + "`), or unset VK_LAYER_PATH if it is causing conflicts."@,
        ]
    } else {
        Seq::<Seq<char>>::empty()
    })
}

fn append_entry_if(out: &mut Vec<String>, cond: bool, w: String)
    ensures
        final(out).deep_view() == old(out).deep_view() + (if cond {
            seq![w@]
        } else {
            Seq::<Seq<char>>::empty()
        }),
{
    if cond {
        out.push(w);
        proof {
            assert(final(out).deep_view() =~= old(out).deep_view() + seq![w@]);
        }
    } else {
        proof {
            assert(final(out).deep_view() =~= old(out).deep_view()
                + Seq::<Seq<char>>::empty());
        }
    }
}

fn append_all(out: &mut Vec<String>, src: &Vec<String>)
    ensures
        final(out).deep_view() == old(out).deep_view() + src.deep_view(),
{
    let mut i: usize = 0;
    while i < src.len()
        invariant
            0 <= i <= src@.len(),
            out.deep_view() == old(out).deep_view() + src.deep_view().take(i as int),
            src.deep_view().len() == src@.len(),
            forall|j: int| 0 <= j < src@.len() ==> src.deep_view()[j] == src@[j]@,
        decreases src@.len() - i,
    {
        let ghost prev = out.deep_view();
        out.push(crate::actions::clone_string(&src[i]));
        i += 1;
        proof {
            assert(out.deep_view() =~= prev.push(src@[i - 1]@));
            assert(old(out).deep_view() + src.deep_view().take(i as int) =~= (old(
                out,
            ).deep_view() + src.deep_view().take(i as int - 1)).push(src@[i - 1]@));
        }
    }
    proof {
        assert(src.deep_view().take(src@.len() as int) =~= src.deep_view());
    }
}

fn concat3(prefix: &str, mid: &String, suffix: &str) -> (r: String)
    ensures
        r@ == prefix@ + mid@ + suffix@,
{
    let mut out: Vec<char> = chars_of_str(prefix);
    let m = chars_of_string(mid);
    let mut i: usize = 0;
    while i < m.len()
        invariant
            0 <= i <= m@.len(),
            m@ == mid@,
            out@ == prefix@ + mid@.take(i as int),
        decreases m@.len() - i,
    {
        out.push(m[i]);
        i += 1;
        proof {
            assert(prefix@ + mid@.take(i as int) =~= (prefix@ + mid@.take(i as int - 1)).push(
                mid@[i as int - 1],
            ));
        }
    }
    proof {
        assert(mid@.take(mid@.len() as int) =~= mid@);
    }
    let sfx = chars_of_str(suffix);
    let ghost base = prefix@ + mid@;
    let mut i: usize = 0;
    while i < sfx.len()
        invariant
            0 <= i <= sfx@.len(),
            sfx@ == suffix@,
            out@ == base + suffix@.take(i as int),
            base == prefix@ + mid@,
        decreases sfx@.len() - i,
    {
        out.push(sfx[i]);
        i += 1;
        proof {
            assert(base + suffix@.take(i as int) =~= (base + suffix@.take(i as int - 1)).push(
                suffix@[i as int - 1],
            ));
        }
    }
    proof {
        assert(suffix@.take(suffix@.len() as int) =~= suffix@);
    }
    string_of_chars(&out)
}

fn prefix_chars(prefix: &str, tail: &Vec<char>) -> (r: String)
    ensures
        r@ == prefix@ + tail@,
{
    let mut out: Vec<char> = chars_of_str(prefix);
    let mut i: usize = 0;
    while i < tail.len()
        invariant
            0 <= i <= tail@.len(),
            out@ == prefix@ + tail@.take(i as int),
        decreases tail@.len() - i,
    {
        out.push(tail[i]);
        i += 1;
        proof {
            assert(prefix@ + tail@.take(i as int) =~= (prefix@ + tail@.take(i as int - 1)).push(
                tail@[i as int - 1],
            ));
        }
    }
    proof {
        assert(tail@.take(tail@.len() as int) =~= tail@);
    }
    string_of_chars(&out)
}

fn string_eq_lit(a: &String, lit: &str) -> (r: bool)
    ensures
        r == (a@ == lit@),
{
    let ac = chars_of_string(a);
    let lc = chars_of_str(lit);
    eq_chars(&ac, &lc)
}

fn env_value_exec(env: &Vec<EnvironmentVarInfo>, name: &str) -> (r: Vec<char>)
    ensures
        r@ == env_value(env@, name@, 0),
{
    let mut i: usize = 0;
    while i < env.len()
        invariant
            0 <= i <= env@.len(),
            env_value(env@, name@, 0) == env_value(env@, name@, i as int),
        decreases env@.len() - i,
    {
        if string_eq_lit(&env[i].name, name) {
            match &env[i].value {
                Some(v) => {
                    return chars_of_string(v);
                },
                None => {
                    return Vec::new();
                },
            }
        }
        i += 1;
    }
    Vec::new()
}

fn join_strings(parts: &Vec<String>, sep: &str) -> (r: Vec<char>)
    ensures
        r@ == spec_sep_join(parts.deep_view(), sep@),
{
    let mut out: Vec<char> = Vec::new();
    let mut i: usize = 0;
    while i < parts.len()
        invariant
            0 <= i <= parts@.len(),
            parts.deep_view().len() == parts@.len(),
            forall|j: int| 0 <= j < parts@.len() ==> parts.deep_view()[j] == parts@[j]@,
            out@ == spec_sep_join(parts.deep_view().take(i as int), sep@),
        decreases parts@.len() - i,
    {
        let ghost before = out@;
        if i > 0 {
            let sc = chars_of_str(sep);
            let mut k: usize = 0;
            while k < sc.len()
                invariant
                    0 <= k <= sc@.len(),
                    sc@ == sep@,
                    out@ == before + sep@.take(k as int),
                decreases sc@.len() - k,
            {
                out.push(sc[k]);
                k += 1;
                proof {
                    assert(before + sep@.take(k as int) =~= (before + sep@.take(k as int
                        - 1)).push(sep@[k as int - 1]));
                }
            }
            proof {
                assert(sep@.take(sep@.len() as int) =~= sep@);
            }
        }
        let pc = chars_of_string(&parts[i]);
        let ghost mid = out@;
        let mut k: usize = 0;
        while k < pc.len()
            invariant
                0 <= k <= pc@.len(),
                pc@ == parts@[i as int]@,
                out@ == mid + pc@.take(k as int),
            decreases pc@.len() - k,
        {
            out.push(pc[k]);
            k += 1;
            proof {
                assert(mid + pc@.take(k as int) =~= (mid + pc@.take(k as int - 1)).push(
                    pc@[k as int - 1],
                ));
            }
        }
        proof {
            assert(pc@.take(pc@.len() as int) =~= pc@);
        }
        i += 1;
        proof {
            let dv = parts.deep_view();
            let t = dv.take(i as int);
            assert(t.drop_last() =~= dv.take(i as int - 1));
            assert(t.last() == dv[i as int - 1]);
            if i == 1 {
                assert(spec_sep_join(t, sep@) == t[0]);
                assert(out@ =~= spec_sep_join(t, sep@));
            } else {
                assert(spec_sep_join(t, sep@) == spec_sep_join(dv.take(i as int - 1), sep@)
                    + sep@ + dv[i as int - 1]);
                assert(out@ =~= spec_sep_join(t, sep@));
            }
        }
    }
    proof {
        assert(parts.deep_view().take(parts@.len() as int) =~= parts.deep_view());
    }
    out
}

fn any_dir_in_path(path: &Vec<char>, dirs: &Vec<String>) -> (r: bool)
    ensures
        r == (exists|k: int|
            0 <= k < dirs.deep_view().len() && spec_contains(
                path@,
                #[trigger] dirs.deep_view()[k],
            )),
{
    let mut i: usize = 0;
    while i < dirs.len()
        invariant
            0 <= i <= dirs@.len(),
            dirs.deep_view().len() == dirs@.len(),
            forall|j: int| 0 <= j < dirs@.len() ==> dirs.deep_view()[j] == dirs@[j]@,
            forall|j: int| 0 <= j < i ==> !spec_contains(path@, #[trigger] dirs.deep_view()[j]),
        decreases dirs@.len() - i,
    {
        let dc = chars_of_string(&dirs[i]);
        if contains_chars(path, &dc) {
            proof {
                assert(dirs.deep_view()[i as int] == dirs@[i as int]@);
                assert(spec_contains(path@, dirs.deep_view()[i as int]));
            }
            return true;
        }
        i += 1;
    }
    false
}

/// Assembles the composite report from the detected installation, the
/// platform facts, the layer diagnosis and the environment variables.
/// The warnings and the suggested commands follow the fixed append
/// order of `spec_env_warnings` and `spec_env_suggestions`; nothing is
/// deduplicated.
#[verifier::rlimit(60)]
pub fn diagnose_environment(
    install: &RenderDocInstallation,
    platform: String,
    arch: String,
    is_elevated: Option<bool>,
    renderdoccmd_version: Option<String>,
    vulkan_layer: Option<VulkanLayerDiagnosis>,
    vulkan_layer_manifests: Vec<String>,
    env: Vec<EnvironmentVarInfo>,
) -> (d: EnvironmentDiagnosis)
    ensures
        d.root_dir@ == install.root_dir@,
        d.qrenderdoc_exe@ == install.qrenderdoc_exe@,
        d.renderdoccmd_exe@ == install.renderdoccmd_exe@,
        d.platform == platform,
        d.arch == arch,
        d.is_elevated == is_elevated,
        d.renderdoccmd_version == renderdoccmd_version,
        d.vulkan_layer == vulkan_layer,
        d.vulkan_layer_manifests == vulkan_layer_manifests,
        d.env == env,
        d.warnings.deep_view() == spec_env_warnings(
            install.root_dir@,
            platform@,
            arch@,
            is_elevated,
            vulkan_layer,
            vulkan_layer_manifests.deep_view(),
            env@,
        ),
        d.suggested_commands.deep_view() == spec_env_suggestions(
            install.renderdoccmd_exe@,
            install.root_dir@,
            platform@,
            vulkan_layer,
            vulkan_layer_manifests.deep_view(),
            env@,
        ),
{
    let vil = env_value_exec(&env, "VK_INSTANCE_LAYERS");
    let vlp = env_value_exec(&env, "VK_LAYER_PATH");
    let dirs = manifest_dirs(&vulkan_layer_manifests);
    let is_macos = string_eq_lit(&platform, "macos");
    let is_linux = string_eq_lit(&platform, "linux");
    let is_windows = string_eq_lit(&platform, "windows");
    let is_x86_64 = string_eq_lit(&arch, "x86_64");
    let vil_flag: bool = vil.len() > 0 && !{
        let needle = chars_of_str("VK_LAYER_RENDERDOC_Capture");
        contains_chars(&vil, &needle)
    };
    let vlp_flag: bool = vlp.len() > 0 && !{
        let rd = chars_of_string(&install.root_dir);
        contains_chars(&vlp, &rd)
    };
    let dirs_flag: bool = vulkan_layer_manifests.len() > 0 && dirs.len() > 0 && vlp.len() > 0
        && !any_dir_in_path(&vlp, &dirs);

    let mut warnings: Vec<String> = Vec::new();
    append_entry_if(
        &mut warnings,
        is_macos,
        String::from_str(
            "RenderDoc on macOS is experimental and not officially supported for debugging; capture/replay may be unreliable.",
        ),
    );
    append_entry_if(
        &mut warnings,
        is_linux && !is_x86_64,
        concat3(
            "RenderDoc officially supports only x86_64 Linux; current arch is `",
            &arch,
            "` (ARM/32-bit targets are not supported).",
        ),
    );
    append_entry_if(
        &mut warnings,
        is_windows && !is_x86_64,
        concat3(
            "RenderDoc Windows support is primarily x86_64; current arch is `",
            &arch,
            "` and may not work.",
        ),
    );
    let vk_warn: bool = match &vulkan_layer {
        Some(v) => !v.supported || v.unfixable || v.needs_attention,
        None => false,
    };
    let vk_summary: String = match &vulkan_layer {
        Some(v) => crate::actions::clone_string(&v.summary),
        None => String::new(),
    };
    append_entry_if(&mut warnings, vk_warn, vk_summary);
    let elev_flag: bool = (match &vulkan_layer {
        Some(v) => v.need_elevation && v.needs_attention,
        None => false,
    }) && (match is_elevated {
        Some(b) => !b,
        None => false,
    });
    append_entry_if(
        &mut warnings,
        elev_flag,
        String::from_str(
            "Vulkan layer registration may require administrator privileges. Re-run the registration command as administrator.",
        ),
    );
    append_entry_if(
        &mut warnings,
        vil_flag,
        String::from_str(
            "VK_INSTANCE_LAYERS is set but does not include VK_LAYER_RENDERDOC_Capture; this can prevent RenderDoc's layer from being enabled.",
        ),
    );
    append_entry_if(
        &mut warnings,
        vlp_flag,
        String::from_str(
            "VK_LAYER_PATH is set; if Vulkan capture fails, ensure it includes the RenderDoc layer JSON location or unregister conflicting installs.",
        ),
    );
    let joined = join_strings(&dirs, " | ");
    append_entry_if(
        &mut warnings,
        dirs_flag,
        prefix_chars(
            "VK_LAYER_PATH is set but does not appear to include the RenderDoc Vulkan layer manifest directory. Detected manifest dirs: ",
            &joined,
        ),
    );
    proof {
        assert(warnings.deep_view() =~= spec_env_warnings(
            install.root_dir@,
            platform@,
            arch@,
            is_elevated,
            vulkan_layer,
            vulkan_layer_manifests.deep_view(),
            env@,
        ));
    }

    let mut suggested: Vec<String> = Vec::new();
    let vk_sugg: bool = match &vulkan_layer {
        Some(v) => v.supported && !v.unfixable && v.needs_attention,
        None => false,
    };
    if vk_sugg {
        let ghost base = suggested.deep_view();
        match &vulkan_layer {
            Some(v) => {
                append_all(&mut suggested, &v.suggested_commands);
            },
            None => {},
        }
        suggested.push(
            quoted_command(
                &install.renderdoccmd_exe,
                "\" capture <your_exe> [args...] (fallback: injection-based capture)",
            ),
        );
    }
    proof {
        assert(suggested.deep_view() =~= Seq::<Seq<char>>::empty() + (match vulkan_layer {
            Some(v) => if v.supported && !v.unfixable && v.needs_attention {
                v.suggested_commands.deep_view() + seq![
                    seq!['"'] + install.renderdoccmd_exe@
                        + "\" capture <your_exe> [args...] (fallback: injection-based capture)"@,
                ]
            } else {
                Seq::<Seq<char>>::empty()
            },
            None => Seq::<Seq<char>>::empty(),
        }));
    }
    append_entry_if(
        &mut suggested,
        vil_flag,
        String::from_str(
            "Set VK_INSTANCE_LAYERS to include VK_LAYER_RENDERDOC_Capture, or clear it if it is forcing a different layer set.",
        ),
    );
    let sep_lit: String = if is_windows {
        String::from_str(";")
    } else {
        String::from_str(":")
    };
    append_entry_if(
        &mut suggested,
        dirs_flag,
        concat3(
            "Update VK_LAYER_PATH to include the detected directories (separator `",
            &sep_lit,
            "`), or unset VK_LAYER_PATH if it is causing conflicts.",
        ),
    );
    proof {
        assert(suggested.deep_view() =~= spec_env_suggestions(
            install.renderdoccmd_exe@,
            install.root_dir@,
            platform@,
            vulkan_layer,
            vulkan_layer_manifests.deep_view(),
            env@,
        ));
    }

    EnvironmentDiagnosis {
        root_dir: crate::actions::clone_string(&install.root_dir),
        qrenderdoc_exe: crate::actions::clone_string(&install.qrenderdoc_exe),
        renderdoccmd_exe: crate::actions::clone_string(&install.renderdoccmd_exe),
        platform,
        arch,
        is_elevated,
        renderdoccmd_version,
        vulkan_layer,
        vulkan_layer_manifests,
        env,
        warnings,
        suggested_commands: suggested,
    }
}


impl RenderDocInstallation {
    /// The command line of the layer self-check.
    pub fn vulkan_layer_command(&self) -> (r: crate::command::CommandSpec)
        ensures
            r.program@ == self.renderdoccmd_exe@,
            r.args.deep_view() == seq!["vulkanlayer"@, "--explain"@],
            r.cwd is None,
    {
        let mut args: Vec<String> = Vec::new();
        args.push(String::from_str("vulkanlayer"));
        args.push(String::from_str("--explain"));
        proof {
            assert(args.deep_view() =~= seq!["vulkanlayer"@, "--explain"@]);
        }
        crate::command::CommandSpec {
            program: crate::actions::clone_string(&self.renderdoccmd_exe),
            args,
            cwd: None,
        }
    }

    /// Classifies a finished self-check run; a process that could not
    /// start is the spawn error.  The caller decodes the streams
    /// strictly and reports `InvalidUtf8` itself when that fails.
    pub fn diagnose_vulkan_layer(&self, outcome: crate::command::SpawnOutcome) -> (r: Result<
        VulkanLayerDiagnosis,
        VulkanLayerDiagnosisError,
    >)
        ensures
            match outcome {
                crate::command::SpawnOutcome::Finished { stdout, stderr, .. } => (r matches Ok(d)
                    && vulkan_layer_diagnosis_post(self.renderdoccmd_exe@, stdout@, stderr@, d)),
                crate::command::SpawnOutcome::SpawnError { message } => (r matches Err(
                    VulkanLayerDiagnosisError::Spawn(m),
                ) && m@ == message@),
            },
    {
        match outcome {
            crate::command::SpawnOutcome::Finished { stdout, stderr, .. } => Ok(
                diagnose_vulkan_layer_output(&self.renderdoccmd_exe, stdout, stderr),
            ),
            crate::command::SpawnOutcome::SpawnError { message } => Err(
                VulkanLayerDiagnosisError::Spawn(message),
            ),
        }
    }
}

} // verus!






