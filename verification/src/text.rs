//! Character-sequence helpers shared by the query engine, the diagnosis
//! engine, the bridge and the JSON codec: ASCII case folding, substring
//! search, prefix tests, path joining and decimal rendering, all specified
//! over `Seq<char>`.
use vstd::prelude::*;

verus! {

/// ASCII lower-casing of a single character; other characters are unchanged.
pub open spec fn spec_lower_char(c: char) -> char {
    if 'A' <= c && c <= 'Z' {
        ((c as u32) + 32) as char
    } else {
        c
    }
}

pub fn lower_char(c: char) -> (r: char)
    ensures
        r == spec_lower_char(c),
{
    if 'A' <= c && c <= 'Z' {
        (((c as u32) + 32) as u8) as char
    } else {
        c
    }
}

/// ASCII lower-casing of a whole sequence.
pub open spec fn spec_lower(s: Seq<char>) -> Seq<char> {
    s.map_values(|c: char| spec_lower_char(c))
}

pub fn lower_chars(v: &Vec<char>) -> (r: Vec<char>)
    ensures
        r@ == spec_lower(v@),
{
    let mut out: Vec<char> = Vec::new();
    let mut i: usize = 0;
    while i < v.len()
        invariant
            0 <= i <= v.len(),
            out@ == spec_lower(v@.take(i as int)),
        decreases v.len() - i,
    {
        out.push(lower_char(v[i]));
        i += 1;
        assert(v@.take(i as int).map_values(|c: char| spec_lower_char(c)) =~= v@.take(
            i as int - 1,
        ).map_values(|c: char| spec_lower_char(c)).push(spec_lower_char(v@[i as int - 1])));
    }
    assert(v@.take(v@.len() as int) =~= v@);
    out
}

/// Case folding under a sensitivity switch: identity when case-sensitive,
/// ASCII lower-casing otherwise.
pub open spec fn spec_fold_case(case_sensitive: bool, s: Seq<char>) -> Seq<char> {
    if case_sensitive {
        s
    } else {
        spec_lower(s)
    }
}

pub fn fold_case(case_sensitive: bool, v: &Vec<char>) -> (r: Vec<char>)
    ensures
        r@ == spec_fold_case(case_sensitive, v@),
{
    if case_sensitive {
        let mut out: Vec<char> = Vec::new();
        let mut i: usize = 0;
        while i < v.len()
            invariant
                0 <= i <= v.len(),
                out@ == v@.take(i as int),
            decreases v.len() - i,
        {
            out.push(v[i]);
            i += 1;
            assert(v@.take(i as int) =~= v@.take(i as int - 1).push(v@[i as int - 1]));
        }
        assert(v@.take(v@.len() as int) =~= v@);
        out
    } else {
        lower_chars(v)
    }
}

/// The characters of a string slice, one `char` per element.
pub fn chars_of_str(s: &str) -> (v: Vec<char>)
    ensures
        v@ == s@,
{
    let n = s.unicode_len();
    let mut out: Vec<char> = Vec::new();
    let mut i: usize = 0;
    while i < n
        invariant
            0 <= i <= n,
            n == s@.len(),
            out@ == s@.take(i as int),
        decreases n - i,
    {
        out.push(s.get_char(i));
        i += 1;
        assert(s@.take(i as int) =~= s@.take(i as int - 1).push(s@[i as int - 1]));
    }
    assert(s@.take(n as int) =~= s@);
    out
}

pub fn chars_of_string(s: &String) -> (v: Vec<char>)
    ensures
        v@ == s@,
{
    chars_of_str(s.as_str())
}

/// Relies on `String::push`: appends exactly the given character.
#[verifier::external_body]
pub fn push_char(s: &mut String, c: char)
    ensures
        final(s)@ == old(s)@.push(c),
{
    s.push(c);
}

pub fn string_of_chars(v: &Vec<char>) -> (s: String)
    ensures
        s@ == v@,
{
    let mut out = String::new();
    let mut i: usize = 0;
    while i < v.len()
        invariant
            0 <= i <= v.len(),
            out@ == v@.take(i as int),
        decreases v.len() - i,
    {
        push_char(&mut out, v[i]);
        i += 1;
        assert(v@.take(i as int) =~= v@.take(i as int - 1).push(v@[i as int - 1]));
    }
    assert(v@.take(v@.len() as int) =~= v@);
    out
}

/// `needle` occurs in `hay` starting at position `i`.
pub open spec fn contains_at(hay: Seq<char>, needle: Seq<char>, i: int) -> bool {
    &&& 0 <= i
    &&& i + needle.len() <= hay.len()
    &&& hay.subrange(i, i + needle.len() as int) == needle
}

/// `needle` occurs somewhere in `hay` (always true for an empty needle).
pub open spec fn spec_contains(hay: Seq<char>, needle: Seq<char>) -> bool {
    exists|i: int| contains_at(hay, needle, i)
}

fn match_at(hay: &Vec<char>, needle: &Vec<char>, i: usize) -> (b: bool)
    requires
        i + needle@.len() <= hay@.len(),
    ensures
        b == contains_at(hay@, needle@, i as int),
{
    let hlen: usize = hay.len();
    let nlen: usize = needle.len();
    let mut k: usize = 0;
    while k < nlen
        invariant
            0 <= k <= nlen,
            nlen == needle@.len(),
            hlen == hay@.len(),
            i + nlen <= hlen,
            forall|m: int| 0 <= m < k ==> hay@[i + m] == needle@[m],
        decreases nlen - k,
    {
        if hay[i + k] != needle[k] {
            assert(hay@.subrange(i as int, i + needle@.len() as int)[k as int]
                != needle@[k as int]);
            return false;
        }
        k += 1;
    }
    assert(hay@.subrange(i as int, i + needle@.len() as int) =~= needle@);
    true
}

pub fn contains_chars(hay: &Vec<char>, needle: &Vec<char>) -> (b: bool)
    ensures
        b == spec_contains(hay@, needle@),
{
    let hlen: usize = hay.len();
    let nlen: usize = needle.len();
    if nlen > hlen {
        assert(forall|i: int| !contains_at(hay@, needle@, i));
        return false;
    }
    if nlen == 0 {
        assert(contains_at(hay@, needle@, 0)) by {
            assert(hay@.subrange(0, 0) =~= needle@);
        }
        return true;
    }
    let bound: usize = hlen - nlen;
    let mut i: usize = 0;
    while i <= bound
        invariant
            nlen == needle@.len(),
            hlen == hay@.len(),
            1 <= nlen <= hlen,
            bound == hlen - nlen,
            0 <= i <= bound + 1,
            forall|j: int| 0 <= j < i ==> !contains_at(hay@, needle@, j),
        decreases bound + 1 - i,
    {
        if match_at(hay, needle, i) {
            return true;
        }
        i += 1;
    }
    assert(forall|j: int| !contains_at(hay@, needle@, j));
    false
}

/// `p` is a prefix of `s`.
pub open spec fn spec_starts_with(s: Seq<char>, p: Seq<char>) -> bool {
    p.len() <= s.len() && s.subrange(0, p.len() as int) == p
}

pub fn starts_with_chars(s: &Vec<char>, p: &Vec<char>) -> (b: bool)
    ensures
        b == spec_starts_with(s@, p@),
{
    if p.len() > s.len() {
        return false;
    }
    let mut k: usize = 0;
    while k < p.len()
        invariant
            0 <= k <= p@.len() <= s@.len(),
            forall|m: int| 0 <= m < k ==> s@[m] == p@[m],
        decreases p.len() - k,
    {
        if s[k] != p[k] {
            assert(s@.subrange(0, p@.len() as int)[k as int] != p@[k as int]);
            return false;
        }
        k += 1;
    }
    assert(s@.subrange(0, p@.len() as int) =~= p@);
    true
}

pub fn eq_chars(a: &Vec<char>, b: &Vec<char>) -> (r: bool)
    ensures
        r == (a@ == b@),
{
    if a.len() != b.len() {
        return false;
    }
    let mut k: usize = 0;
    while k < a.len()
        invariant
            0 <= k <= a@.len(),
            a@.len() == b@.len(),
            forall|m: int| 0 <= m < k ==> a@[m] == b@[m],
        decreases a.len() - k,
    {
        if a[k] != b[k] {
            return false;
        }
        k += 1;
    }
    assert(a@ =~= b@);
    true
}

/// A marker path joined with `/` between the segments.
pub open spec fn spec_join(parts: Seq<Seq<char>>) -> Seq<char>
    decreases parts.len(),
{
    if parts.len() == 0 {
        Seq::<char>::empty()
    } else if parts.len() == 1 {
        parts[0]
    } else {
        spec_join(parts.drop_last()) + seq!['/'] + parts.last()
    }
}

pub fn join_path(parts: &Vec<String>) -> (v: Vec<char>)
    ensures
        v@ == spec_join(parts.deep_view()),
{
    let mut out: Vec<char> = Vec::new();
    let mut i: usize = 0;
    while i < parts.len()
        invariant
            0 <= i <= parts@.len(),
            parts.deep_view().len() == parts@.len(),
            forall|j: int| 0 <= j < parts@.len() ==> parts.deep_view()[j] == parts@[j]@,
            out@ == spec_join(parts.deep_view().take(i as int)),
        decreases parts.len() - i,
    {
        if i > 0 {
            out.push('/');
        }
        let part = chars_of_string(&parts[i]);
        let mut k: usize = 0;
        while k < part.len()
            invariant
                0 <= k <= part@.len(),
                i > 0 ==> out@ == spec_join(parts.deep_view().take(i as int)) + seq!['/']
                    + part@.take(k as int),
                i == 0 ==> out@ == spec_join(parts.deep_view().take(i as int)) + part@.take(
                    k as int,
                ),
            decreases part.len() - k,
        {
            out.push(part[k]);
            k += 1;
            assert(part@.take(k as int) =~= part@.take(k as int - 1).push(part@[k as int - 1]));
        }
        assert(part@.take(part@.len() as int) =~= part@);
        proof {
            let dv = parts.deep_view();
            let t = dv.take(i as int + 1);
            assert(t.drop_last() =~= dv.take(i as int));
            assert(t.last() == dv[i as int]);
            if i == 0 {
                assert(spec_join(t) == t[0]);
                assert(out@ =~= spec_join(t));
            } else {
                assert(t.len() >= 2);
                assert(spec_join(t) == spec_join(dv.take(i as int)) + seq!['/'] + dv[i as int]);
                assert(out@ =~= spec_join(t));
            }
        }
        i += 1;
    }
    proof {
        assert(parts.deep_view().take(parts@.len() as int) =~= parts.deep_view());
    }
    out
}

/// The decimal digit character for a value below ten.
pub open spec fn digit_char(d: int) -> char {
    ((48 + d) as u32) as char
}

/// The decimal rendering of a natural number, most significant digit first.
pub open spec fn spec_dec(n: nat) -> Seq<char>
    decreases n,
{
    if n < 10 {
        seq![digit_char(n as int)]
    } else {
        spec_dec(n / 10).push(digit_char((n % 10) as int))
    }
}

fn push_dec_u128(n: u128, out: &mut Vec<char>)
    ensures
        final(out)@ == old(out)@ + spec_dec(n as nat),
    decreases n,
{
    if n < 10 {
        out.push(((48 + n as u32) as u8) as char);
    } else {
        push_dec_u128(n / 10, out);
        out.push(((48 + (n % 10) as u32) as u8) as char);
    }
}

pub fn dec_chars_u128(n: u128) -> (v: Vec<char>)
    ensures
        v@ == spec_dec(n as nat),
{
    let mut out: Vec<char> = Vec::new();
    push_dec_u128(n, &mut out);
    assert(Seq::<char>::empty() + spec_dec(n as nat) =~= spec_dec(n as nat));
    out
}

pub fn dec_chars_u64(n: u64) -> (v: Vec<char>)
    ensures
        v@ == spec_dec(n as nat),
{
    dec_chars_u128(n as u128)
}

/// Every character is a decimal digit.
pub open spec fn all_digits(s: Seq<char>) -> bool {
    forall|i: int| 0 <= i < s.len() ==> '0' <= #[trigger] s[i] && s[i] <= '9'
}

/// Every character of a decimal rendering is a digit.
pub proof fn lemma_dec_all_digits(n: nat)
    ensures
        all_digits(spec_dec(n)),
        spec_dec(n).len() >= 1,
    decreases n,
{
    if n >= 10 {
        lemma_dec_all_digits(n / 10);
        assert forall|i: int|
            0 <= i < spec_dec(n).len() implies '0' <= #[trigger] spec_dec(n)[i] && spec_dec(
            n,
        )[i] <= '9' by {
            if i < spec_dec(n).len() - 1 {
                assert(spec_dec(n)[i] == spec_dec(n / 10)[i]);
            }
        }
    }
}

/// Equal concatenations with the same left part have equal right parts.
pub proof fn lemma_concat_cancel_left(a: Seq<char>, x: Seq<char>, y: Seq<char>)
    requires
        a + x == a + y,
    ensures
        x == y,
{
    assert((a + x).len() == (a + y).len());
    assert((a + x).len() == a.len() + x.len());
    assert((a + y).len() == a.len() + y.len());
    assert(x.len() == y.len());
    assert(x =~= y) by {
        assert forall|i: int| 0 <= i < x.len() implies x[i] == y[i] by {
            assert((a + x)[a.len() + i] == x[i]);
            assert((a + y)[a.len() + i] == y[i]);
        }
    }
}

/// Two digit runs followed by a dash and a tail decompose uniquely.
pub proof fn lemma_dash_split(a1: Seq<char>, b1: Seq<char>, a2: Seq<char>, b2: Seq<char>)
    requires
        all_digits(a1),
        all_digits(a2),
        a1 + seq!['-'] + b1 == a2 + seq!['-'] + b2,
    ensures
        a1 == a2,
        b1 == b2,
{
    let s1 = a1 + seq!['-'] + b1;
    let s2 = a2 + seq!['-'] + b2;
    if a1.len() < a2.len() {
        assert(s1[a1.len() as int] == '-');
        assert(s2[a1.len() as int] == a2[a1.len() as int]);
        assert('0' <= a2[a1.len() as int] && a2[a1.len() as int] <= '9');
        assert(('-' as u32) < ('0' as u32));
        assert(false);
    } else if a2.len() < a1.len() {
        assert(s2[a2.len() as int] == '-');
        assert(s1[a2.len() as int] == a1[a2.len() as int]);
        assert('0' <= a1[a2.len() as int] && a1[a2.len() as int] <= '9');
        assert(('-' as u32) < ('0' as u32));
        assert(false);
    } else {
        assert(a1 =~= a2) by {
            assert forall|i: int| 0 <= i < a1.len() implies a1[i] == a2[i] by {
                assert(s1[i] == a1[i]);
                assert(s2[i] == a2[i]);
            }
        }
        lemma_concat_cancel_left(a1 + seq!['-'], b1, b2);
    }
}

/// Decimal renderings of distinct numbers differ.
pub proof fn lemma_dec_injective(a: nat, b: nat)
    requires
        spec_dec(a) == spec_dec(b),
    ensures
        a == b,
    decreases a,
{
    lemma_dec_all_digits(a);
    lemma_dec_all_digits(b);
    if a < 10 && b < 10 {
        assert(spec_dec(a)[0] == digit_char(a as int));
        assert(spec_dec(b)[0] == digit_char(b as int));
    } else if a >= 10 && b >= 10 {
        assert(spec_dec(a).last() == digit_char((a % 10) as int));
        assert(spec_dec(b).last() == digit_char((b % 10) as int));
        assert(spec_dec(a).drop_last() =~= spec_dec(a / 10));
        assert(spec_dec(b).drop_last() =~= spec_dec(b / 10));
        lemma_dec_injective(a / 10, b / 10);
    } else if a < 10 && b >= 10 {
        lemma_dec_len_ge_2(b);
    } else {
        lemma_dec_len_ge_2(a);
    }
}

proof fn lemma_dec_len_ge_2(n: nat)
    requires
        n >= 10,
    ensures
        spec_dec(n).len() >= 2,
{
    lemma_dec_all_digits(n / 10);
}

} // verus!
