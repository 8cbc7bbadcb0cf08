//! A small JSON document model with a verified renderer.
//!
//! The bridge protocol and the export files are JSON; the library builds
//! and reads documents as `JsonVal` values and renders them to text with
//! an exact character-level specification.  `GJson` is the ghost mirror
//! of a document, and every contract about documents speaks over it.
use vstd::prelude::*;

use crate::text::spec_dec;
use crate::text::dec_chars_u64;

verus! {

/// One JSON document or sub-document.
pub enum JsonVal {
    Null,
    Bool(bool),
    Num(u64),
    Str(String),
    Arr(Vec<JsonVal>),
    Obj(Vec<(String, JsonVal)>),
}

/// The ghost mirror of a JSON document.
pub ghost enum GJson {
    Null,
    Bool(bool),
    Num(u64),
    Str(Seq<char>),
    Arr(Seq<GJson>),
    Obj(Seq<(Seq<char>, GJson)>),
}

pub open spec fn jview(v: JsonVal) -> GJson
    decreases v,
{
    match v {
        JsonVal::Null => GJson::Null,
        JsonVal::Bool(b) => GJson::Bool(b),
        JsonVal::Num(n) => GJson::Num(n),
        JsonVal::Str(s) => GJson::Str(s@),
        JsonVal::Arr(items) => GJson::Arr(jview_items(items@, 0)),
        JsonVal::Obj(fields) => GJson::Obj(jview_fields(fields@, 0)),
    }
}

pub open spec fn jview_items(s: Seq<JsonVal>, i: int) -> Seq<GJson>
    decreases s, s.len() - i,
    when 0 <= i <= s.len()
{
    if i == s.len() {
        Seq::<GJson>::empty()
    } else {
        seq![jview(s[i])] + jview_items(s, i + 1)
    }
}

pub open spec fn jview_fields(s: Seq<(String, JsonVal)>, i: int) -> Seq<(Seq<char>, GJson)>
    decreases s, s.len() - i,
    when 0 <= i <= s.len()
{
    if i == s.len() {
        Seq::<(Seq<char>, GJson)>::empty()
    } else {
        seq![(s[i].0@, jview(s[i].1))] + jview_fields(s, i + 1)
    }
}

/// First-match lookup of a key in an object's field list.
pub open spec fn glookup(fields: Seq<(Seq<char>, GJson)>, key: Seq<char>) -> Option<GJson>
    decreases fields.len(),
{
    if fields.len() == 0 {
        None
    } else if fields[0].0 == key {
        Some(fields[0].1)
    } else {
        glookup(fields.drop_first(), key)
    }
}


/// The lower-case hex digit for a value below sixteen.
pub open spec fn hex_char(d: int) -> char {
    if d < 10 {
        ((48 + d) as u32) as char
    } else {
        ((87 + d) as u32) as char
    }
}

/// The escape of one character inside a JSON string literal.
pub open spec fn esc_char(c: char) -> Seq<char> {
    if c == '"' {
        seq!['\\', '"']
    } else if c == '\\' {
        seq!['\\', '\\']
    } else if c == '\n' {
        seq!['\\', 'n']
    } else if c == '\r' {
        seq!['\\', 'r']
    } else if c == '\t' {
        seq!['\\', 't']
    } else if (c as u32) < 32 {
        seq!['\\', 'u', '0', '0', hex_char((c as u32 / 16) as int), hex_char((c as u32 % 16) as int)]
    } else {
        seq![c]
    }
}

/// The escaped body of a JSON string literal.
pub open spec fn esc_string(s: Seq<char>) -> Seq<char>
    decreases s.len(),
{
    if s.len() == 0 {
        Seq::<char>::empty()
    } else {
        esc_string(s.drop_last()) + esc_char(s.last())
    }
}

/// The rendered text of a document: no whitespace, object fields in
/// declaration order, strings escaped by `esc_char`.
pub open spec fn grender(g: GJson) -> Seq<char>
    decreases g,
{
    match g {
        GJson::Null => seq!['n', 'u', 'l', 'l'],
        GJson::Bool(b) => if b {
            seq!['t', 'r', 'u', 'e']
        } else {
            seq!['f', 'a', 'l', 's', 'e']
        },
        GJson::Num(n) => spec_dec(n as nat),
        GJson::Str(s) => seq!['"'] + esc_string(s) + seq!['"'],
        GJson::Arr(items) => seq!['['] + grender_items(items, 0) + seq![']'],
        GJson::Obj(fields) => seq!['{'] + grender_fields(fields, 0) + seq!['}'],
    }
}

pub open spec fn grender_items(items: Seq<GJson>, i: int) -> Seq<char>
    decreases items, items.len() - i,
    when 0 <= i <= items.len()
{
    if i == items.len() {
        Seq::<char>::empty()
    } else {
        (if i > 0 {
            seq![',']
        } else {
            Seq::<char>::empty()
        }) + grender(items[i]) + grender_items(items, i + 1)
    }
}

pub open spec fn grender_fields(fields: Seq<(Seq<char>, GJson)>, i: int) -> Seq<char>
    decreases fields, fields.len() - i,
    when 0 <= i <= fields.len()
{
    if i == fields.len() {
        Seq::<char>::empty()
    } else {
        (if i > 0 {
            seq![',']
        } else {
            Seq::<char>::empty()
        }) + seq!['"'] + esc_string(fields[i].0) + seq!['"', ':'] + grender(fields[i].1)
            + grender_fields(fields, i + 1)
    }
}

pub proof fn lemma_jview_items_index(s: Seq<JsonVal>, j: int, i: int)
    requires
        0 <= j <= i < s.len(),
    ensures
        jview_items(s, j).len() == s.len() - j,
        jview_items(s, j)[i - j] == jview(s[i]),
    decreases i - j,
{
    lemma_jview_items_len(s, j);
    if j < i {
        lemma_jview_items_index(s, j + 1, i);
    }
}

pub proof fn lemma_jview_items_len(s: Seq<JsonVal>, j: int)
    requires
        0 <= j <= s.len(),
    ensures
        jview_items(s, j).len() == s.len() - j,
    decreases s.len() - j,
{
    if j < s.len() {
        lemma_jview_items_len(s, j + 1);
    }
}

pub proof fn lemma_jview_fields_index(s: Seq<(String, JsonVal)>, j: int, i: int)
    requires
        0 <= j <= i < s.len(),
    ensures
        jview_fields(s, j).len() == s.len() - j,
        jview_fields(s, j)[i - j] == (s[i].0@, jview(s[i].1)),
    decreases i - j,
{
    lemma_jview_fields_len(s, j);
    if j < i {
        lemma_jview_fields_index(s, j + 1, i);
    }
}

pub proof fn lemma_jview_fields_len(s: Seq<(String, JsonVal)>, j: int)
    requires
        0 <= j <= s.len(),
    ensures
        jview_fields(s, j).len() == s.len() - j,
    decreases s.len() - j,
{
    if j < s.len() {
        lemma_jview_fields_len(s, j + 1);
    }
}

fn hex_char_of(d: u32) -> (c: char)
    requires
        d < 16,
    ensures
        c == hex_char(d as int),
{
    if d < 10 {
        ((48 + d) as u8) as char
    } else {
        ((87 + d) as u8) as char
    }
}

fn esc_char_into(c: char, out: &mut Vec<char>)
    ensures
        final(out)@ == old(out)@ + esc_char(c),
{
    if c == '"' {
        out.push('\\');
        out.push('"');
    } else if c == '\\' {
        out.push('\\');
        out.push('\\');
    } else if c == '\n' {
        out.push('\\');
        out.push('n');
    } else if c == '\r' {
        out.push('\\');
        out.push('r');
    } else if c == '\t' {
        out.push('\\');
        out.push('t');
    } else if (c as u32) < 32 {
        out.push('\\');
        out.push('u');
        out.push('0');
        out.push('0');
        out.push(hex_char_of((c as u32) / 16));
        out.push(hex_char_of((c as u32) % 16));
    } else {
        out.push(c);
    }
    proof {
        assert(out@ =~= old(out)@ + esc_char(c));
    }
}

fn esc_str_into(s: &String, out: &mut Vec<char>)
    ensures
        final(out)@ == old(out)@ + esc_string(s@),
{
    let cs = crate::text::chars_of_string(s);
    let mut i: usize = 0;
    while i < cs.len()
        invariant
            0 <= i <= cs@.len(),
            cs@ == s@,
            out@ == old(out)@ + esc_string(s@.take(i as int)),
        decreases cs@.len() - i,
    {
        let ghost before = out@;
        esc_char_into(cs[i], out);
        i += 1;
        proof {
            assert(s@.take(i as int).drop_last() =~= s@.take(i as int - 1));
            assert(out@ =~= old(out)@ + esc_string(s@.take(i as int)));
        }
    }
    proof {
        assert(s@.take(s@.len() as int) =~= s@);
    }
}

fn append_chars(src: &Vec<char>, out: &mut Vec<char>)
    ensures
        final(out)@ == old(out)@ + src@,
{
    let mut i: usize = 0;
    while i < src.len()
        invariant
            0 <= i <= src@.len(),
            out@ == old(out)@ + src@.take(i as int),
        decreases src@.len() - i,
    {
        out.push(src[i]);
        i += 1;
        proof {
            assert(old(out)@ + src@.take(i as int) =~= (old(out)@ + src@.take(i as int - 1)).push(
                src@[i as int - 1],
            ));
        }
    }
    proof {
        assert(src@.take(src@.len() as int) =~= src@);
    }
}

#[verifier::loop_isolation(false)]
#[verifier::rlimit(60)]
fn render_into(v: &JsonVal, out: &mut Vec<char>)
    ensures
        final(out)@ == old(out)@ + grender(jview(*v)),
    decreases *v,
{
    match v {
        JsonVal::Null => {
            out.push('n');
            out.push('u');
            out.push('l');
            out.push('l');
            proof {
                assert(out@ =~= old(out)@ + grender(jview(*v)));
            }
        },
        JsonVal::Bool(b) => {
            if *b {
                out.push('t');
                out.push('r');
                out.push('u');
                out.push('e');
            } else {
                out.push('f');
                out.push('a');
                out.push('l');
                out.push('s');
                out.push('e');
            }
            proof {
                assert(out@ =~= old(out)@ + grender(jview(*v)));
            }
        },
        JsonVal::Num(n) => {
            let d = dec_chars_u64(*n);
            append_chars(&d, out);
        },
        JsonVal::Str(s) => {
            out.push('"');
            let ghost mid = out@;
            esc_str_into(s, out);
            out.push('"');
            proof {
                assert(out@ =~= old(out)@ + grender(jview(*v)));
            }
        },
        JsonVal::Arr(items) => {
            out.push('[');
            let ghost g = jview_items(items@, 0);
            proof {
                lemma_jview_items_len(items@, 0);
                assert(out@ + grender_items(g, 0) =~= old(out)@ + seq!['['] + grender_items(
                    g,
                    0,
                ));
            }
            let mut i: usize = 0;
            while i < items.len()
                invariant
                    0 <= i <= items@.len(),
                    g == jview_items(items@, 0),
                    g.len() == items@.len(),
                    out@ + grender_items(g, i as int) == old(out)@ + seq!['['] + grender_items(
                        g,
                        0,
                    ),
                decreases items@.len() - i,
            {
                let ghost before = out@;
                if i > 0 {
                    out.push(',');
                }
                proof {
                    assert(decreases_to!(*v => v->Arr_0));
                    assert(decreases_to!(*items => items@[i as int]));
                }
                render_into(&items[i], out);
                proof {
                    lemma_jview_items_index(items@, 0, i as int);
                    assert(g[i as int] == jview(items@[i as int]));
                    if i > 0 {
                        assert(out@ =~= before + seq![','] + grender(g[i as int]));
                    } else {
                        assert(out@ =~= before + grender(g[i as int]));
                    }
                    assert(grender_items(g, i as int) == (if i > 0 {
                        seq![',']
                    } else {
                        Seq::<char>::empty()
                    }) + grender(g[i as int]) + grender_items(g, i + 1));
                    assert(out@ + grender_items(g, i + 1) =~= before + grender_items(
                        g,
                        i as int,
                    ));
                }
                i += 1;
            }
            out.push(']');
            proof {
                assert(grender_items(g, items@.len() as int) =~= Seq::<char>::empty());
                assert(out@ =~= old(out)@ + grender(jview(*v)));
            }
        },
        JsonVal::Obj(fields) => {
            out.push('{');
            let ghost g = jview_fields(fields@, 0);
            proof {
                lemma_jview_fields_len(fields@, 0);
                assert(out@ + grender_fields(g, 0) =~= old(out)@ + seq!['{'] + grender_fields(
                    g,
                    0,
                ));
            }
            let mut i: usize = 0;
            while i < fields.len()
                invariant
                    0 <= i <= fields@.len(),
                    g == jview_fields(fields@, 0),
                    g.len() == fields@.len(),
                    out@ + grender_fields(g, i as int) == old(out)@ + seq!['{'] + grender_fields(
                        g,
                        0,
                    ),
                decreases fields@.len() - i,
            {
                let ghost before = out@;
                if i > 0 {
                    out.push(',');
                }
                out.push('"');
                esc_str_into(&fields[i].0, out);
                out.push('"');
                out.push(':');
                proof {
                    assert(decreases_to!(*v => v->Obj_0));
                    assert(decreases_to!(*fields => fields@[i as int].1));
                }
                render_into(&fields[i].1, out);
                proof {
                    lemma_jview_fields_index(fields@, 0, i as int);
                    assert(g[i as int] == (fields@[i as int].0@, jview(fields@[i as int].1)));
                    if i > 0 {
                        assert(out@ =~= before + seq![','] + seq!['"'] + esc_string(
                            g[i as int].0,
                        ) + seq!['"', ':'] + grender(g[i as int].1));
                    } else {
                        assert(out@ =~= before + seq!['"'] + esc_string(g[i as int].0)
                            + seq!['"', ':'] + grender(g[i as int].1));
                    }
                    assert(grender_fields(g, i as int) == (if i > 0 {
                        seq![',']
                    } else {
                        Seq::<char>::empty()
                    }) + seq!['"'] + esc_string(g[i as int].0) + seq!['"', ':'] + grender(
                        g[i as int].1,
                    ) + grender_fields(g, i + 1));
                    assert(out@ + grender_fields(g, i + 1) =~= before + grender_fields(
                        g,
                        i as int,
                    ));
                }
                i += 1;
            }
            out.push('}');
            proof {
                assert(grender_fields(g, fields@.len() as int) =~= Seq::<char>::empty());
                assert(out@ =~= old(out)@ + grender(jview(*v)));
            }
        },
    }
}

/// Renders a document to its exact JSON text.
pub fn render_json(v: &JsonVal) -> (s: String)
    ensures
        s@ == grender(jview(*v)),
{
    let mut out: Vec<char> = Vec::new();
    render_into(v, &mut out);
    proof {
        assert(Seq::<char>::empty() + grender(jview(*v)) =~= grender(jview(*v)));
    }
    crate::text::string_of_chars(&out)
}

/// First-match lookup of a key in an object's field list, in executable
/// form.
pub fn obj_get<'a>(fields: &'a Vec<(String, JsonVal)>, key: &str) -> (r: Option<&'a JsonVal>)
    ensures
        match r {
            Some(v) => glookup(jview_fields(fields@, 0), key@) == Some(jview(*v)),
            None => glookup(jview_fields(fields@, 0), key@) is None,
        },
{
    let mut i: usize = 0;
    proof {
        lemma_jview_fields_len(fields@, 0);
    }
    while i < fields.len()
        invariant
            0 <= i <= fields@.len(),
            forall|j: int| 0 <= j < i ==> fields@[j].0@ != key@,
            glookup(jview_fields(fields@, 0), key@) == glookup(
                jview_fields(fields@, i as int),
                key@,
            ),
        decreases fields@.len() - i,
    {
        let ghost gi = jview_fields(fields@, i as int);
        proof {
            lemma_jview_fields_len(fields@, i as int);
            assert(gi == seq![(fields@[i as int].0@, jview(fields@[i as int].1))] + jview_fields(
                fields@,
                i as int + 1,
            ));
            assert(gi[0] == (fields@[i as int].0@, jview(fields@[i as int].1)));
        }
        let keych = crate::text::chars_of_str(key);
        let fch = crate::text::chars_of_string(&fields[i].0);
        if crate::text::eq_chars(&fch, &keych) {
            proof {
                assert(glookup(gi, key@) == Some(jview(fields@[i as int].1)));
            }
            return Some(&fields[i].1);
        }
        i += 1;
        proof {
            assert(jview_fields(fields@, i - 1).drop_first() =~= jview_fields(fields@, i as int));
        }
    }
    proof {
        assert(jview_fields(fields@, fields@.len() as int) =~= Seq::<(Seq<char>, GJson)>::empty());
    }
    None
}

} // verus!

