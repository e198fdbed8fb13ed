//! Verified rendering of the output document's building blocks: string
//! escaping, scalar values, and comma-joined object and array bodies.

use vstd::prelude::*;
use vstd::string::StrSliceExecFns;
use vstd::string::StringExecFns;

use crate::json::value::{Value, ValueV};
use crate::text::{
    append_i64, append_u64, dec_int_chars, dec_uint_chars, hex_digit_char, push_char,
};
pub use crate::text::views_of;

verus! {

/// The escape sequence a single character contributes to a JSON string body.
pub open spec fn esc_char(c: char) -> Seq<char> {
    if c == '"' {
        seq!['\\', '"']
    } else if c == '\\' {
        seq!['\\', '\\']
    } else if c == '\u{8}' {
        seq!['\\', 'b']
    } else if c == '\t' {
        seq!['\\', 't']
    } else if c == '\n' {
        seq!['\\', 'n']
    } else if c == '\u{c}' {
        seq!['\\', 'f']
    } else if c == '\r' {
        seq!['\\', 'r']
    } else if (c as u32) < 32 {
        seq!['\\', 'u', '0', '0'] + seq![
            hex_digit_char((c as u32) as int / 16),
            hex_digit_char((c as u32) as int % 16),
        ]
    } else {
        seq![c]
    }
}

/// The body of a JSON string: every character replaced by its escape sequence.
pub open spec fn escape_chars(s: Seq<char>) -> Seq<char>
    decreases s.len(),
{
    if s.len() == 0 {
        Seq::empty()
    } else {
        escape_chars(s.drop_last()) + esc_char(s.last())
    }
}

/// A complete JSON string: the escaped body between double quotes.
pub open spec fn str_json(s: Seq<char>) -> Seq<char> {
    seq!['"'] + escape_chars(s) + seq!['"']
}

/// The given pieces joined by commas.
pub open spec fn join_comma(ps: Seq<Seq<char>>) -> Seq<char>
    decreases ps.len(),
{
    if ps.len() == 0 {
        Seq::empty()
    } else if ps.len() == 1 {
        ps[0]
    } else {
        join_comma(ps.drop_last()) + seq![','] + ps.last()
    }
}

/// One object member: the quoted, escaped key, a colon, and the rendered value.
pub open spec fn enc_entry(k: Seq<char>, v: Seq<char>) -> Seq<char> {
    str_json(k) + seq![':'] + v
}

/// The rendered members of an object, one piece per entry.
pub open spec fn enc_entries_of(es: Seq<(Seq<char>, Seq<char>)>) -> Seq<Seq<char>> {
    es.map_values(|e: (Seq<char>, Seq<char>)| enc_entry(e.0, e.1))
}

/// A JSON object over already-rendered member values.
pub open spec fn enc_obj(es: Seq<(Seq<char>, Seq<char>)>) -> Seq<char> {
    seq!['{'] + join_comma(enc_entries_of(es)) + seq!['}']
}

/// A JSON array over already-rendered elements.
pub open spec fn enc_arr(vs: Seq<Seq<char>>) -> Seq<char> {
    seq!['['] + join_comma(vs) + seq![']']
}

/// The rendering of a scalar field value.
pub open spec fn value_v_chars(v: ValueV) -> Seq<char> {
    match v {
        ValueV::I64(i) => dec_int_chars(i),
        ValueV::U64(u) => dec_uint_chars(u as nat),
        ValueV::Bool(b) => if b {
            "true"@
        } else {
            "false"@
        },
        ValueV::Str(s) => str_json(s),
        ValueV::Fallback(s) => str_json(s),
    }
}

/// Appending one rendered piece appends its view.
pub proof fn lemma_views_push(ps: Seq<String>, qs: Seq<String>, v: Seq<char>)
    requires
        qs.len() == ps.len() + 1,
        forall|j: int| 0 <= j < ps.len() ==> qs[j] == ps[j],
        qs.last()@ == v,
    ensures
        views_of(qs) == views_of(ps).push(v),
{
    assert(views_of(qs) =~= views_of(ps).push(v));
}

pub proof fn lemma_enc_entries_push(es: Seq<(Seq<char>, Seq<char>)>, e: (Seq<char>, Seq<char>))
    ensures
        enc_entries_of(es.push(e)) == enc_entries_of(es).push(enc_entry(e.0, e.1)),
{
    assert(enc_entries_of(es.push(e)) =~= enc_entries_of(es).push(enc_entry(e.0, e.1)));
}

/// The numeric value of a lowercase hexadecimal digit.
pub open spec fn hex_val(c: char) -> int {
    if c == '0' {
        0
    } else if c == '1' {
        1
    } else if c == '2' {
        2
    } else if c == '3' {
        3
    } else if c == '4' {
        4
    } else if c == '5' {
        5
    } else if c == '6' {
        6
    } else if c == '7' {
        7
    } else if c == '8' {
        8
    } else if c == '9' {
        9
    } else if c == 'a' {
        10
    } else if c == 'b' {
        11
    } else if c == 'c' {
        12
    } else if c == 'd' {
        13
    } else if c == 'e' {
        14
    } else {
        15
    }
}

/// The character a two-character escape denotes.
pub open spec fn unesc_short(c: char) -> char {
    if c == '"' {
        '"'
    } else if c == '\\' {
        '\\'
    } else if c == 'b' {
        '\u{8}'
    } else if c == 't' {
        '\t'
    } else if c == 'n' {
        '\n'
    } else if c == 'f' {
        '\u{c}'
    } else if c == 'r' {
        '\r'
    } else {
        c
    }
}

/// The decode of a JSON string body: each escape sequence read from the
/// front and replaced by the character it denotes.
pub open spec fn unescape_chars(t: Seq<char>) -> Seq<char>
    decreases t.len(),
{
    if t.len() == 0 {
        Seq::empty()
    } else if t[0] == '\\' {
        if t.len() >= 2 && t[1] == 'u' {
            if t.len() >= 6 {
                seq![
                    ((4096 * hex_val(t[2]) + 256 * hex_val(t[3]) + 16 * hex_val(t[4]) + hex_val(
                        t[5],
                    )) as u32) as char,
                ] + unescape_chars(t.skip(6))
            } else {
                Seq::empty()
            }
        } else if t.len() >= 2 {
            seq![unesc_short(t[1])] + unescape_chars(t.skip(2))
        } else {
            Seq::empty()
        }
    } else {
        seq![t[0]] + unescape_chars(t.skip(1))
    }
}

/// Escaping distributes over concatenation.
proof fn lemma_escape_concat(a: Seq<char>, b: Seq<char>)
    ensures
        escape_chars(a + b) == escape_chars(a) + escape_chars(b),
    decreases b.len(),
{
    if b.len() == 0 {
        assert(a + b =~= a);
        assert(escape_chars(a) + escape_chars(b) =~= escape_chars(a));
    } else {
        lemma_escape_concat(a, b.drop_last());
        assert((a + b).drop_last() =~= a + b.drop_last());
        assert((a + b).last() == b.last());
        assert(escape_chars(a + b) =~= escape_chars(a) + escape_chars(b));
    }
}

/// The decode of one escaped character resumes exactly after its escape.
proof fn lemma_unescape_step(c: char, rest: Seq<char>)
    ensures
        unescape_chars(esc_char(c) + rest) == seq![c] + unescape_chars(rest),
{
    let t = esc_char(c) + rest;
    if c == '"' || c == '\\' || c == '\u{8}' || c == '\t' || c == '\n' || c == '\u{c}' || c == '\r'
    {
        assert(t.skip(2) =~= rest);
        assert(unescape_chars(t) =~= seq![c] + unescape_chars(rest));
    } else if (c as u32) < 32 {
        assert(t.skip(6) =~= rest);
        let cv = c as u32;
        assert(hex_val(hex_digit_char(cv as int / 16)) == cv as int / 16);
        assert(hex_val(hex_digit_char(cv as int % 16)) == cv as int % 16);
        assert(4096 * hex_val('0') + 256 * hex_val('0') + 16 * hex_val(
            hex_digit_char(cv as int / 16),
        ) + hex_val(hex_digit_char(cv as int % 16)) == cv as int);
        assert(((cv as int) as u32) as char == c);
        assert(unescape_chars(t) =~= seq![c] + unescape_chars(rest));
    } else {
        assert(t.skip(1) =~= rest);
        assert(unescape_chars(t) =~= seq![c] + unescape_chars(rest));
    }
}

/// A recorded string is decoded back from its escaped body exactly: the
/// document carries the string itself, not a re-quoted or altered variant.
pub proof fn lemma_unescape_escape(s: Seq<char>)
    ensures
        unescape_chars(escape_chars(s)) == s,
    decreases s.len(),
{
    if s.len() > 0 {
        assert(seq![s[0]] + s.drop_first() =~= s);
        lemma_escape_concat(seq![s[0]], s.drop_first());
        assert(escape_chars(seq![s[0]]) =~= esc_char(s[0])) by {
            assert(seq![s[0]].len() == 1);
            assert(seq![s[0]].drop_last() =~= Seq::<char>::empty());
            assert(escape_chars(Seq::<char>::empty()) =~= Seq::<char>::empty());
            assert(seq![s[0]].last() == s[0]);
        }
        lemma_unescape_step(s[0], escape_chars(s.drop_first()));
        lemma_unescape_escape(s.drop_first());
        assert(unescape_chars(escape_chars(s)) =~= s);
    }
}

/// A string with no quote, no backslash and no control character is its own
/// escaped body: such text passes into the document unchanged.
pub proof fn lemma_escape_plain(s: Seq<char>)
    requires
        forall|i: int|
            0 <= i < s.len() ==> (#[trigger] s[i]) != '"' && s[i] != '\\' && (s[i] as u32) >= 32,
    ensures
        escape_chars(s) == s,
    decreases s.len(),
{
    if s.len() > 0 {
        lemma_escape_plain(s.drop_last());
        assert(esc_char(s.last()) == seq![s.last()]);
        assert(escape_chars(s) =~= s);
    }
}

pub proof fn lemma_escape_take(s: Seq<char>, i: int)
    requires
        0 <= i < s.len(),
    ensures
        escape_chars(s.take(i + 1)) == escape_chars(s.take(i)) + esc_char(s[i]),
{
    assert(s.take(i + 1).drop_last() =~= s.take(i));
    assert(s.take(i + 1).last() == s[i]);
}

pub proof fn lemma_join_comma_take(ps: Seq<Seq<char>>, i: int)
    requires
        1 <= i <= ps.len(),
    ensures
        join_comma(ps.take(i)) == if i == 1 {
            ps[0]
        } else {
            join_comma(ps.take(i - 1)) + seq![','] + ps[i - 1]
        },
{
    assert(ps.take(i).drop_last() =~= ps.take(i - 1));
    assert(ps.take(i).last() == ps[i - 1]);
    if i == 1 {
        assert(ps.take(1)[0] == ps[0]);
    }
}

fn append_esc_char(out: &mut String, c: char)
    ensures
        final(out)@ == old(out)@ + esc_char(c),
{
    if c == '"' {
        out.append("\\\"");
        proof {
            reveal_strlit("\\\"");
            assert(("\\\"")@ =~= seq!['\\', '"']);
        }
    } else if c == '\\' {
        out.append("\\\\");
        proof {
            reveal_strlit("\\\\");
            assert(("\\\\")@ =~= seq!['\\', '\\']);
        }
    } else if c == '\u{8}' {
        out.append("\\b");
        proof {
            reveal_strlit("\\b");
            assert(("\\b")@ =~= seq!['\\', 'b']);
        }
    } else if c == '\t' {
        out.append("\\t");
        proof {
            reveal_strlit("\\t");
            assert(("\\t")@ =~= seq!['\\', 't']);
        }
    } else if c == '\n' {
        out.append("\\n");
        proof {
            reveal_strlit("\\n");
            assert(("\\n")@ =~= seq!['\\', 'n']);
        }
    } else if c == '\u{c}' {
        out.append("\\f");
        proof {
            reveal_strlit("\\f");
            assert(("\\f")@ =~= seq!['\\', 'f']);
        }
    } else if c == '\r' {
        out.append("\\r");
        proof {
            reveal_strlit("\\r");
            assert(("\\r")@ =~= seq!['\\', 'r']);
        }
    } else if (c as u32) < 32 {
        out.append("\\u00");
        proof {
            reveal_strlit("\\u00");
            assert(("\\u00")@ =~= seq!['\\', 'u', '0', '0']);
        }
        crate::text::push_hex_pair(out, c as u32);
        assert(final(out)@ =~= old(out)@ + esc_char(c));
    } else {
        push_char(out, c);
    }
}

/// Appends the escaped body of `s`.
pub fn append_escaped(out: &mut String, s: &str)
    ensures
        final(out)@ == old(out)@ + escape_chars(s@),
{
    let n = s.unicode_len();
    let mut i: usize = 0;
    proof {
        assert(s@.take(0) =~= Seq::<char>::empty());
    }
    while i < n
        invariant
            n == s@.len(),
            i <= n,
            out@ == old(out)@ + escape_chars(s@.take(i as int)),
        decreases n - i,
    {
        let c = s.get_char(i);
        append_esc_char(out, c);
        proof {
            lemma_escape_take(s@, i as int);
        }
        i += 1;
    }
    proof {
        assert(s@.take(n as int) =~= s@);
    }
}

/// Appends the complete JSON string for `s`.
pub fn append_json_string(out: &mut String, s: &str)
    ensures
        final(out)@ == old(out)@ + str_json(s@),
{
    push_char(out, '"');
    append_escaped(out, s);
    push_char(out, '"');
    assert(final(out)@ =~= old(out)@ + str_json(s@));
}

/// Appends the rendering of a scalar field value.
pub fn append_value(out: &mut String, v: &Value)
    ensures
        final(out)@ == old(out)@ + value_v_chars(v.view_v()),
{
    match v {
        Value::I64(i) => append_i64(out, *i),
        Value::U64(u) => append_u64(out, *u),
        Value::Bool(b) => {
            if *b {
                out.append("true");
            } else {
                out.append("false");
            }
        },
        Value::Str(s) => append_json_string(out, s.as_str()),
        Value::Fallback(s) => append_json_string(out, s.as_str()),
    }
}

/// Renders one object member from a key and its already-rendered value.
pub fn render_entry(key: &str, val: &str) -> (r: String)
    ensures
        r@ == enc_entry(key@, val@),
{
    let mut out = String::new();
    append_json_string(&mut out, key);
    push_char(&mut out, ':');
    out.append(val);
    proof {
        assert(out@ =~= enc_entry(key@, val@));
    }
    out
}

/// Joins the given pieces with commas between `open` and `close`.
fn render_delimited(parts: &Vec<String>, open: char, close: char) -> (r: String)
    ensures
        r@ == seq![open] + join_comma(views_of(parts@)) + seq![close],
{
    let mut out = String::new();
    push_char(&mut out, open);
    let ghost vs = views_of(parts@);
    proof {
        assert(vs.take(0) =~= Seq::<Seq<char>>::empty());
    }
    let mut i: usize = 0;
    while i < parts.len()
        invariant
            vs == views_of(parts@),
            vs.len() == parts@.len(),
            i <= parts@.len(),
            out@ == seq![open] + join_comma(vs.take(i as int)),
        decreases parts@.len() - i,
    {
        if i > 0 {
            push_char(&mut out, ',');
        }
        out.append(parts[i].as_str());
        proof {
            assert(vs[i as int] == parts@[i as int]@);
            lemma_join_comma_take(vs, i as int + 1);
            assert(out@ =~= seq![open] + join_comma(vs.take(i as int + 1)));
        }
        i += 1;
    }
    proof {
        assert(vs.take(parts@.len() as int) =~= vs);
    }
    push_char(&mut out, close);
    proof {
        assert(out@ =~= seq![open] + join_comma(views_of(parts@)) + seq![close]);
    }
    out
}

/// Renders a JSON object whose members have already been rendered.
pub fn render_obj_parts(parts: &Vec<String>) -> (r: String)
    ensures
        r@ == seq!['{'] + join_comma(views_of(parts@)) + seq!['}'],
{
    render_delimited(parts, '{', '}')
}

/// Renders a JSON array whose elements have already been rendered.
pub fn render_arr_parts(parts: &Vec<String>) -> (r: String)
    ensures
        r@ == seq!['['] + join_comma(views_of(parts@)) + seq![']'],
{
    render_delimited(parts, '[', ']')
}

} // verus!
