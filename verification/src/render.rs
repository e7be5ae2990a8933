//! The renderer: walks a value tree and produces text in one of three
//! formats. JSON is pretty-printed with two-space indentation, quoted and
//! escaped keys and strings; Table and Yaml are one shared line-oriented
//! rendering (`<indent><key>: <scalar>`, nested objects at indent + 1).

use vstd::prelude::*;
use crate::value::Value;
use crate::value::scalar_text;
use crate::value::format_value;
use crate::text::u64_dec;

verus! {

#[derive(Clone, Copy, PartialEq, Eq, Structural, Debug)]
pub enum Format {
    Json,
    Table,
    Yaml,
}

pub open spec fn hex_char(d: nat) -> char {
    if d == 0 {
        '0'
    } else if d == 1 {
        '1'
    } else if d == 2 {
        '2'
    } else if d == 3 {
        '3'
    } else if d == 4 {
        '4'
    } else if d == 5 {
        '5'
    } else if d == 6 {
        '6'
    } else if d == 7 {
        '7'
    } else if d == 8 {
        '8'
    } else if d == 9 {
        '9'
    } else if d == 10 {
        'a'
    } else if d == 11 {
        'b'
    } else if d == 12 {
        'c'
    } else if d == 13 {
        'd'
    } else if d == 14 {
        'e'
    } else {
        'f'
    }
}

/// Standard JSON escaping of one character: quote and backslash escaped,
/// named escapes for the common control characters, `\u00XX` for the rest
/// of the control range, every other character kept as itself.
pub open spec fn esc_char(c: char) -> Seq<char> {
    if c == '"' {
        seq!['\\', '"']
    } else if c == '\\' {
        seq!['\\', '\\']
    } else if c == '\n' {
        seq!['\\', 'n']
    } else if c == '\r' {
        seq!['\\', 'r']
    } else if c == '\t' {
        seq!['\\', 't']
    } else if c == '\u{8}' {
        seq!['\\', 'b']
    } else if c == '\u{c}' {
        seq!['\\', 'f']
    } else if (c as u32) < 0x20 {
        seq!['\\', 'u', '0', '0', hex_char((c as u32 / 16) as nat), hex_char((c as u32 % 16) as nat)]
    } else {
        seq![c]
    }
}

pub open spec fn esc_string(s: Seq<char>) -> Seq<char>
    decreases s.len(),
{
    if s.len() == 0 {
        Seq::<char>::empty()
    } else {
        esc_string(s.drop_last()) + esc_char(s.last())
    }
}

/// JSON text of a value, where `prefix` is the indentation of the line the
/// value starts on (two spaces per nesting level).
pub open spec fn json_text(v: Value, prefix: Seq<char>) -> Seq<char>
    decreases v,
{
    match v {
        Value::Text(s) => seq!['"'] + esc_string(s@) + seq!['"'],
        Value::Number(n) => u64_dec(n as nat),
        Value::Boolean(b) => if b {
            "true"@
        } else {
            "false"@
        },
        Value::Object(entries) => {
            if entries@.len() == 0 {
                "{}"@
            } else {
                "{\n"@ + json_entries(entries@, prefix + "  "@) + "\n"@ + prefix + "}"@
            }
        },
    }
}

pub open spec fn json_entry(e: (String, Value), inner: Seq<char>) -> Seq<char>
    decreases e,
{
    inner + seq!['"'] + esc_string(e.0@) + "\": "@ + json_text(e.1, inner)
}

pub open spec fn json_entries(es: Seq<(String, Value)>, inner: Seq<char>) -> Seq<char>
    decreases es,
{
    if es.len() == 0 {
        Seq::<char>::empty()
    } else if es.len() == 1 {
        json_entry(es[0], inner)
    } else {
        json_entries(es.drop_last(), inner) + ",\n"@ + json_entry(es.last(), inner)
    }
}

/// Compact JSON text of a value: the same encoding as `json_text` with no
/// whitespace. It is the fallback text `format_value` gives a non-scalar
/// value.
pub open spec fn json_compact(v: Value) -> Seq<char>
    decreases v,
{
    match v {
        Value::Text(s) => seq!['"'] + esc_string(s@) + seq!['"'],
        Value::Number(n) => u64_dec(n as nat),
        Value::Boolean(b) => if b {
            "true"@
        } else {
            "false"@
        },
        Value::Object(entries) => "{"@ + json_compact_entries(entries@) + "}"@,
    }
}

pub open spec fn json_compact_entry(e: (String, Value)) -> Seq<char>
    decreases e,
{
    seq!['"'] + esc_string(e.0@) + "\":"@ + json_compact(e.1)
}

pub open spec fn json_compact_entries(es: Seq<(String, Value)>) -> Seq<char>
    decreases es,
{
    if es.len() == 0 {
        Seq::<char>::empty()
    } else if es.len() == 1 {
        json_compact_entry(es[0])
    } else {
        json_compact_entries(es.drop_last()) + ","@ + json_compact_entry(es.last())
    }
}

/// Table/Yaml text of a value: objects render one `key: value` line per
/// entry in insertion order, nested objects as `key:` followed by the
/// children one level deeper; a top-level scalar is a single line.
pub open spec fn fmt_lines(v: Value, prefix: Seq<char>) -> Seq<char>
    decreases v,
{
    match v {
        Value::Object(entries) => fmt_entries(entries@, prefix),
        _ => prefix + scalar_text(v) + "\n"@,
    }
}

pub open spec fn fmt_entry(e: (String, Value), prefix: Seq<char>) -> Seq<char>
    decreases e,
{
    match e.1 {
        Value::Object(_) => e.0@ + ":\n"@ + fmt_lines(e.1, prefix + "  "@),
        _ => e.0@ + ": "@ + scalar_text(e.1) + "\n"@,
    }
}

pub open spec fn fmt_entries(es: Seq<(String, Value)>, prefix: Seq<char>) -> Seq<char>
    decreases es,
{
    if es.len() == 0 {
        Seq::<char>::empty()
    } else {
        fmt_entries(es.drop_last(), prefix) + prefix + fmt_entry(es.last(), prefix)
    }
}

/// What `render` returns for each format.
pub open spec fn render_text(v: Value, fmt: Format) -> Seq<char> {
    match fmt {
        Format::Json => json_text(v, Seq::<char>::empty()),
        Format::Table => fmt_lines(v, Seq::<char>::empty()),
        Format::Yaml => fmt_lines(v, Seq::<char>::empty()),
    }
}

fn hex_to_char(d: u32) -> (c: char)
    requires
        d < 16,
    ensures
        c == hex_char(d as nat),
{
    if d == 0 {
        '0'
    } else if d == 1 {
        '1'
    } else if d == 2 {
        '2'
    } else if d == 3 {
        '3'
    } else if d == 4 {
        '4'
    } else if d == 5 {
        '5'
    } else if d == 6 {
        '6'
    } else if d == 7 {
        '7'
    } else if d == 8 {
        '8'
    } else if d == 9 {
        '9'
    } else if d == 10 {
        'a'
    } else if d == 11 {
        'b'
    } else if d == 12 {
        'c'
    } else if d == 13 {
        'd'
    } else if d == 14 {
        'e'
    } else {
        'f'
    }
}

fn push_escaped_char(out: &mut String, c: char)
    ensures
        final(out)@ == old(out)@ + esc_char(c),
{
    if c == '"' {
        out.push('\\');
        out.push('"');
    } else if c == '\\' {
        out.push('\\');
        out.push('\\');
    } else if c == '\n' {
        out.push('\\');
        out.push('n');
    } else if c == '\r' {
        out.push('\\');
        out.push('r');
    } else if c == '\t' {
        out.push('\\');
        out.push('t');
    } else if c == '\u{8}' {
        out.push('\\');
        out.push('b');
    } else if c == '\u{c}' {
        out.push('\\');
        out.push('f');
    } else if (c as u32) < 0x20 {
        out.push('\\');
        out.push('u');
        out.push('0');
        out.push('0');
        out.push(hex_to_char(c as u32 / 16));
        out.push(hex_to_char(c as u32 % 16));
    } else {
        out.push(c);
    }
    proof {
        assert(out@ =~= old(out)@ + esc_char(c));
    }
}

fn write_escaped(out: &mut String, s: &str)
    ensures
        final(out)@ == old(out)@ + esc_string(s@),
{
    let len = s.unicode_len();
    let mut i: usize = 0;
    while i < len
        invariant
            0 <= i <= len,
            len == s@.len(),
            out@ == old(out)@ + esc_string(s@.take(i as int)),
        decreases len - i,
    {
        push_escaped_char(out, s.get_char(i));
        proof {
            assert(s@.take(i + 1).drop_last() =~= s@.take(i as int));
            assert(s@.take(i + 1).last() == s@[i as int]);
        }
        i = i + 1;
    }
    proof {
        assert(s@.take(len as int) =~= s@);
    }
}

fn child_prefix(prefix: &str) -> (r: String)
    ensures
        r@ == prefix@ + "  "@,
{
    let mut r = prefix.to_owned();
    r.append("  ");
    r
}

fn write_json(v: &Value, prefix: &str, out: &mut String)
    ensures
        final(out)@ == old(out)@ + json_text(*v, prefix@),
    decreases *v,
{
    match v {
        Value::Text(s) => {
            out.push('"');
            write_escaped(out, s.as_str());
            out.push('"');
            proof {
                assert(out@ =~= old(out)@ + json_text(*v, prefix@));
            }
        },
        Value::Number(n) => {
            crate::text::push_decimal(out, *n);
        },
        Value::Boolean(b) => {
            if *b {
                out.append("true");
            } else {
                out.append("false");
            }
        },
        Value::Object(entries) => {
            let n = entries.len();
            if n == 0 {
                out.append("{}");
            } else {
                out.append("{\n");
                let inner = child_prefix(prefix);
                let mut k: usize = 0;
                while k < n
                    invariant
                        0 < n == entries@.len(),
                        0 <= k <= n,
                        inner@ == prefix@ + "  "@,
                        v == Value::Object(*entries),
                        out@ == old(out)@ + "{\n"@ + json_entries(
                            entries@.take(k as int),
                            inner@,
                        ),
                    decreases n - k,
                {
                    if k > 0 {
                        out.append(",\n");
                    }
                    out.append(inner.as_str());
                    out.push('"');
                    write_escaped(out, entries[k].0.as_str());
                    out.append("\": ");
                    proof {
                        assert(*entries == v->Object_0);
                        assert(decreases_to!(*v => v->Object_0));
                        assert(decreases_to!(*entries => entries@));
                        assert(decreases_to!(entries@ => entries@[k as int]));
                        assert(decreases_to!(entries@[k as int] => entries@[k as int].1));
                    }
                    write_json(&entries[k].1, inner.as_str(), out);
                    proof {
                        let es = entries@;
                        assert(es.take(k + 1).drop_last() =~= es.take(k as int));
                        assert(es.take(k + 1).last() == es[k as int]);
                        if k == 0 {
                            assert(es.take(1)[0] == es[0]);
                            assert(json_entries(es.take(k + 1), inner@) == json_entry(
                                es[k as int],
                                inner@,
                            ));
                        } else {
                            assert(json_entries(es.take(k + 1), inner@) == json_entries(
                                es.take(k as int),
                                inner@,
                            ) + ",\n"@ + json_entry(es[k as int], inner@));
                        }
                        assert(json_entry(es[k as int], inner@) =~= inner@ + seq!['"']
                            + esc_string(es[k as int].0@) + "\": "@ + json_text(
                            es[k as int].1,
                            inner@,
                        ));
                        assert(out@ =~= old(out)@ + "{\n"@ + json_entries(
                            es.take(k + 1),
                            inner@,
                        ));
                    }
                    k = k + 1;
                }
                out.append("\n");
                out.append(prefix);
                out.append("}");
                proof {
                    assert(entries@.take(n as int) =~= entries@);
                    assert(out@ =~= old(out)@ + json_text(*v, prefix@));
                }
            }
        },
    }
}

pub(crate) fn write_json_compact(v: &Value, out: &mut String)
    ensures
        final(out)@ == old(out)@ + json_compact(*v),
    decreases *v,
{
    match v {
        Value::Text(s) => {
            out.push('"');
            write_escaped(out, s.as_str());
            out.push('"');
            proof {
                assert(out@ =~= old(out)@ + json_compact(*v));
            }
        },
        Value::Number(n) => {
            crate::text::push_decimal(out, *n);
        },
        Value::Boolean(b) => {
            if *b {
                out.append("true");
            } else {
                out.append("false");
            }
        },
        Value::Object(entries) => {
            let n = entries.len();
            out.append("{");
            let mut k: usize = 0;
            while k < n
                invariant
                    n == entries@.len(),
                    0 <= k <= n,
                    v == Value::Object(*entries),
                    out@ == old(out)@ + "{"@ + json_compact_entries(entries@.take(k as int)),
                decreases n - k,
            {
                if k > 0 {
                    out.append(",");
                }
                out.push('"');
                write_escaped(out, entries[k].0.as_str());
                out.append("\":");
                proof {
                    assert(*entries == v->Object_0);
                    assert(decreases_to!(*v => v->Object_0));
                    assert(decreases_to!(*entries => entries@));
                    assert(decreases_to!(entries@ => entries@[k as int]));
                    assert(decreases_to!(entries@[k as int] => entries@[k as int].1));
                }
                write_json_compact(&entries[k].1, out);
                proof {
                    let es = entries@;
                    assert(es.take(k + 1).drop_last() =~= es.take(k as int));
                    assert(es.take(k + 1).last() == es[k as int]);
                    if k == 0 {
                        assert(es.take(1)[0] == es[0]);
                        assert(json_compact_entries(es.take(k + 1)) == json_compact_entry(
                            es[k as int],
                        ));
                    } else {
                        assert(json_compact_entries(es.take(k + 1)) == json_compact_entries(
                            es.take(k as int),
                        ) + ","@ + json_compact_entry(es[k as int]));
                    }
                    assert(json_compact_entry(es[k as int]) =~= seq!['"'] + esc_string(
                        es[k as int].0@,
                    ) + "\":"@ + json_compact(es[k as int].1));
                    assert(out@ =~= old(out)@ + "{"@ + json_compact_entries(es.take(k + 1)));
                }
                k = k + 1;
            }
            out.append("}");
            proof {
                assert(entries@.take(n as int) =~= entries@);
                assert(out@ =~= old(out)@ + json_compact(*v));
            }
        },
    }
}

fn write_fmt_lines(v: &Value, prefix: &str, out: &mut String)
    ensures
        final(out)@ == old(out)@ + fmt_lines(*v, prefix@),
    decreases *v,
{
    match v {
        Value::Object(entries) => {
            let n = entries.len();
            let mut k: usize = 0;
            while k < n
                invariant
                    n == entries@.len(),
                    0 <= k <= n,
                    v == Value::Object(*entries),
                    out@ == old(out)@ + fmt_entries(entries@.take(k as int), prefix@),
                decreases n - k,
            {
                out.append(prefix);
                out.append(entries[k].0.as_str());
                let child_is_object = match &entries[k].1 {
                    Value::Object(_) => true,
                    _ => false,
                };
                if child_is_object {
                    out.append(":\n");
                    let inner = child_prefix(prefix);
                    proof {
                        assert(*entries == v->Object_0);
                        assert(decreases_to!(*v => v->Object_0));
                        assert(decreases_to!(*entries => entries@));
                        assert(decreases_to!(entries@ => entries@[k as int]));
                        assert(decreases_to!(entries@[k as int] => entries@[k as int].1));
                    }
                    write_fmt_lines(&entries[k].1, inner.as_str(), out);
                } else {
                    out.append(": ");
                    let scalar = format_value(&entries[k].1);
                    out.append(scalar.as_str());
                    out.append("\n");
                }
                proof {
                    let es = entries@;
                    assert(es.take(k + 1).drop_last() =~= es.take(k as int));
                    assert(es.take(k + 1).last() == es[k as int]);
                    assert(fmt_entries(es.take(k + 1), prefix@) == fmt_entries(
                        es.take(k as int),
                        prefix@,
                    ) + prefix@ + fmt_entry(es[k as int], prefix@));
                    assert(out@ =~= old(out)@ + fmt_entries(es.take(k + 1), prefix@));
                }
                k = k + 1;
            }
            proof {
                assert(entries@.take(n as int) =~= entries@);
            }
        },
        _ => {
            out.append(prefix);
            let scalar = format_value(v);
            out.append(scalar.as_str());
            out.append("\n");
            proof {
                assert(out@ =~= old(out)@ + fmt_lines(*v, prefix@));
            }
        },
    }
}

/// Renders a value tree as text in the requested format.
pub fn render(v: &Value, fmt: Format) -> (out: String)
    ensures
        out@ == render_text(*v, fmt),
{
    let mut out = String::new();
    match fmt {
        Format::Json => write_json(v, "", &mut out),
        Format::Table => write_fmt_lines(v, "", &mut out),
        Format::Yaml => write_fmt_lines(v, "", &mut out),
    }
    proof {
        reveal_strlit("");
        assert(""@ =~= Seq::<char>::empty());
        assert(out@ =~= render_text(*v, fmt));
    }
    out
}

/// Table and Yaml output are line-for-line identical for every value tree:
/// the two formats share one recursive rendering. A caller may prepend its
/// own header line to either.
pub proof fn lemma_table_yaml_identical(v: Value)
    ensures
        render_text(v, Format::Table) == render_text(v, Format::Yaml),
{
}

/// Rendering is deterministic: two renderings of the same value tree in the
/// same format are identical character for character.
pub proof fn lemma_render_idempotent(v: Value, fmt: Format, first: Seq<char>, second: Seq<char>)
    requires
        first == render_text(v, fmt),
        second == render_text(v, fmt),
    ensures
        first == second,
{
}


// ---------------------------------------------------------------------------
// Laws
// ---------------------------------------------------------------------------

pub open spec fn hex_val(c: char) -> nat {
    if c == '0' {
        0
    } else if c == '1' {
        1
    } else if c == '2' {
        2
    } else if c == '3' {
        3
    } else if c == '4' {
        4
    } else if c == '5' {
        5
    } else if c == '6' {
        6
    } else if c == '7' {
        7
    } else if c == '8' {
        8
    } else if c == '9' {
        9
    } else if c == 'a' {
        10
    } else if c == 'b' {
        11
    } else if c == 'c' {
        12
    } else if c == 'd' {
        13
    } else if c == 'e' {
        14
    } else {
        15
    }
}

pub open spec fn opt_cons(c: char, r: Option<Seq<char>>) -> Option<Seq<char>> {
    match r {
        Some(t) => Some(seq![c] + t),
        None => None,
    }
}

/// Standard JSON string unescaping, for the escapes this renderer emits:
/// the inverse reading of `esc_string`.
pub open spec fn unesc_string(s: Seq<char>) -> Option<Seq<char>>
    decreases s.len(),
{
    if s.len() == 0 {
        Some(Seq::<char>::empty())
    } else if s[0] == '\\' {
        if s.len() < 2 {
            None
        } else {
            let c = s[1];
            if c == '"' {
                opt_cons('"', unesc_string(s.skip(2)))
            } else if c == '\\' {
                opt_cons('\\', unesc_string(s.skip(2)))
            } else if c == 'n' {
                opt_cons('\n', unesc_string(s.skip(2)))
            } else if c == 'r' {
                opt_cons('\r', unesc_string(s.skip(2)))
            } else if c == 't' {
                opt_cons('\t', unesc_string(s.skip(2)))
            } else if c == 'b' {
                opt_cons('\u{8}', unesc_string(s.skip(2)))
            } else if c == 'f' {
                opt_cons('\u{c}', unesc_string(s.skip(2)))
            } else if c == 'u' {
                if s.len() < 6 {
                    None
                } else {
                    let v: u32 = (16 * hex_val(s[4]) + hex_val(s[5])) as u32;
                    if s[2] == '0' && s[3] == '0' {
                        opt_cons(v as char, unesc_string(s.skip(6)))
                    } else {
                        None
                    }
                }
            } else {
                None
            }
        }
    } else {
        opt_cons(s[0], unesc_string(s.drop_first()))
    }
}

proof fn lemma_hex_val_of_hex_char(d: nat)
    requires
        d < 16,
    ensures
        hex_val(hex_char(d)) == d,
{
}

proof fn lemma_esc_first(s: Seq<char>)
    requires
        s.len() > 0,
    ensures
        esc_string(s) == esc_char(s[0]) + esc_string(s.drop_first()),
    decreases s.len(),
{
    if s.len() == 1 {
        assert(s.drop_last() =~= Seq::<char>::empty());
        assert(s.drop_first() =~= Seq::<char>::empty());
        assert(esc_string(s) =~= esc_char(s[0]) + esc_string(s.drop_first()));
    } else {
        lemma_esc_first(s.drop_last());
        assert(s.drop_last().drop_first() =~= s.drop_first().drop_last());
        assert(s.drop_first().last() == s.last());
        assert(s.drop_last()[0] == s[0]);
        assert(esc_string(s) == esc_string(s.drop_last()) + esc_char(s.last()));
        assert(esc_string(s.drop_first()) == esc_string(s.drop_first().drop_last()) + esc_char(
            s.drop_first().last(),
        ));
        assert(esc_string(s) =~= esc_char(s[0]) + esc_string(s.drop_first()));
    }
}

/// Escaping then unescaping a string by the standard JSON rules gives the
/// string back: the scalar core of the JSON round trip.
pub proof fn lemma_escape_round_trip(s: Seq<char>)
    ensures
        unesc_string(esc_string(s)) == Some(s),
    decreases s.len(),
{
    if s.len() == 0 {
        assert(esc_string(s) =~= Seq::<char>::empty());
    } else {
        let c = s[0];
        let rest = s.drop_first();
        lemma_esc_first(s);
        lemma_escape_round_trip(rest);
        let e = esc_string(s);
        let ec = esc_char(c);
        assert(e == ec + esc_string(rest));
        if c == '"' || c == '\\' || c == '\n' || c == '\r' || c == '\t' || c == '\u{8}' || c
            == '\u{c}' {
            assert(e.len() >= 2);
            assert(e[0] == '\\');
            assert(e.skip(2) =~= esc_string(rest));
            assert(unesc_string(e) == opt_cons(c, Some(rest)));
            assert(seq![c] + rest =~= s);
        } else if (c as u32) < 0x20 {
            assert(e.len() >= 6);
            assert(e[0] == '\\' && e[1] == 'u' && e[2] == '0' && e[3] == '0');
            assert(e[4] == hex_char((c as u32 / 16) as nat));
            assert(e[5] == hex_char((c as u32 % 16) as nat));
            lemma_hex_val_of_hex_char((c as u32 / 16) as nat);
            lemma_hex_val_of_hex_char((c as u32 % 16) as nat);
            let v: u32 = (16 * hex_val(e[4]) + hex_val(e[5])) as u32;
            assert(16 * hex_val(e[4]) + hex_val(e[5]) == 16 * (c as u32 / 16) + (c as u32 % 16));
            assert(16 * (c as u32 / 16) + (c as u32 % 16) == c as u32) by {
                vstd::arithmetic::div_mod::lemma_fundamental_div_mod(c as u32 as int, 16);
            };
            assert(c as u32 == v);
            assert(v as char == c) by {
                vstd::utf8::char_u32_cast(c, v);
            };
            assert(e.skip(6) =~= esc_string(rest));
            assert(unesc_string(e) == opt_cons(c, Some(rest)));
            assert(seq![c] + rest =~= s);
        } else {
            assert(ec =~= seq![c]);
            assert(e[0] == c);
            assert(c != '\\');
            assert(e.drop_first() =~= esc_string(rest));
            assert(unesc_string(e) == opt_cons(c, Some(rest)));
            assert(seq![c] + rest =~= s);
        }
    }
}

} // verus!
