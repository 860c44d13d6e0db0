//! JSON wire form. The request model is encoded by this crate itself, so
//! the exact text put on the wire is specified here: a structural model of a
//! JSON document (`JVal`), a rendering function from the model to text, and
//! verified emitters that produce exactly that text. Unset optional fields
//! are never rendered as `null`; they are omitted by the encoders that build
//! the field lists.

use vstd::prelude::*;

verus! {

/// Structural model of a JSON document. `Raw` splices pre-rendered JSON
/// text (a schema document supplied by the caller) into the output
/// verbatim.
pub enum JVal {
    Null,
    Bool(bool),
    UInt(u64),
    Str(Seq<char>),
    Raw(Seq<char>),
    Arr(Seq<JVal>),
    Obj(Seq<(Seq<char>, JVal)>),
}

/// The hexadecimal digit character for `d`.
pub open spec fn hex_digit(d: nat) -> char {
    if d == 0 {
        '0'
    } else if d == 1 {
        '1'
    } else if d == 2 {
        '2'
    } else if d == 3 {
        '3'
    } else if d == 4 {
        '4'
    } else if d == 5 {
        '5'
    } else if d == 6 {
        '6'
    } else if d == 7 {
        '7'
    } else if d == 8 {
        '8'
    } else if d == 9 {
        '9'
    } else if d == 10 {
        'a'
    } else if d == 11 {
        'b'
    } else if d == 12 {
        'c'
    } else if d == 13 {
        'd'
    } else if d == 14 {
        'e'
    } else {
        'f'
    }
}

/// The decimal digit character for `d`.
pub open spec fn digit_char(d: nat) -> char {
    if d == 0 {
        '0'
    } else if d == 1 {
        '1'
    } else if d == 2 {
        '2'
    } else if d == 3 {
        '3'
    } else if d == 4 {
        '4'
    } else if d == 5 {
        '5'
    } else if d == 6 {
        '6'
    } else if d == 7 {
        '7'
    } else if d == 8 {
        '8'
    } else {
        '9'
    }
}

/// The decimal representation of `n`, most significant digit first.
pub open spec fn dec_digits(n: nat) -> Seq<char>
    decreases n,
{
    if n < 10 {
        seq![digit_char(n)]
    } else {
        dec_digits(n / 10) + seq![digit_char(n % 10)]
    }
}

/// How one character appears inside a JSON string literal: the two-character
/// escapes of the quote, backslash and common control characters, the
/// `\u00..` form for the remaining control characters, and the character
/// itself otherwise.
pub open spec fn escape_char(c: char) -> Seq<char> {
    if c == '"' {
        seq!['\\', '"']
    } else if c == '\\' {
        seq!['\\', '\\']
    } else if c == '\n' {
        seq!['\\', 'n']
    } else if c == '\r' {
        seq!['\\', 'r']
    } else if c == '\t' {
        seq!['\\', 't']
    } else if (c as u32) < 32 {
        seq!['\\', 'u', '0', '0', hex_digit(((c as u32) / 16) as nat), hex_digit(
            ((c as u32) % 16) as nat,
        )]
    } else {
        seq![c]
    }
}

/// The body of a JSON string literal for the characters `s`.
pub open spec fn escape_string(s: Seq<char>) -> Seq<char>
    decreases s.len(),
{
    if s.len() == 0 {
        Seq::empty()
    } else {
        escape_char(s[0]) + escape_string(s.drop_first())
    }
}

/// Escaping distributes over concatenation.
pub proof fn lemma_escape_concat(a: Seq<char>, b: Seq<char>)
    ensures
        escape_string(a + b) == escape_string(a) + escape_string(b),
    decreases a.len(),
{
    if a.len() == 0 {
        assert(a + b =~= b);
        assert(escape_string(a) + escape_string(b) =~= escape_string(b));
    } else {
        assert((a + b).drop_first() =~= a.drop_first() + b);
        lemma_escape_concat(a.drop_first(), b);
        assert(escape_char(a[0]) + (escape_string(a.drop_first()) + escape_string(b))
            =~= (escape_char(a[0]) + escape_string(a.drop_first())) + escape_string(b));
        assert((a + b)[0] == a[0]);
    }
}

/// A complete JSON string literal for the characters `s`.
pub open spec fn quoted(s: Seq<char>) -> Seq<char> {
    seq!['"'] + escape_string(s) + seq!['"']
}

/// The text of one JSON value.
pub open spec fn render(v: JVal) -> Seq<char>
    decreases v,
{
    match v {
        JVal::Null => seq!['n', 'u', 'l', 'l'],
        JVal::Bool(b) => if b {
            seq!['t', 'r', 'u', 'e']
        } else {
            seq!['f', 'a', 'l', 's', 'e']
        },
        JVal::UInt(n) => dec_digits(n as nat),
        JVal::Str(s) => quoted(s),
        JVal::Raw(s) => s,
        JVal::Arr(items) => seq!['['] + render_items(items) + seq![']'],
        JVal::Obj(fields) => seq!['{'] + render_fields(fields) + seq!['}'],
    }
}

/// The comma-separated elements of a JSON array.
pub open spec fn render_items(items: Seq<JVal>) -> Seq<char>
    decreases items,
{
    if items.len() == 0 {
        Seq::empty()
    } else {
        render(items[0]) + render_items_tail(items.drop_first())
    }
}

/// Array elements after the first: each preceded by a comma.
pub open spec fn render_items_tail(items: Seq<JVal>) -> Seq<char>
    decreases items,
{
    if items.len() == 0 {
        Seq::empty()
    } else {
        seq![','] + render(items[0]) + render_items_tail(items.drop_first())
    }
}

/// One `"key": value` member of a JSON object.
pub open spec fn render_field(f: (Seq<char>, JVal)) -> Seq<char>
    decreases f,
{
    quoted(f.0) + seq![':'] + render(f.1)
}

/// The comma-separated members of a JSON object.
pub open spec fn render_fields(fields: Seq<(Seq<char>, JVal)>) -> Seq<char>
    decreases fields,
{
    if fields.len() == 0 {
        Seq::empty()
    } else {
        render_field(fields[0]) + render_fields_tail(fields.drop_first())
    }
}

/// Object members after the first: each preceded by a comma.
pub open spec fn render_fields_tail(fields: Seq<(Seq<char>, JVal)>) -> Seq<char>
    decreases fields,
{
    if fields.len() == 0 {
        Seq::empty()
    } else {
        seq![','] + render_field(fields[0]) + render_fields_tail(fields.drop_first())
    }
}

/// Rendering of the comma-prefixed member list distributes over
/// concatenation of field lists.
pub proof fn lemma_fields_tail_concat(a: Seq<(Seq<char>, JVal)>, b: Seq<(Seq<char>, JVal)>)
    ensures
        render_fields_tail(a + b) == render_fields_tail(a) + render_fields_tail(b),
    decreases a.len(),
{
    if a.len() == 0 {
        assert(a + b =~= b);
        assert(render_fields_tail(a) + render_fields_tail(b) =~= render_fields_tail(b));
    } else {
        assert((a + b).drop_first() =~= a.drop_first() + b);
        lemma_fields_tail_concat(a.drop_first(), b);
        assert((a + b)[0] == a[0]);
        assert((seq![','] + render_field(a[0])) + (render_fields_tail(a.drop_first())
            + render_fields_tail(b)) =~= ((seq![','] + render_field(a[0]) + render_fields_tail(
            a.drop_first(),
        )) + render_fields_tail(b)));
    }
}

/// Rendering of the comma-prefixed element list distributes over
/// concatenation of element lists.
pub proof fn lemma_items_tail_concat(a: Seq<JVal>, b: Seq<JVal>)
    ensures
        render_items_tail(a + b) == render_items_tail(a) + render_items_tail(b),
    decreases a.len(),
{
    if a.len() == 0 {
        assert(a + b =~= b);
        assert(render_items_tail(a) + render_items_tail(b) =~= render_items_tail(b));
    } else {
        assert((a + b).drop_first() =~= a.drop_first() + b);
        lemma_items_tail_concat(a.drop_first(), b);
        assert((a + b)[0] == a[0]);
        assert((seq![','] + render(a[0])) + (render_items_tail(a.drop_first())
            + render_items_tail(b)) =~= ((seq![','] + render(a[0]) + render_items_tail(
            a.drop_first(),
        )) + render_items_tail(b)));
    }
}

/// A non-empty member list renders as its first member followed by the
/// comma-prefixed rest.
pub proof fn lemma_fields_cons(f: (Seq<char>, JVal), rest: Seq<(Seq<char>, JVal)>)
    ensures
        render_fields(seq![f] + rest) == render_field(f) + render_fields_tail(rest),
{
    let fs = seq![f] + rest;
    assert(fs.len() >= 1);
    assert(fs[0] == f);
    assert(fs.drop_first() =~= rest);
}

/// A single comma-prefixed member renders as a comma and the member.
pub proof fn lemma_fields_tail_singleton(f: (Seq<char>, JVal))
    ensures
        render_fields_tail(seq![f]) == seq![','] + render_field(f),
{
    assert(seq![f][0] == f);
    assert(seq![f].drop_first() =~= Seq::<(Seq<char>, JVal)>::empty());
    assert(render_fields_tail(Seq::<(Seq<char>, JVal)>::empty()) == Seq::<char>::empty());
    assert((seq![','] + render_field(f)) + Seq::<char>::empty() =~= seq![','] + render_field(f));
}

/// A single comma-prefixed element renders as a comma and the element.
pub proof fn lemma_items_tail_singleton(v: JVal)
    ensures
        render_items_tail(seq![v]) == seq![','] + render(v),
{
    assert(seq![v][0] == v);
    assert(seq![v].drop_first() =~= Seq::<JVal>::empty());
    assert(render_items_tail(Seq::<JVal>::empty()) == Seq::<char>::empty());
    assert((seq![','] + render(v)) + Seq::<char>::empty() =~= seq![','] + render(v));
}

/// Relies on `String`'s `FromIterator<char>` implementation in std:
/// collecting characters yields the string of exactly those characters, in
/// order.
#[verifier::external_body]
pub(crate) fn chars_to_string(v: &Vec<char>) -> (s: String)
    ensures
        s@ == v@,
{
    v.iter().collect()
}

/// The hexadecimal digit character for `d`, executably.
fn hex_digit_exec(d: u32) -> (c: char)
    requires
        d < 16,
    ensures
        c == hex_digit(d as nat),
{
    if d == 0 {
        '0'
    } else if d == 1 {
        '1'
    } else if d == 2 {
        '2'
    } else if d == 3 {
        '3'
    } else if d == 4 {
        '4'
    } else if d == 5 {
        '5'
    } else if d == 6 {
        '6'
    } else if d == 7 {
        '7'
    } else if d == 8 {
        '8'
    } else if d == 9 {
        '9'
    } else if d == 10 {
        'a'
    } else if d == 11 {
        'b'
    } else if d == 12 {
        'c'
    } else if d == 13 {
        'd'
    } else if d == 14 {
        'e'
    } else {
        'f'
    }
}

/// The decimal digit character for `d`, executably.
fn digit_char_exec(d: u64) -> (c: char)
    requires
        d < 10,
    ensures
        c == digit_char(d as nat),
{
    if d == 0 {
        '0'
    } else if d == 1 {
        '1'
    } else if d == 2 {
        '2'
    } else if d == 3 {
        '3'
    } else if d == 4 {
        '4'
    } else if d == 5 {
        '5'
    } else if d == 6 {
        '6'
    } else if d == 7 {
        '7'
    } else if d == 8 {
        '8'
    } else {
        '9'
    }
}

/// Appends the decimal representation of `n`.
pub(crate) fn emit_u64(out: &mut Vec<char>, n: u64)
    ensures
        final(out)@ == old(out)@ + dec_digits(n as nat),
    decreases n,
{
    if n < 10 {
        let c = digit_char_exec(n);
        out.push(c);
        proof {
            assert(old(out)@ + seq![digit_char(n as nat)] =~= old(out)@ + dec_digits(n as nat));
        }
    } else {
        emit_u64(out, n / 10);
        let c = digit_char_exec(n % 10);
        out.push(c);
        proof {
            assert((old(out)@ + dec_digits((n / 10) as nat)) + seq![digit_char((n % 10) as nat)]
                =~= old(out)@ + dec_digits(n as nat));
        }
    }
}

/// Appends the characters of `s` unchanged.
pub(crate) fn emit_raw(out: &mut Vec<char>, s: &str)
    ensures
        final(out)@ == old(out)@ + s@,
{
    let n = s.unicode_len();
    let mut i: usize = 0;
    while i < n
        invariant
            n == s@.len(),
            i <= n,
            out@ == old(out)@ + s@.take(i as int),
        decreases n - i,
    {
        let c = s.get_char(i);
        out.push(c);
        proof {
            assert((old(out)@ + s@.take(i as int)) + seq![s@[i as int]] =~= old(out)@ + s@.take(
                i + 1,
            ));
        }
        i = i + 1;
    }
    proof {
        assert(s@.take(n as int) =~= s@);
    }
}

/// Appends the escaped form of one character.
fn emit_escaped_char(out: &mut Vec<char>, c: char)
    ensures
        final(out)@ == old(out)@ + escape_char(c),
{
    if c == '"' {
        out.push('\\');
        out.push('"');
        proof {
            assert(old(out)@ + seq!['\\'] + seq!['"'] =~= old(out)@ + escape_char(c));
        }
    } else if c == '\\' {
        out.push('\\');
        out.push('\\');
        proof {
            assert(old(out)@ + seq!['\\'] + seq!['\\'] =~= old(out)@ + escape_char(c));
        }
    } else if c == '\n' {
        out.push('\\');
        out.push('n');
        proof {
            assert(old(out)@ + seq!['\\'] + seq!['n'] =~= old(out)@ + escape_char(c));
        }
    } else if c == '\r' {
        out.push('\\');
        out.push('r');
        proof {
            assert(old(out)@ + seq!['\\'] + seq!['r'] =~= old(out)@ + escape_char(c));
        }
    } else if c == '\t' {
        out.push('\\');
        out.push('t');
        proof {
            assert(old(out)@ + seq!['\\'] + seq!['t'] =~= old(out)@ + escape_char(c));
        }
    } else {
        let v = c as u32;
        if v < 32 {
            out.push('\\');
            out.push('u');
            out.push('0');
            out.push('0');
            let h = hex_digit_exec(v / 16);
            out.push(h);
            let l = hex_digit_exec(v % 16);
            out.push(l);
            proof {
                assert(old(out)@ + seq!['\\'] + seq!['u'] + seq!['0'] + seq!['0'] + seq![
                    hex_digit(((c as u32) / 16) as nat),
                ] + seq![hex_digit(((c as u32) % 16) as nat)] =~= old(out)@ + escape_char(c));
            }
        } else {
            out.push(c);
            proof {
                assert(old(out)@ + seq![c] =~= old(out)@ + escape_char(c));
            }
        }
    }
}

/// Appends the escaped body of a JSON string literal for `s`.
fn emit_escaped(out: &mut Vec<char>, s: &str)
    ensures
        final(out)@ == old(out)@ + escape_string(s@),
{
    let n = s.unicode_len();
    let mut i: usize = 0;
    while i < n
        invariant
            n == s@.len(),
            i <= n,
            out@ == old(out)@ + escape_string(s@.take(i as int)),
        decreases n - i,
    {
        let c = s.get_char(i);
        emit_escaped_char(out, c);
        proof {
            assert(s@.take(i + 1) =~= s@.take(i as int) + seq![s@[i as int]]);
            lemma_escape_concat(s@.take(i as int), seq![s@[i as int]]);
            assert(escape_string(seq![s@[i as int]]) =~= escape_char(s@[i as int])) by {
                assert(seq![s@[i as int]].len() == 1);
                assert(seq![s@[i as int]][0] == s@[i as int]);
                assert(seq![s@[i as int]].drop_first() =~= Seq::<char>::empty());
                assert(escape_string(Seq::<char>::empty()) =~= Seq::<char>::empty());
                assert(escape_char(s@[i as int]) + Seq::<char>::empty() =~= escape_char(
                    s@[i as int],
                ));
            }
            assert((old(out)@ + escape_string(s@.take(i as int))) + escape_char(s@[i as int])
                =~= old(out)@ + escape_string(s@.take(i + 1)));
        }
        i = i + 1;
    }
    proof {
        assert(s@.take(n as int) =~= s@);
    }
}

/// Appends a complete JSON string literal for `s`.
pub(crate) fn emit_quoted(out: &mut Vec<char>, s: &str)
    ensures
        final(out)@ == old(out)@ + quoted(s@),
{
    out.push('"');
    emit_escaped(out, s);
    out.push('"');
    proof {
        assert(((old(out)@ + seq!['"']) + escape_string(s@)) + seq!['"'] =~= old(out)@ + quoted(
            s@,
        ));
    }
}

} // verus!
