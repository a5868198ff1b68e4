use vstd::prelude::*;

use crate::ast::{close_reason_name, CloseReason};
use crate::table::{rows_view, TableV};
use crate::text::{chars_of, decimal, push_decimal, string_from_chars};
use crate::value::{FieldValue, Record, RecordV, ValueV};

verus! {

/// A character inside a JSON string.
pub open spec fn json_char(c: char) -> Seq<char> {
    if c == '"' {
        seq!['\\', '"']
    } else if c == '\\' {
        seq!['\\', '\\']
    } else if c == '\n' {
        seq!['\\', 'n']
    } else if c == '\r' {
        seq!['\\', 'r']
    } else if c == '\t' {
        seq!['\\', 't']
    } else {
        seq![c]
    }
}

pub open spec fn json_chars(s: Seq<char>) -> Seq<char>
    decreases s.len(),
{
    if s.len() == 0 {
        seq![]
    } else {
        json_chars(s.drop_last()) + json_char(s.last())
    }
}

/// A JSON string literal.
pub open spec fn json_string(s: Seq<char>) -> Seq<char> {
    seq!['"'] + json_chars(s) + seq!['"']
}

/// A signed integer in decimal.
pub open spec fn json_int(n: int) -> Seq<char> {
    if n < 0 {
        seq!['-'] + decimal((-n) as nat)
    } else {
        decimal(n as nat)
    }
}

/// A field value in JSON; a closed status is `{"Closed":{"reason":"…"}}`.
pub open spec fn json_value(v: ValueV) -> Seq<char> {
    match v {
        ValueV::Null => "null"@,
        ValueV::Bool(b) => if b { "true"@ } else { "false"@ },
        ValueV::Number(n) => json_int(n),
        ValueV::Float(t) => t,
        ValueV::Str(s) => json_string(s),
        ValueV::Closed(r) => "{\"Closed\":{\"reason\":"@ + json_string(close_reason_name(r)) + "}}"@,
    }
}

pub open spec fn json_fields(r: RecordV) -> Seq<char>
    decreases r.len(),
{
    if r.len() == 0 {
        seq![]
    } else {
        json_fields(r.drop_last()) + (if r.len() > 1 { seq![','] } else { seq![] }) + json_string(
            r.last().0,
        ) + seq![':'] + json_value(r.last().1)
    }
}

/// A record as a JSON object.
pub open spec fn json_record(r: RecordV) -> Seq<char> {
    seq!['{'] + json_fields(r) + seq!['}']
}

pub open spec fn json_entries(t: TableV) -> Seq<char>
    decreases t.len(),
{
    if t.len() == 0 {
        seq![]
    } else {
        json_entries(t.drop_last()) + (if t.len() > 1 { seq![','] } else { seq![] }) + "{\"key\":"@
            + json_string(t.last().0) + ",\"value\":"@ + json_record(t.last().1) + seq!['}']
    }
}

/// Rows as a JSON array of `{"key":…,"value":{…}}` objects.
pub open spec fn json_rows(t: TableV) -> Seq<char> {
    seq!['['] + json_entries(t) + seq![']']
}

fn push_str_chars(out: &mut Vec<char>, s: &str)
    ensures
        final(out)@ == old(out)@ + s@,
{
    let v = chars_of(s);
    let mut i: usize = 0;
    while i < v.len()
        invariant
            v@ == s@,
            i <= v@.len(),
            out@ == old(out)@ + s@.subrange(0, i as int),
        decreases v@.len() - i,
    {
        out.push(v[i]);
        i = i + 1;
        assert(out@ =~= old(out)@ + s@.subrange(0, i as int));
    }
    assert(s@.subrange(0, s@.len() as int) =~= s@);
}

fn push_json_string(out: &mut Vec<char>, s: &str)
    ensures
        final(out)@ == old(out)@ + json_string(s@),
{
    let v = chars_of(s);
    out.push('"');
    let ghost start = out@;
    let mut i: usize = 0;
    while i < v.len()
        invariant
            v@ == s@,
            i <= v@.len(),
            start == old(out)@ + seq!['"'],
            out@ == start + json_chars(s@.subrange(0, i as int)),
        decreases v@.len() - i,
    {
        let c = v[i];
        let ghost before = out@;
        if c == '"' {
            out.push('\\');
            out.push('"');
        } else if c == '\\' {
            out.push('\\');
            out.push('\\');
        } else if c == '\n' {
            out.push('\\');
            out.push('n');
        } else if c == '\r' {
            out.push('\\');
            out.push('r');
        } else if c == '\t' {
            out.push('\\');
            out.push('t');
        } else {
            out.push(c);
        }
        assert(out@ =~= before + json_char(c));
        assert(s@.subrange(0, i + 1).drop_last() =~= s@.subrange(0, i as int));
        i = i + 1;
        assert(out@ =~= start + json_chars(s@.subrange(0, i as int)));
    }
    assert(s@.subrange(0, s@.len() as int) =~= s@);
    out.push('"');
    assert(out@ =~= old(out)@ + json_string(s@));
}

fn push_json_int(out: &mut Vec<char>, n: i128)
    ensures
        final(out)@ == old(out)@ + json_int(n as int),
{
    if n < 0 {
        out.push('-');
        let m: u128 = if n == i128::MIN {
            0x8000_0000_0000_0000_0000_0000_0000_0000u128
        } else {
            (-n) as u128
        };
        push_decimal_u128(out, m);
        assert(final(out)@ =~= old(out)@ + json_int(n as int));
    } else {
        push_decimal_u128(out, n as u128);
    }
}

fn push_decimal_u128(out: &mut Vec<char>, n: u128)
    ensures
        final(out)@ == old(out)@ + decimal(n as nat),
    decreases n,
{
    if n < 10 {
        push_decimal(out, n as u64);
    } else {
        push_decimal_u128(out, n / 10);
        let ghost mid = out@;
        push_decimal(out, (n % 10) as u64);
        assert(decimal((n % 10) as nat) == seq![crate::text::digit_char((n % 10) as nat)]);
        assert(final(out)@ =~= old(out)@ + decimal(n as nat));
    }
}

fn push_json_value(out: &mut Vec<char>, v: &FieldValue)
    ensures
        final(out)@ == old(out)@ + json_value(v@),
{
    match v {
        FieldValue::Null => push_str_chars(out, "null"),
        FieldValue::Bool(b) => if *b {
            push_str_chars(out, "true")
        } else {
            push_str_chars(out, "false")
        },
        FieldValue::Number(n) => push_json_int(out, *n),
        FieldValue::Float(t) => push_str_chars(out, t.as_str()),
        FieldValue::Str(s) => push_json_string(out, s.as_str()),
        FieldValue::Closed(r) => {
            let ghost start = out@;
            push_str_chars(out, "{\"Closed\":{\"reason\":");
            let name = r.name();
            push_json_string(out, name.as_str());
            push_str_chars(out, "}}");
            assert(out@ =~= start + json_value(v@));
        },
    }
}

fn push_json_record(out: &mut Vec<char>, r: &Record)
    ensures
        final(out)@ == old(out)@ + json_record(r@),
{
    out.push('{');
    let ghost start = out@;
    let mut i: usize = 0;
    assert(r@.subrange(0, 0) =~= Seq::<(Seq<char>, ValueV)>::empty());
    while i < r.fields.len()
        invariant
            i <= r.fields@.len(),
            r@.len() == r.fields@.len(),
            start == old(out)@ + seq!['{'],
            out@ == start + json_fields(r@.subrange(0, i as int)),
        decreases r.fields@.len() - i,
    {
        let ghost before = out@;
        let ghost sub = r@.subrange(0, i + 1);
        assert(sub.drop_last() =~= r@.subrange(0, i as int));
        if i > 0 {
            out.push(',');
        }
        push_json_string(out, r.fields[i].0.as_str());
        out.push(':');
        push_json_value(out, &r.fields[i].1);
        assert(out@ =~= before + (if sub.len() > 1 { seq![','] } else { seq![] }) + json_string(
            sub.last().0,
        ) + seq![':'] + json_value(sub.last().1));
        i = i + 1;
    }
    assert(r@.subrange(0, r@.len() as int) =~= r@);
    out.push('}');
    assert(out@ =~= old(out)@ + json_record(r@));
}

/// Renders rows as a JSON array of `{"key":…,"value":{…}}` objects.
pub fn render_rows(rows: &Vec<(String, Record)>) -> (r: String)
    ensures
        r@ == json_rows(rows_view(rows@)),
{
    let ghost t = rows_view(rows@);
    let mut out: Vec<char> = Vec::new();
    out.push('[');
    let ghost start = out@;
    let mut i: usize = 0;
    assert(t.subrange(0, 0) =~= Seq::<(Seq<char>, RecordV)>::empty());
    while i < rows.len()
        invariant
            t == rows_view(rows@),
            i <= rows@.len(),
            start == seq!['['],
            out@ == start + json_entries(t.subrange(0, i as int)),
        decreases rows@.len() - i,
    {
        let ghost before = out@;
        let ghost sub = t.subrange(0, i + 1);
        assert(sub.drop_last() =~= t.subrange(0, i as int));
        if i > 0 {
            out.push(',');
        }
        push_str_chars(&mut out, "{\"key\":");
        push_json_string(&mut out, rows[i].0.as_str());
        push_str_chars(&mut out, ",\"value\":");
        push_json_record(&mut out, &rows[i].1);
        out.push('}');
        assert(out@ =~= before + (if sub.len() > 1 { seq![','] } else { seq![] }) + "{\"key\":"@
            + json_string(sub.last().0) + ",\"value\":"@ + json_record(sub.last().1) + seq!['}']);
        i = i + 1;
    }
    assert(t.subrange(0, t.len() as int) =~= t);
    out.push(']');
    assert(out@ =~= json_rows(t));
    string_from_chars(out.as_slice())
}

} // verus!
