use vstd::prelude::*;

use core::cmp::Ordering;

use crate::ast::{ComparisonOp, FilterExpression, IqlValue};
use crate::text::{chars_of, str_eq, string_from_chars};
use crate::value::{
    compare_field_values, field_values_equal, lift, lift_value, lookup, value_cmp, FieldValue,
    Record, RecordV, ValueV,
};

verus! {

/// Whether the regular expression `pattern` compiles (`Some`) and matches
/// `text` (`Some(true)`).
pub uninterp spec fn regex_full_match(pattern: Seq<char>, text: Seq<char>) -> Option<bool>;

/// Relies on `regex::Regex::new`, which fails on a pattern that does not
/// compile, and on `Regex::is_match`.
#[verifier::external_body]
fn regex_match(pattern: &str, text: &str) -> (r: Option<bool>)
    ensures
        r == regex_full_match(pattern@, text@),
{
    match regex::Regex::new(pattern) {
        Ok(re) => Some(re.is_match(text)),
        Err(_) => None,
    }
}

/// A LIKE pattern with `%` turned into `.*`.
pub open spec fn like_body(p: Seq<char>) -> Seq<char>
    decreases p.len(),
{
    if p.len() == 0 {
        seq![]
    } else {
        (if p[0] == '%' {
            seq!['.', '*']
        } else {
            seq![p[0]]
        }) + like_body(p.subrange(1, p.len() as int))
    }
}

/// The regular expression of a LIKE pattern, anchored at both ends.
pub open spec fn like_regex(p: Seq<char>) -> Seq<char> {
    seq!['^'] + like_body(p) + seq!['$']
}

/// Builds the anchored regular expression of a LIKE pattern.
pub fn like_to_regex(p: &str) -> (r: String)
    ensures
        r@ == like_regex(p@),
{
    let v = chars_of(p);
    let mut out: Vec<char> = Vec::new();
    out.push('^');
    let mut i: usize = 0;
    assert(v@.subrange(0, v@.len() as int) =~= v@);
    while i < v.len()
        invariant
            v@ == p@,
            i <= v@.len(),
            out@ + like_body(v@.subrange(i as int, v@.len() as int)) + seq!['$'] == like_regex(p@),
        decreases v@.len() - i,
    {
        let ghost rest = v@.subrange(i as int, v@.len() as int);
        let ghost before = out@;
        assert(rest.subrange(1, rest.len() as int) =~= v@.subrange(i + 1, v@.len() as int));
        if v[i] == '%' {
            out.push('.');
            out.push('*');
            assert(out@ =~= before + seq!['.', '*']);
        } else {
            out.push(v[i]);
            assert(out@ =~= before + seq![v@[i as int]]);
        }
        i = i + 1;
        assert(before + like_body(rest) =~= out@ + like_body(v@.subrange(i as int, v@.len() as int)));
    }
    assert(like_body(v@.subrange(i as int, v@.len() as int)) =~= Seq::<char>::empty());
    let ghost before = out@;
    out.push('$');
    assert(out@ =~= before + Seq::<char>::empty() + seq!['$']);
    string_from_chars(out.as_slice())
}

/// The text that LIKE reads from a field: a string as it is, anything else
/// as the empty string.
pub open spec fn like_text(v: ValueV) -> Seq<char> {
    match v {
        ValueV::Str(s) => s,
        _ => seq![],
    }
}

/// Whether the value `v` stands in relation `op` to the literal `lit`.
pub open spec fn compare_spec(v: ValueV, op: ComparisonOp, lit: IqlValue) -> bool {
    match op {
        ComparisonOp::Equal => v == lift(lit),
        ComparisonOp::NotEqual => v != lift(lit),
        ComparisonOp::GreaterThan => value_cmp(v, lift(lit)) == Some(Ordering::Greater),
        ComparisonOp::LessThan => value_cmp(v, lift(lit)) == Some(Ordering::Less),
        ComparisonOp::GreaterThanOrEqual => value_cmp(v, lift(lit)) == Some(Ordering::Greater)
            || value_cmp(v, lift(lit)) == Some(Ordering::Equal),
        ComparisonOp::LessThanOrEqual => value_cmp(v, lift(lit)) == Some(Ordering::Less)
            || value_cmp(v, lift(lit)) == Some(Ordering::Equal),
        ComparisonOp::Like => match lit {
            IqlValue::String(p) => regex_full_match(like_regex(p@), like_text(v)) == Some(true),
            _ => false,
        },
    }
}

/// Whether the filter holds of the record with id `id` and fields `fields`.
pub open spec fn matches_spec(f: FilterExpression, id: Seq<char>, fields: RecordV) -> bool
    decreases f,
{
    match f {
        FilterExpression::Comparison { field, op, value } => if field@ == "id"@ {
            compare_spec(ValueV::Str(id), op, value)
        } else {
            match lookup(fields, field@) {
                Some(v) => compare_spec(v, op, value),
                None => op == ComparisonOp::NotEqual,
            }
        },
        FilterExpression::And(a, b) => matches_spec(*a, id, fields) && matches_spec(*b, id, fields),
        FilterExpression::Or(a, b) => matches_spec(*a, id, fields) || matches_spec(*b, id, fields),
        FilterExpression::Not(a) => !matches_spec(*a, id, fields),
        FilterExpression::In { field, values } => match lookup(fields, field@) {
            Some(v) => exists|i: int| 0 <= i < values@.len() && v == lift(#[trigger] values@[i]),
            None => false,
        },
        FilterExpression::IsNull(field) => match lookup(fields, field@) {
            Some(v) => v == ValueV::Null,
            None => true,
        },
        FilterExpression::IsNotNull(field) => match lookup(fields, field@) {
            Some(v) => v != ValueV::Null,
            None => false,
        },
    }
}

/// Whether `v` stands in relation `op` to the literal `lit`.
pub fn compare_values(v: &FieldValue, op: ComparisonOp, lit: &IqlValue) -> (r: bool)
    ensures
        r == compare_spec(v@, op, *lit),
{
    let l = lift_value(lit);
    match op {
        ComparisonOp::Equal => field_values_equal(v, &l),
        ComparisonOp::NotEqual => !field_values_equal(v, &l),
        ComparisonOp::GreaterThan => matches!(compare_field_values(v, &l), Some(Ordering::Greater)),
        ComparisonOp::LessThan => matches!(compare_field_values(v, &l), Some(Ordering::Less)),
        ComparisonOp::GreaterThanOrEqual => {
            let c = compare_field_values(v, &l);
            matches!(c, Some(Ordering::Greater)) || matches!(c, Some(Ordering::Equal))
        },
        ComparisonOp::LessThanOrEqual => {
            let c = compare_field_values(v, &l);
            matches!(c, Some(Ordering::Less)) || matches!(c, Some(Ordering::Equal))
        },
        ComparisonOp::Like => match lit {
            IqlValue::String(p) => {
                let re = like_to_regex(p.as_str());
                let r = match v {
                    FieldValue::Str(s) => regex_match(re.as_str(), s.as_str()),
                    _ => {
                        let empty = "";
                        proof {
                            reveal_strlit("");
                        }
                        assert(empty@ =~= like_text(v@));
                        regex_match(re.as_str(), empty)
                    },
                };
                matches!(r, Some(true))
            },
            _ => false,
        },
    }
}

impl FilterExpression {
    /// Evaluates the filter on the record with id `id`. `id` names the
    /// record's id; a field that the record lacks makes a comparison false
    /// (true for `!=`), IS NULL true and IN false.
    pub fn matches(&self, id: &str, record: &Record) -> (r: bool)
        ensures
            r == matches_spec(*self, id@, record@),
        decreases self,
    {
        match self {
            FilterExpression::Comparison { field, op, value } => {
                if str_eq(field.as_str(), "id") {
                    let idv = FieldValue::Str(crate::text::copy_str(id));
                    compare_values(&idv, *op, value)
                } else {
                    match record.get(field.as_str()) {
                        Some(v) => compare_values(v, *op, value),
                        None => matches!(op, ComparisonOp::NotEqual),
                    }
                }
            },
            FilterExpression::And(a, b) => a.matches(id, record) && b.matches(id, record),
            FilterExpression::Or(a, b) => a.matches(id, record) || b.matches(id, record),
            FilterExpression::Not(a) => !a.matches(id, record),
            FilterExpression::In { field, values } => match record.get(field.as_str()) {
                Some(v) => {
                    let mut i: usize = 0;
                    let ghost holds = matches_spec(*self, id@, record@);
                    assert(holds == exists|k: int| 0 <= k < values@.len() && v@ == lift(#[trigger] values@[k]));
                    while i < values.len()
                        invariant
                            i <= values@.len(),
                            holds == matches_spec(*self, id@, record@),
                            holds == exists|k: int| 0 <= k < values@.len() && v@ == lift(#[trigger] values@[k]),
                            forall|k: int| 0 <= k < i ==> v@ != lift(#[trigger] values@[k]),
                        decreases values@.len() - i,
                    {
                        if compare_values(v, ComparisonOp::Equal, &values[i]) {
                            assert(v@ == lift(values@[i as int]));
                            assert(exists|k: int| 0 <= k < values@.len() && v@ == lift(#[trigger] values@[k]));
                            return true;
                        }
                        i = i + 1;
                    }
                    false
                },
                None => false,
            },
            FilterExpression::IsNull(field) => match record.get(field.as_str()) {
                Some(v) => matches!(v, FieldValue::Null),
                None => true,
            },
            FilterExpression::IsNotNull(field) => match record.get(field.as_str()) {
                Some(v) => !matches!(v, FieldValue::Null),
                None => false,
            },
        }
    }
}

/// Negation is exact: `NOT f` holds of a record exactly when `f` does not,
/// and evaluation is defined on every filter and record.
pub proof fn law_not_is_complement(f: FilterExpression, id: Seq<char>, fields: RecordV)
    ensures
        matches_spec(FilterExpression::Not(Box::new(f)), id, fields) == !matches_spec(f, id, fields),
{
}

} // verus!
