use vstd::prelude::*;

use core::cmp::Ordering;

use crate::ast::{priority_name, CloseReason, IqlValue};
use crate::text::{chars_of, copy_str};

verus! {

/// The value of one field of a stored record.
#[derive(Debug, Clone, PartialEq)]
pub enum FieldValue {
    Null,
    Bool(bool),
    Number(i128),
    /// A decimal, kept as written.
    Float(String),
    Str(String),
    /// The status of a closed issue, with its reason.
    Closed(CloseReason),
}

/// A field value with strings as character sequences.
pub enum ValueV {
    Null,
    Bool(bool),
    Number(int),
    Float(Seq<char>),
    Str(Seq<char>),
    Closed(CloseReason),
}

impl View for FieldValue {
    type V = ValueV;

    open spec fn view(&self) -> ValueV {
        match self {
            FieldValue::Null => ValueV::Null,
            FieldValue::Bool(b) => ValueV::Bool(*b),
            FieldValue::Number(n) => ValueV::Number(*n as int),
            FieldValue::Float(t) => ValueV::Float(t@),
            FieldValue::Str(s) => ValueV::Str(s@),
            FieldValue::Closed(r) => ValueV::Closed(*r),
        }
    }
}

/// A literal of a query, as a field value.
pub open spec fn lift(l: IqlValue) -> ValueV {
    match l {
        IqlValue::String(s) => ValueV::Str(s@),
        IqlValue::Integer(n) => ValueV::Number(n as int),
        IqlValue::UnsignedInteger(n) => ValueV::Number(n as int),
        IqlValue::Float(t) => ValueV::Float(t@),
        IqlValue::Boolean(b) => ValueV::Bool(b),
        IqlValue::Null => ValueV::Null,
        IqlValue::Priority(p) => ValueV::Str(priority_name(p)),
        IqlValue::Identifier(s) => ValueV::Str(s@),
    }
}

/// Turns a literal into the field value that it stands for.
pub fn lift_value(l: &IqlValue) -> (r: FieldValue)
    ensures
        r@ == lift(*l),
{
    match l {
        IqlValue::String(s) => FieldValue::Str(s.clone()),
        IqlValue::Integer(n) => FieldValue::Number(*n as i128),
        IqlValue::UnsignedInteger(n) => FieldValue::Number(*n as i128),
        IqlValue::Float(t) => FieldValue::Float(t.clone()),
        IqlValue::Boolean(b) => FieldValue::Bool(*b),
        IqlValue::Null => FieldValue::Null,
        IqlValue::Priority(p) => FieldValue::Str(p.name()),
        IqlValue::Identifier(s) => FieldValue::Str(s.clone()),
    }
}

/// Values of different kinds are ordered by kind: null, booleans, numbers,
/// strings, then closed statuses.
pub open spec fn kind_rank(v: ValueV) -> int {
    match v {
        ValueV::Null => 0,
        ValueV::Bool(_) => 1,
        ValueV::Number(_) => 2,
        ValueV::Float(_) => 2,
        ValueV::Str(_) => 3,
        ValueV::Closed(_) => 6,
    }
}

pub open spec fn int_cmp(a: int, b: int) -> Ordering {
    if a < b {
        Ordering::Less
    } else if a == b {
        Ordering::Equal
    } else {
        Ordering::Greater
    }
}

/// Lexicographic order of character sequences, by code point.
pub open spec fn seq_cmp(a: Seq<char>, b: Seq<char>) -> Ordering
    decreases a.len(),
{
    if a.len() == 0 {
        if b.len() == 0 {
            Ordering::Equal
        } else {
            Ordering::Less
        }
    } else if b.len() == 0 {
        Ordering::Greater
    } else if a[0] != b[0] {
        int_cmp(a[0] as u32 as int, b[0] as u32 as int)
    } else {
        seq_cmp(a.subrange(1, a.len() as int), b.subrange(1, b.len() as int))
    }
}

/// The partial order on field values. Decimals are equal only to the same
/// text and are not ordered against integers; closed statuses are not ordered.
pub open spec fn value_cmp(a: ValueV, b: ValueV) -> Option<Ordering> {
    if kind_rank(a) != kind_rank(b) {
        Some(int_cmp(kind_rank(a), kind_rank(b)))
    } else {
        match (a, b) {
            (ValueV::Null, ValueV::Null) => Some(Ordering::Equal),
            (ValueV::Bool(x), ValueV::Bool(y)) => Some(
                int_cmp(if x { 1 } else { 0 }, if y { 1 } else { 0 }),
            ),
            (ValueV::Number(x), ValueV::Number(y)) => Some(int_cmp(x, y)),
            (ValueV::Str(x), ValueV::Str(y)) => Some(seq_cmp(x, y)),
            (ValueV::Float(x), ValueV::Float(y)) => if x == y {
                Some(Ordering::Equal)
            } else {
                None
            },
            _ => None,
        }
    }
}

fn rank(v: &FieldValue) -> (r: u8)
    ensures
        r as int == kind_rank(v@),
{
    match v {
        FieldValue::Null => 0,
        FieldValue::Bool(_) => 1,
        FieldValue::Number(_) => 2,
        FieldValue::Float(_) => 2,
        FieldValue::Str(_) => 3,
        FieldValue::Closed(_) => 6,
    }
}

fn cmp_i128(a: i128, b: i128) -> (r: Ordering)
    ensures
        r == int_cmp(a as int, b as int),
{
    if a < b {
        Ordering::Less
    } else if a == b {
        Ordering::Equal
    } else {
        Ordering::Greater
    }
}

/// Compares two strings lexicographically.
pub fn compare_strs(a: &str, b: &str) -> (r: Ordering)
    ensures
        r == seq_cmp(a@, b@),
{
    let x = chars_of(a);
    let y = chars_of(b);
    let mut i: usize = 0;
    assert(x@.subrange(0, x@.len() as int) =~= a@);
    assert(y@.subrange(0, y@.len() as int) =~= b@);
    while i < x.len() && i < y.len() && x[i] == y[i]
        invariant
            x@ == a@,
            y@ == b@,
            i <= x@.len(),
            i <= y@.len(),
            seq_cmp(a@, b@) == seq_cmp(
                x@.subrange(i as int, x@.len() as int),
                y@.subrange(i as int, y@.len() as int),
            ),
        decreases x@.len() - i,
    {
        let ghost xs = x@.subrange(i as int, x@.len() as int);
        let ghost ys = y@.subrange(i as int, y@.len() as int);
        assert(xs.subrange(1, xs.len() as int) =~= x@.subrange(i + 1, x@.len() as int));
        assert(ys.subrange(1, ys.len() as int) =~= y@.subrange(i + 1, y@.len() as int));
        i = i + 1;
    }
    let ghost xs = x@.subrange(i as int, x@.len() as int);
    let ghost ys = y@.subrange(i as int, y@.len() as int);
    assert(xs.len() == x@.len() - i && ys.len() == y@.len() - i);
    if i == x.len() {
        if i == y.len() {
            Ordering::Equal
        } else {
            Ordering::Less
        }
    } else if i == y.len() {
        Ordering::Greater
    } else {
        assert(xs[0] == x@[i as int] && ys[0] == y@[i as int]);
        assert(xs[0] != ys[0]);
        let cx = x[i] as u32;
        let cy = y[i] as u32;
        assert(cx == xs[0] as u32 && cy == ys[0] as u32);
        cmp_i128(cx as i128, cy as i128)
    }
}

/// The partial order on field values.
pub fn compare_field_values(a: &FieldValue, b: &FieldValue) -> (r: Option<Ordering>)
    ensures
        r == value_cmp(a@, b@),
{
    let ra = rank(a);
    let rb = rank(b);
    if ra != rb {
        return Some(cmp_i128(ra as i128, rb as i128));
    }
    match (a, b) {
        (FieldValue::Null, FieldValue::Null) => Some(Ordering::Equal),
        (FieldValue::Bool(x), FieldValue::Bool(y)) => Some(
            cmp_i128(if *x { 1 } else { 0 }, if *y { 1 } else { 0 }),
        ),
        (FieldValue::Number(x), FieldValue::Number(y)) => Some(cmp_i128(*x, *y)),
        (FieldValue::Str(x), FieldValue::Str(y)) => Some(compare_strs(x.as_str(), y.as_str())),
        (FieldValue::Float(x), FieldValue::Float(y)) => {
            if crate::text::str_eq(x.as_str(), y.as_str()) {
                Some(Ordering::Equal)
            } else {
                None
            }
        },
        _ => None,
    }
}

/// Equality of field values.
pub fn field_values_equal(a: &FieldValue, b: &FieldValue) -> (r: bool)
    ensures
        r == (a@ == b@),
{
    match (a, b) {
        (FieldValue::Null, FieldValue::Null) => true,
        (FieldValue::Bool(x), FieldValue::Bool(y)) => *x == *y,
        (FieldValue::Number(x), FieldValue::Number(y)) => *x == *y,
        (FieldValue::Float(x), FieldValue::Float(y)) => crate::text::str_eq(x.as_str(), y.as_str()),
        (FieldValue::Str(x), FieldValue::Str(y)) => crate::text::str_eq(x.as_str(), y.as_str()),
        (FieldValue::Closed(x), FieldValue::Closed(y)) => *x == *y,
        _ => false,
    }
}

/// A stored record seen as a map from field names to values, in the order
/// of the record type's declaration.
#[derive(Debug, Clone, PartialEq)]
pub struct Record {
    pub fields: Vec<(String, FieldValue)>,
}

/// A record with strings as character sequences.
pub type RecordV = Seq<(Seq<char>, ValueV)>;

/// The fields of a record with strings as character sequences.
pub open spec fn fields_view(f: Seq<(String, FieldValue)>) -> RecordV {
    f.map_values(|e: (String, FieldValue)| (e.0@, e.1@))
}

impl View for Record {
    type V = RecordV;

    open spec fn view(&self) -> RecordV {
        fields_view(self.fields@)
    }
}

/// The value of the first field named `name`.
pub open spec fn lookup(fields: RecordV, name: Seq<char>) -> Option<ValueV>
    decreases fields.len(),
{
    if fields.len() == 0 {
        None
    } else if fields[0].0 == name {
        Some(fields[0].1)
    } else {
        lookup(fields.subrange(1, fields.len() as int), name)
    }
}

/// Index of the first field named `name`.
pub open spec fn position_of(fields: RecordV, name: Seq<char>) -> Option<int>
    decreases fields.len(),
{
    if fields.len() == 0 {
        None
    } else if fields[0].0 == name {
        Some(0)
    } else {
        match position_of(fields.subrange(1, fields.len() as int), name) {
            Some(i) => Some(i + 1),
            None => None,
        }
    }
}

pub proof fn lemma_position_of(fields: RecordV, name: Seq<char>)
    ensures
        match position_of(fields, name) {
            Some(i) => 0 <= i < fields.len() && fields[i].0 == name && lookup(fields, name)
                == Some(fields[i].1) && forall|j: int| 0 <= j < i ==> fields[j].0 != name,
            None => lookup(fields, name).is_none() && forall|j: int|
                0 <= j < fields.len() ==> fields[j].0 != name,
        },
    decreases fields.len(),
{
    if fields.len() > 0 && fields[0].0 != name {
        let rest = fields.subrange(1, fields.len() as int);
        lemma_position_of(rest, name);
        assert forall|j: int| 1 <= j < fields.len() implies fields[j] == rest[j - 1] by {}
    }
}

/// Finds the first field named `name`.
pub fn find_field(record: &Record, name: &str) -> (r: Option<usize>)
    ensures
        r matches Some(i) ==> position_of(record@, name@) == Some(i as int) && i < record.fields@.len(),
        r is None ==> position_of(record@, name@).is_none(),
{
    let fields = &record.fields;
    let mut i: usize = 0;
    assert(record@.subrange(0, record@.len() as int) =~= record@);
    while i < fields.len()
        invariant
            fields == &record.fields,
            i <= fields@.len(),
            position_of(record@, name@) == match position_of(
                record@.subrange(i as int, record@.len() as int),
                name@,
            ) {
                Some(k) => Some(k + i),
                None => None,
            },
        decreases fields@.len() - i,
    {
        let ghost rest = record@.subrange(i as int, record@.len() as int);
        assert(rest[0] == record@[i as int]);
        if crate::text::str_eq(fields[i].0.as_str(), name) {
            return Some(i);
        }
        assert(rest.subrange(1, rest.len() as int) =~= record@.subrange(i + 1, record@.len() as int));
        i = i + 1;
    }
    None
}

/// Copies a field value.
pub fn copy_value(v: &FieldValue) -> (r: FieldValue)
    ensures
        r@ == v@,
{
    match v {
        FieldValue::Null => FieldValue::Null,
        FieldValue::Bool(b) => FieldValue::Bool(*b),
        FieldValue::Number(n) => FieldValue::Number(*n),
        FieldValue::Float(t) => FieldValue::Float(t.clone()),
        FieldValue::Str(s) => FieldValue::Str(s.clone()),
        FieldValue::Closed(r) => FieldValue::Closed(*r),
    }
}

impl Record {
    /// A copy of the record.
    pub fn copy(&self) -> (r: Record)
        ensures
            r@ == self@,
    {
        let mut f: Vec<(String, FieldValue)> = Vec::new();
        let mut i: usize = 0;
        while i < self.fields.len()
            invariant
                i <= self.fields@.len(),
                f@.len() == i,
                fields_view(f@) == self@.subrange(0, i as int),
            decreases self.fields@.len() - i,
        {
            let ghost before = f@;
            let name = self.fields[i].0.clone();
            let v = copy_value(&self.fields[i].1);
            assert((name@, v@) == self@[i as int]);
            f.push((name, v));
            assert forall|j: int| 0 <= j <= i implies #[trigger] fields_view(f@)[j] == self@.subrange(0, i + 1)[j] by {
                if j < i {
                    assert(f@[j] == before[j]);
                }
            }
            assert(fields_view(f@) =~= self@.subrange(0, i + 1));
            i = i + 1;
        }
        assert(self@.subrange(0, self@.len() as int) =~= self@);
        Record { fields: f }
    }

    /// The value of the field `name`, if the record has it.
    pub fn get(&self, name: &str) -> (r: Option<&FieldValue>)
        ensures
            r matches Some(v) ==> lookup(self@, name@) == Some(v@),
            r is None ==> lookup(self@, name@).is_none(),
    {
        proof { lemma_position_of(self@, name@); }
        match find_field(self, name) {
            Some(i) => Some(&self.fields[i].1),
            None => None,
        }
    }
}

/// Builds a one-field entry.
pub fn field(name: &str, v: FieldValue) -> (r: (String, FieldValue))
    ensures
        r.0@ == name@,
        r.1 == v,
{
    (copy_str(name), v)
}

} // verus!
