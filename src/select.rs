use vstd::prelude::*;

use core::cmp::Ordering;

use crate::ast::{EntityType, FilterExpression, OrderDirection, SelectStatement};
use crate::backend::{BackendError, Entry};
use crate::engine::{table_of, Database};
use crate::filter::matches_spec;
use crate::table::{rows_view, Table, TableV};
use crate::value::{compare_strs, lookup, seq_cmp, value_cmp, FieldValue, Record, RecordV, ValueV};

verus! {

broadcast use vstd::seq_lib::to_multiset_insert, vstd::seq_lib::to_multiset_build;

/// Kinds in the order that sorting uses: null, booleans, integers,
/// decimals, strings, closed statuses.
pub open spec fn sort_rank(v: ValueV) -> int {
    match v {
        ValueV::Null => 0,
        ValueV::Bool(_) => 1,
        ValueV::Number(_) => 2,
        ValueV::Float(_) => 3,
        ValueV::Str(_) => 4,
        ValueV::Closed(_) => 5,
    }
}

/// `a` sorts strictly before `b` in ascending order.
pub open spec fn key_less(a: ValueV, b: ValueV) -> bool {
    if sort_rank(a) != sort_rank(b) {
        sort_rank(a) < sort_rank(b)
    } else {
        match (a, b) {
            (ValueV::Bool(x), ValueV::Bool(y)) => !x && y,
            (ValueV::Number(x), ValueV::Number(y)) => x < y,
            (ValueV::Str(x), ValueV::Str(y)) => seq_cmp(x, y) == Ordering::Less,
            _ => false,
        }
    }
}

/// A row whose sort field is `a` goes strictly before one whose sort field
/// is `b`: rows that have the field go before rows that lack it.
pub open spec fn precedes(a: Option<ValueV>, b: Option<ValueV>, desc: bool) -> bool {
    match (a, b) {
        (Some(_), None) => true,
        (Some(x), Some(y)) => if desc {
            key_less(y, x)
        } else {
            key_less(x, y)
        },
        _ => false,
    }
}

/// No row goes strictly before an earlier one.
pub open spec fn sorted_by(t: TableV, field: Seq<char>, desc: bool) -> bool {
    forall|i: int, j: int|
        0 <= i < j < t.len() ==> !precedes(lookup(t[j].1, field), lookup(t[i].1, field), desc)
}

pub proof fn lemma_seq_cmp_less_trans(a: Seq<char>, b: Seq<char>, c: Seq<char>)
    requires
        seq_cmp(a, b) == Ordering::Less,
        seq_cmp(b, c) == Ordering::Less,
    ensures
        seq_cmp(a, c) == Ordering::Less,
    decreases a.len(),
{
    if a.len() > 0 && b.len() > 0 && c.len() > 0 && a[0] == b[0] && b[0] == c[0] {
        lemma_seq_cmp_less_trans(
            a.subrange(1, a.len() as int),
            b.subrange(1, b.len() as int),
            c.subrange(1, c.len() as int),
        );
    }
}

pub proof fn lemma_seq_cmp_less_irrefl(a: Seq<char>)
    ensures
        seq_cmp(a, a) != Ordering::Less,
    decreases a.len(),
{
    if a.len() > 0 {
        lemma_seq_cmp_less_irrefl(a.subrange(1, a.len() as int));
    }
}

pub proof fn lemma_key_less_trans(a: ValueV, b: ValueV, c: ValueV)
    requires
        key_less(a, b),
        key_less(b, c),
    ensures
        key_less(a, c),
{
    if sort_rank(a) == sort_rank(b) && sort_rank(b) == sort_rank(c) {
        match (a, b, c) {
            (ValueV::Str(x), ValueV::Str(y), ValueV::Str(z)) => lemma_seq_cmp_less_trans(x, y, z),
            _ => {},
        }
    }
}

pub proof fn lemma_key_less_irrefl(a: ValueV)
    ensures
        !key_less(a, a),
{
    match a {
        ValueV::Str(x) => lemma_seq_cmp_less_irrefl(x),
        _ => {},
    }
}

pub proof fn lemma_precedes_trans(a: Option<ValueV>, b: Option<ValueV>, c: Option<ValueV>, desc: bool)
    requires
        precedes(a, b, desc),
        precedes(b, c, desc),
    ensures
        precedes(a, c, desc),
{
    match (a, b, c) {
        (Some(x), Some(y), Some(z)) => if desc {
            lemma_key_less_trans(z, y, x);
        } else {
            lemma_key_less_trans(x, y, z);
        },
        _ => {},
    }
}

pub proof fn lemma_precedes_irrefl(a: Option<ValueV>, desc: bool)
    ensures
        !precedes(a, a, desc),
{
    match a {
        Some(x) => lemma_key_less_irrefl(x),
        None => {},
    }
}

/// Where a strict order between two values is defined, sorting agrees.
pub proof fn lemma_value_less_sorts_before(a: ValueV, b: ValueV)
    requires
        value_cmp(a, b) == Some(Ordering::Less),
    ensures
        key_less(a, b),
{
}

/// A sorted result lists rows that have the sort field before rows that
/// lack it, and among rows that have it never lists a value after one that
/// the partial order puts after it (before it, descending).
pub proof fn law_sorted_order(t: TableV, field: Seq<char>, desc: bool, i: int, j: int)
    requires
        sorted_by(t, field, desc),
        0 <= i < j < t.len(),
    ensures
        lookup(t[j].1, field) is Some ==> lookup(t[i].1, field) is Some,
        lookup(t[i].1, field) matches Some(x) ==> (lookup(t[j].1, field) matches Some(y) ==> (if desc {
            value_cmp(y, x) != Some(Ordering::Greater)
        } else {
            value_cmp(y, x) != Some(Ordering::Less)
        })),
{
    assert(!precedes(lookup(t[j].1, field), lookup(t[i].1, field), desc));
    match (lookup(t[i].1, field), lookup(t[j].1, field)) {
        (Some(x), Some(y)) => {
            if desc {
                if value_cmp(y, x) == Some(Ordering::Greater) {
                    lemma_value_cmp_flip(y, x);
                    lemma_value_less_sorts_before(x, y);
                }
            } else {
                if value_cmp(y, x) == Some(Ordering::Less) {
                    lemma_value_less_sorts_before(y, x);
                }
            }
        },
        _ => {},
    }
}

pub proof fn lemma_seq_cmp_flip(a: Seq<char>, b: Seq<char>)
    requires
        seq_cmp(a, b) == Ordering::Greater,
    ensures
        seq_cmp(b, a) == Ordering::Less,
    decreases a.len(),
{
    if a.len() > 0 && b.len() > 0 && a[0] == b[0] {
        lemma_seq_cmp_flip(a.subrange(1, a.len() as int), b.subrange(1, b.len() as int));
    }
}

pub proof fn lemma_value_cmp_flip(a: ValueV, b: ValueV)
    requires
        value_cmp(a, b) == Some(Ordering::Greater),
    ensures
        value_cmp(b, a) == Some(Ordering::Less),
{
    match (a, b) {
        (ValueV::Str(x), ValueV::Str(y)) => lemma_seq_cmp_flip(x, y),
        _ => {},
    }
}

fn sort_rank_of(v: &FieldValue) -> (r: u8)
    ensures
        r as int == sort_rank(v@),
{
    match v {
        FieldValue::Null => 0,
        FieldValue::Bool(_) => 1,
        FieldValue::Number(_) => 2,
        FieldValue::Float(_) => 3,
        FieldValue::Str(_) => 4,
        FieldValue::Closed(_) => 5,
    }
}

fn key_less_exec(a: &FieldValue, b: &FieldValue) -> (r: bool)
    ensures
        r == key_less(a@, b@),
{
    let ra = sort_rank_of(a);
    let rb = sort_rank_of(b);
    if ra != rb {
        return ra < rb;
    }
    match (a, b) {
        (FieldValue::Bool(x), FieldValue::Bool(y)) => !*x && *y,
        (FieldValue::Number(x), FieldValue::Number(y)) => *x < *y,
        (FieldValue::Str(x), FieldValue::Str(y)) => matches!(compare_strs(x.as_str(), y.as_str()), Ordering::Less),
        _ => false,
    }
}

fn precedes_exec(a: Option<&FieldValue>, b: Option<&FieldValue>, desc: bool) -> (r: bool)
    ensures
        r == precedes(
            match a {
                Some(x) => Some(x@),
                None => None,
            },
            match b {
                Some(x) => Some(x@),
                None => None,
            },
            desc,
        ),
{
    match (a, b) {
        (Some(_), None) => true,
        (Some(x), Some(y)) => if desc {
            key_less_exec(y, x)
        } else {
            key_less_exec(x, y)
        },
        _ => false,
    }
}

/// The first position in `s` from `k` on whose row a row with sort value
/// `xf` goes strictly before; the length of `s` when there is none.
pub open spec fn first_after(s: TableV, xf: Option<ValueV>, field: Seq<char>, desc: bool, k: int) -> int
    decreases s.len() - k,
{
    if k < 0 || k >= s.len() {
        s.len() as int
    } else if precedes(xf, lookup(s[k].1, field), desc) {
        k
    } else {
        first_after(s, xf, field, desc, k + 1)
    }
}

/// Stable insertion sort by `field`: each row, in table order, goes just
/// before the first row it strictly precedes, so rows whose sort values
/// are equal or unordered keep their table order.
pub open spec fn stable_sort(s: TableV, field: Seq<char>, desc: bool) -> TableV
    decreases s.len(),
{
    if s.len() == 0 {
        s
    } else {
        let r = stable_sort(s.drop_last(), field, desc);
        r.insert(first_after(r, lookup(s.last().1, field), field, desc, 0), s.last())
    }
}

/// Sorts rows stably by the field `field`: rows that have it first, in the
/// order of their values; equal or unordered values keep their order.
pub fn sort_rows(rows: Vec<(String, Record)>, field: &str, desc: bool) -> (r: Vec<(String, Record)>)
    ensures
        rows_view(r@) == stable_sort(rows_view(rows@), field@, desc),
        rows_view(r@).to_multiset() == rows_view(rows@).to_multiset(),
        sorted_by(rows_view(r@), field@, desc),
{
    let mut out: Vec<(String, Record)> = Vec::new();
    let mut i: usize = 0;
    let ghost input = rows_view(rows@);
    assert(rows_view(out@) =~= input.subrange(0, 0));
    while i < rows.len()
        invariant
            input == rows_view(rows@),
            i <= rows@.len(),
            rows_view(out@).to_multiset() == input.subrange(0, i as int).to_multiset(),
            sorted_by(rows_view(out@), field@, desc),
            rows_view(out@) == stable_sort(input.subrange(0, i as int), field@, desc),
        decreases rows@.len() - i,
    {
        let xk = rows[i].1.get(field);
        let ghost xf0 = lookup(rows_view(rows@)[i as int].1, field@);
        let mut p: usize = 0;
        while p < out.len() && !precedes_exec(xk, out[p].1.get(field), desc)
            invariant
                p <= out@.len(),
                xk matches Some(v) ==> lookup(rows_view(rows@)[i as int].1, field@) == Some(v@),
                xk is None ==> lookup(rows_view(rows@)[i as int].1, field@) is None,
                forall|k: int| 0 <= k < p ==> !precedes(
                    lookup(rows_view(rows@)[i as int].1, field@),
                    lookup(rows_view(out@)[k].1, field@),
                    desc,
                ),
                xf0 == lookup(rows_view(rows@)[i as int].1, field@),
                first_after(rows_view(out@), xf0, field@, desc, 0) == first_after(
                    rows_view(out@),
                    xf0,
                    field@,
                    desc,
                    p as int,
                ),
            decreases out@.len() - p,
        {
            p = p + 1;
        }
        assert(first_after(rows_view(out@), xf0, field@, desc, 0) == p);
        assert(input.subrange(0, i + 1).drop_last() =~= input.subrange(0, i as int));
        assert(input.subrange(0, i + 1).last() == input[i as int]);
        let ghost x = rows_view(rows@)[i as int];
        let ghost old_out = rows_view(out@);
        let item = (rows[i].0.clone(), rows[i].1.copy());
        out.insert(p, item);
        assert(rows_view(out@) =~= old_out.insert(p as int, x));
        proof {
            let nw = rows_view(out@);
            let xf = lookup(x.1, field@);
            assert(input.subrange(0, i + 1) =~= input.subrange(0, i as int).push(x));
            assert forall|a: int, b: int| 0 <= a < b < nw.len() implies !precedes(
                lookup(nw[b].1, field@),
                lookup(nw[a].1, field@),
                desc,
            ) by {
                if a < p && b < p {
                    assert(nw[a] == old_out[a] && nw[b] == old_out[b]);
                } else if a < p && b == p {
                    assert(nw[a] == old_out[a] && nw[b] == x);
                } else if a < p && b > p {
                    assert(nw[a] == old_out[a] && nw[b] == old_out[b - 1]);
                } else if a == p {
                    assert(nw[a] == x && nw[b] == old_out[b - 1]);
                    if p < old_out.len() {
                        // x goes strictly before old_out[p]
                        let yp = lookup(old_out[p as int].1, field@);
                        assert(precedes(xf, yp, desc));
                        if precedes(lookup(nw[b].1, field@), xf, desc) {
                            lemma_precedes_trans(lookup(nw[b].1, field@), xf, yp, desc);
                            if b - 1 == p {
                                lemma_precedes_irrefl(yp, desc);
                            }
                        }
                    }
                } else {
                    assert(nw[a] == old_out[a - 1] && nw[b] == old_out[b - 1]);
                }
            }
        }
        i = i + 1;
    }
    assert(input.subrange(0, rows@.len() as int) =~= input);
    out
}

/// The rows that a SELECT reads before filtering: OFFSET rows skipped,
/// then at most LIMIT rows, in the table's order.
pub open spec fn window(t: TableV, offset: Option<u64>, limit: Option<u64>) -> TableV {
    let o = match offset {
        Some(x) => x as int,
        None => 0,
    };
    let l = match limit {
        Some(x) => x as int,
        None => u64::MAX as int,
    };
    let start = if o < t.len() { o } else { t.len() as int };
    let end = if start + l < t.len() { start + l } else { t.len() as int };
    t.subrange(start, end)
}

/// The rows that pass the WHERE clause, if any.
pub open spec fn passes(f: Option<FilterExpression>) -> spec_fn((Seq<char>, RecordV)) -> bool {
    |e: (Seq<char>, RecordV)| match f {
        Some(x) => matches_spec(x, e.0, e.1),
        None => true,
    }
}

/// What a SELECT returns, up to the order of the rows when it sorts.
pub open spec fn selected(t: TableV, s: SelectStatement) -> TableV {
    window(t, s.offset, s.limit).filter(passes(s.filter))
}

/// What a SELECT returns: the selected rows, stably sorted when there is
/// an ORDER BY.
pub open spec fn selected_rows(t: TableV, s: SelectStatement) -> TableV {
    match s.order_by {
        None => selected(t, s),
        Some(o) => stable_sort(selected(t, s), o.field@, o.direction == OrderDirection::Desc),
    }
}

fn window_bounds(len: usize, offset: Option<u64>, limit: Option<u64>) -> (r: (usize, usize))
    ensures
        ({
            let o = match offset {
                Some(x) => x as int,
                None => 0,
            };
            let l = match limit {
                Some(x) => x as int,
                None => u64::MAX as int,
            };
            let start = if o < len { o } else { len as int };
            let end = if start + l < len { start + l } else { len as int };
            r.0 == start && r.1 == end
        }),
{
    let o: u64 = match offset {
        Some(x) => x,
        None => 0,
    };
    let l: u64 = match limit {
        Some(x) => x,
        None => u64::MAX,
    };
    let start: usize = if (o as u128) < (len as u128) { o as usize } else { len };
    let end: usize = if (start as u128) + (l as u128) < (len as u128) {
        (start as u128 + l as u128) as usize
    } else {
        len
    };
    (start, end)
}

/// Entries with strings as character sequences.
pub open spec fn entries_view(v: Seq<Entry<String, Record>>) -> TableV {
    v.map_values(|e: Entry<String, Record>| (e.key@, e.value@))
}

impl Database {
    /// SELECT as a list of entries: what `select_rows` returns, each row as
    /// an `Entry` of its key and record.
    pub fn get_all(&self, s: &SelectStatement) -> (r: Result<Vec<Entry<String, Record>>, BackendError>)
        ensures
            s.from == EntityType::Users ==> r matches Err(BackendError::NotSupported),
            s.from != EntityType::Users ==> (r matches Ok(v) && entries_view(v@) == selected_rows(
                table_of(self@, s.from),
                *s,
            )),
            s.from != EntityType::Users ==> (r matches Ok(v) && match s.order_by {
                None => entries_view(v@) == selected(table_of(self@, s.from), *s),
                Some(o) => entries_view(v@).to_multiset() == selected(table_of(self@, s.from), *s).to_multiset()
                    && sorted_by(entries_view(v@), o.field@, o.direction == OrderDirection::Desc),
            }),
    {
        let rows = match self.select_rows(s) {
            Ok(v) => v,
            Err(e) => {
                return Err(e);
            },
        };
        let mut out: Vec<Entry<String, Record>> = Vec::new();
        let mut i: usize = 0;
        while i < rows.len()
            invariant
                i <= rows@.len(),
                out@.len() == i,
                entries_view(out@) == rows_view(rows@).subrange(0, i as int),
            decreases rows@.len() - i,
        {
            let e = Entry { key: rows[i].0.clone(), value: rows[i].1.copy() };
            out.push(e);
            assert(entries_view(out@) =~= rows_view(rows@).subrange(0, i + 1));
            i = i + 1;
        }
        assert(rows_view(rows@).subrange(0, rows@.len() as int) =~= rows_view(rows@));
        Ok(out)
    }

    /// SELECT: the rows of the table in its order, OFFSET then LIMIT
    /// applied, then those that pass WHERE, sorted stably by ORDER BY.
    /// Users cannot be selected.
    pub fn select_rows(&self, s: &SelectStatement) -> (r: Result<Vec<(String, Record)>, BackendError>)
        ensures
            s.from == EntityType::Users ==> r matches Err(BackendError::NotSupported),
            s.from != EntityType::Users ==> (r matches Ok(v) && rows_view(v@) == selected_rows(
                table_of(self@, s.from),
                *s,
            )),
            s.from != EntityType::Users ==> (r matches Ok(v) && match s.order_by {
                None => rows_view(v@) == selected(table_of(self@, s.from), *s),
                Some(o) => rows_view(v@).to_multiset() == selected(table_of(self@, s.from), *s).to_multiset()
                    && sorted_by(rows_view(v@), o.field@, o.direction == OrderDirection::Desc),
            }),
    {
        let t: &Table = match s.from {
            EntityType::Users => {
                return Err(BackendError::NotSupported);
            },
            EntityType::Projects => &self.projects,
            EntityType::Issues => &self.issues,
            EntityType::Comments => &self.comments,
        };
        let (start, end) = window_bounds(t.rows.len(), s.offset, s.limit);
        let ghost w = window(t@, s.offset, s.limit);
        let mut kept: Vec<(String, Record)> = Vec::new();
        let mut i = start;
        assert(w =~= t@.subrange(start as int, end as int));
        while i < end
            invariant
                t@.len() == t.rows@.len(),
                start <= i <= end <= t@.len(),
                w == t@.subrange(start as int, end as int),
                rows_view(kept@) == w.subrange(0, i - start).filter(passes(s.filter)),
            decreases end - i,
        {
            reveal(Seq::filter);
            let ghost e = t@[i as int];
            assert(w.subrange(0, i - start + 1).drop_last() =~= w.subrange(0, i - start));
            assert(w.subrange(0, i - start + 1).last() == e);
            let pass = match &s.filter {
                Some(f) => f.matches(t.rows[i].0.as_str(), &t.rows[i].1),
                None => true,
            };
            assert(pass == passes(s.filter)(e));
            if pass {
                let ghost kb = kept@;
                kept.push((t.rows[i].0.clone(), t.rows[i].1.copy()));
                assert(rows_view(kept@) =~= rows_view(kb).push(e));
            }
            i = i + 1;
        }
        assert(w.subrange(0, end - start) =~= w);
        match &s.order_by {
            None => Ok(kept),
            Some(o) => {
                let desc = matches!(o.direction, OrderDirection::Desc);
                Ok(sort_rows(kept, o.field.as_str(), desc))
            },
        }
    }
}

} // verus!
