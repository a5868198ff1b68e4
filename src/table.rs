use vstd::prelude::*;

use crate::text::str_eq;
use crate::value::{Record, RecordV};

verus! {

/// One table of the store: records under string keys, in the order in
/// which the keys were first written.
#[derive(Debug, Clone, PartialEq)]
pub struct Table {
    pub rows: Vec<(String, Record)>,
}

/// A table with strings as character sequences.
pub type TableV = Seq<(Seq<char>, RecordV)>;

/// Rows with strings as character sequences.
pub open spec fn rows_view(rows: Seq<(String, Record)>) -> TableV {
    rows.map_values(|e: (String, Record)| (e.0@, e.1@))
}

impl View for Table {
    type V = TableV;

    open spec fn view(&self) -> TableV {
        rows_view(self.rows@)
    }
}

/// Index of the row under key `k`.
pub open spec fn key_position(t: TableV, k: Seq<char>) -> Option<int>
    decreases t.len(),
{
    if t.len() == 0 {
        None
    } else if t[0].0 == k {
        Some(0)
    } else {
        match key_position(t.subrange(1, t.len() as int), k) {
            Some(i) => Some(i + 1),
            None => None,
        }
    }
}

pub open spec fn has_key(t: TableV, k: Seq<char>) -> bool {
    key_position(t, k) is Some
}

/// No key occurs twice.
pub open spec fn keys_unique(t: TableV) -> bool {
    forall|i: int, j: int| 0 <= i < t.len() && 0 <= j < t.len() && i != j ==> t[i].0 != t[j].0
}

/// The record under key `k`.
pub open spec fn table_get(t: TableV, k: Seq<char>) -> Option<RecordV> {
    match key_position(t, k) {
        Some(i) => Some(t[i].1),
        None => None,
    }
}

/// The table after writing `r` under `k`: an existing row is replaced in
/// place, a new key is appended.
pub open spec fn table_set(t: TableV, k: Seq<char>, r: RecordV) -> TableV {
    match key_position(t, k) {
        Some(i) => t.update(i, (k, r)),
        None => t.push((k, r)),
    }
}

/// Keeps the rows whose key is not `k`.
pub open spec fn key_is_not(k: Seq<char>) -> spec_fn((Seq<char>, RecordV)) -> bool {
    |e: (Seq<char>, RecordV)| e.0 != k
}

/// The table without the rows under `k`.
pub open spec fn table_remove(t: TableV, k: Seq<char>) -> TableV {
    t.filter(key_is_not(k))
}

/// Splitting a sequence by a predicate loses nothing.
pub proof fn lemma_filter_split<A>(s: Seq<A>, f: spec_fn(A) -> bool, g: spec_fn(A) -> bool)
    requires
        forall|x: A| #[trigger] f(x) == !g(x),
    ensures
        s.filter(f).len() + s.filter(g).len() == s.len(),
    decreases s.len(),
{
    reveal(Seq::filter);
    if s.len() > 0 {
        lemma_filter_split(s.drop_last(), f, g);
    }
}

/// The number of keys that start with `p`.
pub open spec fn count_prefix(t: TableV, p: Seq<char>) -> nat
    decreases t.len(),
{
    if t.len() == 0 {
        0
    } else {
        count_prefix(t.drop_last(), p) + if p.is_prefix_of(t.last().0) {
            1nat
        } else {
            0nat
        }
    }
}

pub proof fn lemma_filter_len_bound<A>(s: Seq<A>, f: spec_fn(A) -> bool)
    ensures
        s.filter(f).len() <= s.len(),
{
    s.lemma_filter_len(f);
}

pub proof fn lemma_key_position(t: TableV, k: Seq<char>)
    ensures
        match key_position(t, k) {
            Some(i) => 0 <= i < t.len() && t[i].0 == k && forall|j: int| 0 <= j < i ==> t[j].0 != k,
            None => forall|j: int| 0 <= j < t.len() ==> t[j].0 != k,
        },
    decreases t.len(),
{
    if t.len() > 0 && t[0].0 != k {
        let rest = t.subrange(1, t.len() as int);
        lemma_key_position(rest, k);
        assert forall|j: int| 1 <= j < t.len() implies t[j] == rest[j - 1] by {}
    }
}

/// Writing under a key keeps keys unique.
pub broadcast proof fn lemma_set_keeps_unique(t: TableV, k: Seq<char>, r: RecordV)
    requires
        keys_unique(t),
    ensures
        #[trigger] keys_unique(table_set(t, k, r)),
{
    lemma_key_position(t, k);
}

/// Keeping some rows keeps keys unique.
pub broadcast proof fn lemma_filter_keeps_unique(t: TableV, f: spec_fn((Seq<char>, RecordV)) -> bool)
    requires
        keys_unique(t),
    ensures
        #[trigger] keys_unique(t.filter(f)),
    decreases t.len(),
{
    reveal(Seq::filter);
    if t.len() > 0 {
        let s = t.drop_last();
        assert(keys_unique(s)) by {
            assert forall|a: int, b: int| 0 <= a < s.len() && 0 <= b < s.len() && a != b implies s[a].0
                != s[b].0 by {
                assert(s[a] == t[a] && s[b] == t[b]);
            }
        }
        lemma_filter_keeps_unique(s, f);
        let fs = s.filter(f);
        if f(t.last()) {
            assert forall|j: int| 0 <= j < fs.len() implies fs[j].0 != t.last().0 by {
                s.lemma_filter_contains_rev(f, fs[j]);
                assert(fs.contains(fs[j]));
                let i = choose|i: int| 0 <= i < s.len() && s[i] == fs[j];
                assert(s[i] == t[i]);
            }
            let u = fs.push(t.last());
            assert forall|a: int, b: int| 0 <= a < u.len() && 0 <= b < u.len() && a != b implies u[a].0
                != u[b].0 by {
                if a < fs.len() && b < fs.len() {
                } else if a < fs.len() {
                    assert(u[b] == t.last());
                } else {
                    assert(u[a] == t.last());
                }
            }
        }
    }
}

impl Table {
    pub fn new() -> (r: Table)
        ensures
            r@ == Seq::<(Seq<char>, RecordV)>::empty(),
    {
        let r = Table { rows: Vec::new() };
        assert(r@ =~= Seq::<(Seq<char>, RecordV)>::empty());
        r
    }

    /// Finds the row under `key`.
    pub fn find(&self, key: &str) -> (r: Option<usize>)
        ensures
            r matches Some(i) ==> key_position(self@, key@) == Some(i as int) && i < self@.len(),
            r is None ==> key_position(self@, key@).is_none(),
    {
        let mut i: usize = 0;
        assert(self@.subrange(0, self@.len() as int) =~= self@);
        while i < self.rows.len()
            invariant
                i <= self@.len(),
                self@.len() == self.rows@.len(),
                key_position(self@, key@) == match key_position(
                    self@.subrange(i as int, self@.len() as int),
                    key@,
                ) {
                    Some(k) => Some(k + i),
                    None => None,
                },
            decreases self@.len() - i,
        {
            let ghost rest = self@.subrange(i as int, self@.len() as int);
            assert(rest[0] == self@[i as int]);
            if str_eq(self.rows[i].0.as_str(), key) {
                return Some(i);
            }
            assert(rest.subrange(1, rest.len() as int) =~= self@.subrange(i + 1, self@.len() as int));
            i = i + 1;
        }
        None
    }

    /// Whether a row is stored under `key`.
    pub fn contains(&self, key: &str) -> (r: bool)
        ensures
            r == has_key(self@, key@),
    {
        self.find(key).is_some()
    }

    /// The record under `key`.
    pub fn get(&self, key: &str) -> (r: Option<&Record>)
        ensures
            r matches Some(rec) ==> table_get(self@, key@) == Some(rec@),
            r is None ==> table_get(self@, key@).is_none(),
    {
        match self.find(key) {
            Some(i) => Some(&self.rows[i].1),
            None => None,
        }
    }

    /// Writes `rec` under `key`.
    pub fn set(&mut self, key: String, rec: Record)
        ensures
            final(self)@ == table_set(old(self)@, key@, rec@),
    {
        match self.find(key.as_str()) {
            Some(i) => {
                self.rows.set(i, (key, rec));
            },
            None => {
                self.rows.push((key, rec));
            },
        }
        assert(final(self)@ =~= table_set(old(self)@, key@, rec@));
    }

    /// Removes the rows under `key`; returns how many there were.
    pub fn remove(&mut self, key: &str) -> (r: usize)
        ensures
            final(self)@ == table_remove(old(self)@, key@),
            r == old(self)@.len() - final(self)@.len(),
    {
        let mut kept: Vec<(String, Record)> = Vec::new();
        let mut removed: usize = 0;
        let mut i: usize = 0;
        let ghost t = self@;
        while i < self.rows.len()
            invariant
                t == self@,
                t.len() == self.rows@.len(),
                i <= t.len(),
                rows_view(kept@) == t.subrange(0, i as int).filter(key_is_not(key@)),
                kept@.len() + removed == i,
            decreases t.len() - i,
        {
            reveal(Seq::filter);
            assert(t.subrange(0, i + 1).drop_last() =~= t.subrange(0, i as int));
            assert(t.subrange(0, i + 1).last() == t[i as int]);
            let ghost before = kept@;
            if str_eq(self.rows[i].0.as_str(), key) {
                removed = removed + 1;
            } else {
                let name = self.rows[i].0.clone();
                let rec = self.rows[i].1.copy();
                kept.push((name, rec));
                assert(rows_view(kept@) =~= rows_view(before).push(t[i as int]));
            }
            i = i + 1;
        }
        assert(t.subrange(0, t.len() as int) =~= t);
        self.rows = kept;
        proof {
            reveal(Seq::filter);
            lemma_filter_len_bound(t, key_is_not(key@));
        }
        removed
    }

    /// The number of keys that start with `prefix`.
    pub fn count_prefix(&self, prefix: &str) -> (r: usize)
        ensures
            r == count_prefix(self@, prefix@),
    {
        let p = crate::text::chars_of(prefix);
        let mut n: usize = 0;
        let mut i: usize = 0;
        while i < self.rows.len()
            invariant
                p@ == prefix@,
                i <= self@.len(),
                self@.len() == self.rows@.len(),
                n == count_prefix(self@.subrange(0, i as int), prefix@),
                n <= i,
            decreases self@.len() - i,
        {
            let k = crate::text::chars_of(self.rows[i].0.as_str());
            let is_prefix = starts_with(&k, &p);
            assert(self@.subrange(0, i + 1).drop_last() =~= self@.subrange(0, i as int));
            if is_prefix {
                n = n + 1;
            }
            i = i + 1;
        }
        assert(self@.subrange(0, self@.len() as int) =~= self@);
        n
    }
}

/// Whether `p` is a prefix of `s`.
pub fn starts_with(s: &Vec<char>, p: &Vec<char>) -> (r: bool)
    ensures
        r == p@.is_prefix_of(s@),
{
    if p.len() > s.len() {
        return false;
    }
    let mut i: usize = 0;
    while i < p.len()
        invariant
            p@.len() <= s@.len(),
            i <= p@.len(),
            forall|j: int| 0 <= j < i ==> p@[j] == s@[j],
        decreases p@.len() - i,
    {
        if p[i] != s[i] {
            return false;
        }
        i = i + 1;
    }
    true
}

} // verus!
