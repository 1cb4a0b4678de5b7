//! Tables keyed by text.
use vstd::prelude::*;
use crate::text;

verus! {

/// A table from text to values. Where a key was inserted more than once the last value counts.
pub struct Table<V> {
    pub rows: Vec<(String, V)>,
}

/// The map that the first `n` rows denote.
pub open spec fn rows_view<V>(rows: Seq<(String, V)>, n: int) -> Map<Seq<char>, V>
    decreases n,
{
    if n <= 0 {
        Map::empty()
    } else {
        rows_view(rows, n - 1).insert(rows[n - 1].0@, rows[n - 1].1)
    }
}

/// The contents of a table of texts.
pub open spec fn texts(m: Map<Seq<char>, String>) -> Map<Seq<char>, Seq<char>> {
    m.map_values(|v: String| v@)
}

proof fn lemma_rows_prefix<V>(a: Seq<(String, V)>, b: Seq<(String, V)>, n: int)
    requires
        n <= a.len(),
        n <= b.len(),
        forall|i: int| 0 <= i < n ==> a[i] == b[i],
    ensures
        rows_view(a, n) == rows_view(b, n),
    decreases n,
{
    if n > 0 {
        lemma_rows_prefix(a, b, n - 1);
    }
}

impl<V> View for Table<V> {
    type V = Map<Seq<char>, V>;

    open spec fn view(&self) -> Map<Seq<char>, V> {
        rows_view(self.rows@, self.rows@.len() as int)
    }
}

impl<V> Table<V> {
    /// An empty table.
    pub fn new() -> (r: Table<V>)
        ensures
            r@ == Map::<Seq<char>, V>::empty(),
            r.rows@.len() == 0,
    {
        Table { rows: Vec::new() }
    }

    /// Whether no key stands in two rows.
    pub open spec fn distinct(&self) -> bool {
        forall|i: int, j: int|
            0 <= i < j < self.rows@.len() ==> (#[trigger] self.rows@[i]).0@ != (
            #[trigger] self.rows@[j]).0@
    }

    fn last_row(&self, key: &str) -> (r: Option<usize>)
        ensures
            match r {
                Some(i) => i < self.rows@.len() && self.rows@[i as int].0@ == key@ && forall|k: int|
                    i < k < self.rows@.len() ==> (#[trigger] self.rows@[k]).0@ != key@,
                None => forall|k: int|
                    0 <= k < self.rows@.len() ==> (#[trigger] self.rows@[k]).0@ != key@,
            },
    {
        let mut i: usize = self.rows.len();
        while i > 0
            invariant
                i <= self.rows@.len(),
                forall|k: int| i <= k < self.rows@.len() ==> (#[trigger] self.rows@[k]).0@ != key@,
            decreases i,
        {
            i = i - 1;
            if text::same(self.rows[i].0.as_str(), key) {
                return Some(i);
            }
        }
        None
    }

    /// Sets the value under `key`.
    pub fn insert(&mut self, key: &str, value: V)
        ensures
            final(self)@ == old(self)@.insert(key@, value),
            old(self).distinct() ==> final(self).distinct(),
    {
        let ghost before = self.rows@;
        match self.last_row(key) {
            Some(i) => {
                self.rows.set(i, (key.to_string(), value));
                proof {
                    lemma_rows_set(before, self.rows@, i as int, key@, before.len() as int);
                }
            },
            None => {
                self.rows.push((key.to_string(), value));
                proof {
                    lemma_rows_prefix(before, self.rows@, before.len() as int);
                }
            },
        }
    }

    /// The value under `key`, to be changed.
    pub fn get_mut(&mut self, key: &str) -> (r: Option<&mut V>)
        ensures
            match r {
                Some(v) => old(self)@.contains_key(key@) && *v == old(self)@[key@] && final(self)@
                    == old(self)@.insert(key@, *final(v)),
                None => !old(self)@.contains_key(key@) && final(self)@ == old(self)@,
            },
            old(self).distinct() ==> final(self).distinct(),
    {
        let ghost before = self.rows@;
        match self.last_row(key) {
            Some(i) => {
                proof {
                    lemma_rows_value(before, i as int, key@, before.len() as int);
                    assert forall|v: V| #[trigger]
                        rows_view(before.update(i as int, (before[i as int].0, v)), before.len() as int)
                        == rows_view(before, before.len() as int).insert(key@, v) by {
                        lemma_rows_set(
                            before,
                            before.update(i as int, (before[i as int].0, v)),
                            i as int,
                            key@,
                            before.len() as int,
                        );
                    }
                }
                let row = &mut self.rows[i];
                Some(&mut row.1)
            },
            None => {
                proof {
                    lemma_rows_lack(before, key@, before.len() as int);
                }
                None
            },
        }
    }

    /// The value under `key`.
    pub fn get(&self, key: &str) -> (r: Option<&V>)
        ensures
            match r {
                Some(v) => self@.contains_key(key@) && self@[key@] == *v,
                None => !self@.contains_key(key@),
            },
    {
        let mut i: usize = self.rows.len();
        while i > 0
            invariant
                i <= self.rows@.len(),
                self@.contains_key(key@) == rows_view(self.rows@, i as int).contains_key(key@),
                self@.contains_key(key@) ==> self@[key@] == rows_view(self.rows@, i as int)[key@],
            decreases i,
        {
            if text::same(self.rows[i - 1].0.as_str(), key) {
                return Some(&self.rows[i - 1].1);
            }
            i = i - 1;
        }
        None
    }

    /// Tells whether there is a value under `key`.
    pub fn contains_key(&self, key: &str) -> (r: bool)
        ensures
            r == self@.contains_key(key@),
    {
        self.get(key).is_some()
    }

    /// Removes what stands under `key`.
    pub fn remove(&mut self, key: &str)
        ensures
            final(self)@ == old(self)@.remove(key@),
            old(self).distinct() ==> final(self).distinct(),
    {
        let ghost was_distinct = self.distinct();
        let ghost all = self@;
        let mut i: usize = self.rows.len();
        proof {
            assert(rows_view(self.rows@, self.rows@.len() as int).remove(key@) =~= all.remove(
                key@,
            ));
        }
        while i > 0
            invariant
                i <= self.rows@.len(),
                self@.remove(key@) == all.remove(key@),
                was_distinct ==> self.distinct(),
                forall|k: int| i <= k < self.rows@.len() ==> (#[trigger] self.rows@[k]).0@ != key@,
            decreases i,
        {
            i = i - 1;
            if text::same(self.rows[i].0.as_str(), key) {
                let ghost before = self.rows@;
                self.rows.remove(i);
                proof {
                    lemma_rows_without(before, self.rows@, i as int, key@, before.len() as int);
                }
            }
        }
        proof {
            lemma_rows_lack(self.rows@, key@, self.rows@.len() as int);
            assert(self@ =~= all.remove(key@));
        }
    }
}

proof fn lemma_rows_set<V>(
    a: Seq<(String, V)>,
    b: Seq<(String, V)>,
    at: int,
    key: Seq<char>,
    n: int,
)
    requires
        0 <= at < n <= a.len(),
        a.len() == b.len(),
        b[at].0@ == key,
        a[at].0@ == key,
        forall|i: int| 0 <= i < a.len() && i != at ==> a[i] == b[i],
        forall|k: int| at < k < a.len() ==> (#[trigger] a[k]).0@ != key,
    ensures
        rows_view(b, n) == rows_view(a, n).insert(key, b[at].1),
    decreases n,
{
    if n - 1 > at {
        lemma_rows_set(a, b, at, key, n - 1);
        assert(rows_view(b, n) =~= rows_view(a, n).insert(key, b[at].1));
    } else {
        lemma_rows_prefix(a, b, at);
        assert(rows_view(b, n) =~= rows_view(a, n).insert(key, b[at].1));
    }
}

proof fn lemma_rows_value<V>(rows: Seq<(String, V)>, at: int, key: Seq<char>, n: int)
    requires
        0 <= at < n <= rows.len(),
        rows[at].0@ == key,
        forall|k: int| at < k < rows.len() ==> (#[trigger] rows[k]).0@ != key,
    ensures
        rows_view(rows, n).contains_key(key),
        rows_view(rows, n)[key] == rows[at].1,
    decreases n,
{
    if n - 1 > at {
        lemma_rows_value(rows, at, key, n - 1);
    }
}

proof fn lemma_rows_without<V>(
    a: Seq<(String, V)>,
    b: Seq<(String, V)>,
    at: int,
    key: Seq<char>,
    n: int,
)
    requires
        0 <= at < a.len(),
        a[at].0@ == key,
        b == a.remove(at),
        at < n <= a.len(),
    ensures
        rows_view(a, n).remove(key) == rows_view(b, n - 1).remove(key),
    decreases n,
{
    if n - 1 > at {
        lemma_rows_without(a, b, at, key, n - 1);
        let (k, v) = (a[n - 1].0@, a[n - 1].1);
        assert(b[n - 2] == a[n - 1]);
        let ra = rows_view(a, n - 1);
        let rb = rows_view(b, n - 2);
        if k == key {
            assert(ra.insert(k, v).remove(key) =~= ra.remove(key));
            assert(rb.insert(k, v).remove(key) =~= rb.remove(key));
        } else {
            assert(ra.insert(k, v).remove(key) =~= ra.remove(key).insert(k, v));
            assert(rb.insert(k, v).remove(key) =~= rb.remove(key).insert(k, v));
        }
    } else {
        lemma_rows_prefix(a, b, at);
        assert(rows_view(a, n).remove(key) =~= rows_view(b, n - 1).remove(key));
    }
}

proof fn lemma_rows_lack<V>(rows: Seq<(String, V)>, key: Seq<char>, n: int)
    requires
        n <= rows.len(),
        forall|k: int| 0 <= k < rows.len() ==> (#[trigger] rows[k]).0@ != key,
    ensures
        !rows_view(rows, n).contains_key(key),
    decreases n,
{
    if n > 0 {
        lemma_rows_lack(rows, key, n - 1);
    }
}

/// A table of strings holds under each key the text of its string, and has the same keys.
pub proof fn lemma_texts_are_of_the_strings(m: Map<Seq<char>, String>, key: Seq<char>)
    ensures
        texts(m).dom().contains(key) <==> m.dom().contains(key),
        m.dom().contains(key) ==> texts(m)[key] == m[key]@,
{
}

/// A table whose keys differ holds under each key the value of its row, and no other key.
pub proof fn lemma_rows_are_the_table<V>(t: Table<V>, i: int, key: Seq<char>)
    requires
        t.distinct(),
    ensures
        0 <= i < t.rows@.len() ==> t@.dom().contains(t.rows@[i].0@) && t@[t.rows@[i].0@]
            == t.rows@[i].1,
        (forall|j: int| 0 <= j < t.rows@.len() ==> (#[trigger] t.rows@[j]).0@ != key)
            ==> !t@.dom().contains(key),
{
    if 0 <= i < t.rows@.len() {
        lemma_row_counts(t.rows@, i, t.rows@.len() as int);
    }
    if forall|j: int| 0 <= j < t.rows@.len() ==> (#[trigger] t.rows@[j]).0@ != key {
        lemma_key_is_absent(t.rows@, key, t.rows@.len() as int);
    }
}

proof fn lemma_row_counts<V>(rows: Seq<(String, V)>, i: int, n: int)
    requires
        0 <= i < n <= rows.len(),
        forall|a: int, b: int|
            0 <= a < b < rows.len() ==> (#[trigger] rows[a]).0@ != (#[trigger] rows[b]).0@,
    ensures
        rows_view(rows, n).dom().contains(rows[i].0@),
        rows_view(rows, n)[rows[i].0@] == rows[i].1,
    decreases n,
{
    if i < n - 1 {
        lemma_row_counts(rows, i, n - 1);
        assert(rows[i].0@ != rows[n - 1].0@);
    }
}

proof fn lemma_key_is_absent<V>(rows: Seq<(String, V)>, key: Seq<char>, n: int)
    requires
        n <= rows.len(),
        forall|j: int| 0 <= j < n ==> (#[trigger] rows[j]).0@ != key,
    ensures
        !rows_view(rows, n).dom().contains(key),
    decreases n,
{
    if n > 0 {
        lemma_key_is_absent(rows, key, n - 1);
        assert(rows[n - 1].0@ != key);
    }
}

} // verus!
