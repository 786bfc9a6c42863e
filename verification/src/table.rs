//! A small keyed table: what is filed under a key replaces what was there.

use vstd::prelude::*;

use crate::tx::{same_outpoint, OutPoint};

verus! {

/// A type whose values can name the rows of a [`Table`].
pub trait TableKey: View + Sized {
    /// Whether both name the same row.
    fn same(&self, other: &Self) -> (same: bool)
        ensures
            same == (self@ == other@),
    ;
}

impl TableKey for String {
    fn same(&self, other: &String) -> (same: bool) {
        *self == *other
    }
}

impl View for OutPoint {
    type V = OutPoint;

    open spec fn view(&self) -> OutPoint {
        *self
    }
}

impl TableKey for OutPoint {
    fn same(&self, other: &OutPoint) -> (same: bool) {
        same_outpoint(self, other)
    }
}

/// A table with at most one row per key.
pub struct Table<K: TableKey, V> {
    rows: Vec<(K, V)>,
}

spec fn rows_map<K: TableKey, V>(rows: Seq<(K, V)>) -> Map<<K as View>::V, V>
    decreases rows.len(),
{
    if rows.len() == 0 {
        Map::empty()
    } else {
        rows_map(rows.drop_last()).insert(rows.last().0@, rows.last().1)
    }
}

spec fn distinct_keys<K: TableKey, V>(rows: Seq<(K, V)>) -> bool {
    forall|i: int, j: int|
        0 <= i < j < rows.len() ==> (#[trigger] rows[i]).0@ != (#[trigger] rows[j]).0@
}

/// The rows of `m` whose value satisfies `p`.
pub open spec fn rows_where<K, V>(m: Map<K, V>, p: spec_fn(V) -> bool) -> Map<K, V> {
    Map::new(|k: K| m.contains_key(k) && p(m[k]), |k: K| m[k])
}

proof fn lemma_rows_map<K: TableKey, V>(rows: Seq<(K, V)>)
    requires
        distinct_keys(rows),
    ensures
        forall|i: int|
            0 <= i < rows.len() ==> rows_map(rows).contains_key((#[trigger] rows[i]).0@)
                && rows_map(rows)[rows[i].0@] == rows[i].1,
        forall|k: <K as View>::V| #[trigger]
            rows_map(rows).contains_key(k) ==> exists|i: int|
                0 <= i < rows.len() && (#[trigger] rows[i]).0@ == k,
        rows_map(rows).dom().finite(),
        rows_map(rows).dom().len() == rows.len(),
    decreases rows.len(),
{
    if rows.len() > 0 {
        let init = rows.drop_last();
        assert(distinct_keys(init)) by {
            assert forall|i: int, j: int| 0 <= i < j < init.len() implies (
            #[trigger] init[i]).0@ != (#[trigger] init[j]).0@ by {
                assert(rows[i].0@ != rows[j].0@);
            }
        }
        lemma_rows_map(init);
        let last = rows.last();
        assert(!rows_map(init).contains_key(last.0@)) by {
            if rows_map(init).contains_key(last.0@) {
                let i = choose|i: int| 0 <= i < init.len() && (#[trigger] init[i]).0@ == last.0@;
                assert(rows[i].0@ != rows[rows.len() - 1].0@);
            }
        }
        assert forall|i: int| 0 <= i < rows.len() implies rows_map(rows).contains_key(
            (#[trigger] rows[i]).0@,
        ) && rows_map(rows)[rows[i].0@] == rows[i].1 by {
            if i < init.len() {
                assert(init[i] == rows[i]);
                assert(rows[i].0@ != rows[rows.len() - 1].0@);
            }
        }
        assert forall|k: <K as View>::V| #[trigger]
            rows_map(rows).contains_key(k) implies exists|i: int|
            0 <= i < rows.len() && (#[trigger] rows[i]).0@ == k by {
            if k == last.0@ {
                assert(rows[rows.len() - 1].0@ == k);
            } else {
                let i = choose|i: int| 0 <= i < init.len() && (#[trigger] init[i]).0@ == k;
                assert(rows[i].0@ == k);
            }
        }
    }
}

spec fn count_rows<K: TableKey, V>(rows: Seq<(K, V)>, p: spec_fn(V) -> bool) -> nat
    decreases rows.len(),
{
    if rows.len() == 0 {
        0
    } else {
        count_rows(rows.drop_last(), p) + if p(rows.last().1) {
            1nat
        } else {
            0nat
        }
    }
}

proof fn lemma_count_rows<K: TableKey, V>(rows: Seq<(K, V)>, p: spec_fn(V) -> bool)
    requires
        distinct_keys(rows),
    ensures
        rows_where(rows_map(rows), p).dom().finite(),
        rows_where(rows_map(rows), p).dom().len() == count_rows(rows, p),
    decreases rows.len(),
{
    let chosen = rows_where(rows_map(rows), p).dom();
    if rows.len() == 0 {
        assert(chosen =~= Set::empty());
    } else {
        let init = rows.drop_last();
        assert(distinct_keys(init)) by {
            assert forall|i: int, j: int| 0 <= i < j < init.len() implies (
            #[trigger] init[i]).0@ != (#[trigger] init[j]).0@ by {
                assert(rows[i].0@ != rows[j].0@);
            }
        }
        lemma_count_rows(init, p);
        lemma_rows_map(init);
        let last = rows.last();
        assert(!rows_map(init).contains_key(last.0@)) by {
            if rows_map(init).contains_key(last.0@) {
                let i = choose|i: int| 0 <= i < init.len() && (#[trigger] init[i]).0@ == last.0@;
                assert(rows[i].0@ != rows[rows.len() - 1].0@);
            }
        }
        let before = rows_where(rows_map(init), p).dom();
        if p(last.1) {
            assert(chosen =~= before.insert(last.0@));
        } else {
            assert(chosen =~= before);
        }
    }
}

/// `kept` holds exactly the rows of `before` from `n` on that satisfy `p`.
#[verifier::opaque]
spec fn kept_from<K: TableKey, V>(
    before: Seq<(K, V)>,
    n: int,
    kept: Seq<(K, V)>,
    p: spec_fn(V) -> bool,
) -> bool {
    &&& distinct_keys(kept)
    &&& forall|i: int|
        0 <= i < kept.len() ==> p((#[trigger] kept[i]).1) && has_from(before, n, kept[i])
    &&& forall|j: int|
        n <= j < before.len() && p((#[trigger] before[j]).1) ==> has_from(kept, 0, before[j])
}

#[verifier::opaque]
spec fn has_from<T>(s: Seq<T>, n: int, x: T) -> bool {
    exists|j: int| n <= j < s.len() && (#[trigger] s[j]) == x
}

proof fn lemma_has_from<T>(s: Seq<T>, n: int, x: T) -> (j: int)
    requires
        has_from(s, n, x),
    ensures
        n <= j < s.len(),
        s[j] == x,
{
    reveal(has_from);
    choose|j: int| n <= j < s.len() && (#[trigger] s[j]) == x
}

proof fn lemma_has_at<T>(s: Seq<T>, n: int, j: int)
    requires
        n <= j < s.len(),
    ensures
        has_from(s, n, s[j]),
{
    reveal(has_from);
}

proof fn lemma_has_more<T>(s: Seq<T>, n: int, x: T, y: T)
    requires
        has_from(s, n, x),
        n >= 0,
    ensures
        has_from(s.push(y), n, x),
{
    let j = lemma_has_from(s, n, x);
    lemma_has_at(s.push(y), n, j);
}

proof fn lemma_keep_none<K: TableKey, V>(before: Seq<(K, V)>, p: spec_fn(V) -> bool)
    ensures
        kept_from(before, before.len() as int, Seq::<(K, V)>::empty(), p),
{
    reveal(kept_from);
}

proof fn lemma_drop_one<K: TableKey, V>(
    before: Seq<(K, V)>,
    n: int,
    kept: Seq<(K, V)>,
    p: spec_fn(V) -> bool,
)
    requires
        kept_from(before, n, kept, p),
        0 < n <= before.len(),
        !p(before[n - 1].1),
    ensures
        kept_from(before, n - 1, kept, p),
{
    reveal(kept_from);
    assert forall|i: int| 0 <= i < kept.len() implies p((#[trigger] kept[i]).1) && has_from(
        before,
        n - 1,
        kept[i],
    ) by {
        let j = lemma_has_from(before, n, kept[i]);
        lemma_has_at(before, n - 1, j);
    }
}

proof fn lemma_keep_one<K: TableKey, V>(
    before: Seq<(K, V)>,
    n: int,
    kept: Seq<(K, V)>,
    p: spec_fn(V) -> bool,
)
    requires
        distinct_keys(before),
        kept_from(before, n, kept, p),
        0 < n <= before.len(),
        p(before[n - 1].1),
    ensures
        kept_from(before, n - 1, kept.push(before[n - 1]), p),
{
    reveal(kept_from);
    let after = kept.push(before[n - 1]);
    assert forall|a: int, b: int| 0 <= a < b < after.len() implies (#[trigger] after[a]).0@ != (
    #[trigger] after[b]).0@ by {
        if b < kept.len() {
            assert(kept[a].0@ != kept[b].0@);
        } else {
            let j = lemma_has_from(before, n, kept[a]);
            assert(before[n - 1].0@ != before[j].0@);
        }
    }
    assert forall|i: int| 0 <= i < after.len() implies p((#[trigger] after[i]).1) && has_from(
        before,
        n - 1,
        after[i],
    ) by {
        if i < kept.len() {
            assert(p(kept[i].1));
            let j = lemma_has_from(before, n, kept[i]);
            lemma_has_at(before, n - 1, j);
        } else {
            lemma_has_at(before, n - 1, n - 1);
        }
    }
    assert forall|j: int| n - 1 <= j < before.len() && p((#[trigger] before[j]).1) implies has_from(
        after,
        0,
        before[j],
    ) by {
        if j == n - 1 {
            lemma_has_at(after, 0, kept.len() as int);
        } else {
            lemma_has_more(kept, 0, before[j], before[n - 1]);
        }
    }
}

proof fn lemma_kept<K: TableKey, V>(
    before: Seq<(K, V)>,
    kept: Seq<(K, V)>,
    p: spec_fn(V) -> bool,
)
    requires
        distinct_keys(before),
        kept_from(before, 0, kept, p),
    ensures
        distinct_keys(kept),
        rows_map(kept) == rows_where(rows_map(before), p),
{
    reveal(kept_from);
    lemma_rows_map(before);
    lemma_rows_map(kept);
    let m = rows_map(kept);
    let target = rows_where(rows_map(before), p);
    assert forall|k: <K as View>::V|
        m.contains_key(k) == target.contains_key(k) && (m.contains_key(k) ==> m[k]
            == target[k]) by {
        if m.contains_key(k) {
            let i = choose|i: int| 0 <= i < kept.len() && (#[trigger] kept[i]).0@ == k;
            let j = lemma_has_from(before, 0, kept[i]);
            assert(rows_map(before)[before[j].0@] == before[j].1);
        }
        if target.contains_key(k) {
            let j = choose|j: int| 0 <= j < before.len() && (#[trigger] before[j]).0@ == k;
            assert(rows_map(before)[before[j].0@] == before[j].1);
            let i = lemma_has_from(kept, 0, before[j]);
            assert(m.contains_key(kept[i].0@));
        }
    }
    assert(m =~= target);
}

impl<K: TableKey, V> Table<K, V> {
    #[verifier::type_invariant]
    spec fn well_formed(self) -> bool {
        distinct_keys(self.rows@)
    }
}

impl<K: TableKey, V> View for Table<K, V> {
    type V = Map<<K as View>::V, V>;

    closed spec fn view(&self) -> Map<<K as View>::V, V> {
        rows_map(self.rows@)
    }
}

impl<K: TableKey, V> Table<K, V> {
    /// An empty table.
    pub fn new() -> (table: Self)
        ensures
            table@ == Map::<<K as View>::V, V>::empty(),
    {
        Table { rows: Vec::new() }
    }

    /// How many rows there are.
    pub fn len(&self) -> (n: usize)
        ensures
            n == self@.dom().len(),
            self@.dom().finite(),
    {
        proof {
            use_type_invariant(self);
            lemma_rows_map(self.rows@);
        }
        self.rows.len()
    }

    fn position(&self, key: &K) -> (found: Option<usize>)
        ensures
            match found {
                Some(i) => i < self.rows.len() && self.rows[i as int].0@ == key@,
                None => forall|i: int| 0 <= i < self.rows.len() ==> self.rows[i].0@ != key@,
            },
    {
        let mut i: usize = 0;
        while i < self.rows.len()
            invariant
                i <= self.rows.len(),
                forall|k: int| 0 <= k < i ==> self.rows[k].0@ != key@,
            decreases self.rows.len() - i,
        {
            if self.rows[i].0.same(key) {
                return Some(i);
            }
            i += 1;
        }
        None
    }

    /// What is filed under `key`.
    pub fn get(&self, key: &K) -> (value: Option<&V>)
        ensures
            match value {
                Some(v) => self@.contains_key(key@) && self@[key@] == *v,
                None => !self@.contains_key(key@),
            },
    {
        proof {
            use_type_invariant(self);
            lemma_rows_map(self.rows@);
        }
        match self.position(key) {
            Some(i) => Some(&self.rows[i].1),
            None => None,
        }
    }

    /// Takes the row of `key` out.
    pub fn remove(&mut self, key: &K) -> (removed: bool)
        ensures
            removed == old(self)@.contains_key(key@),
            final(self)@ == old(self)@.remove(key@),
    {
        proof {
            use_type_invariant(&*self);
            lemma_rows_map(self.rows@);
        }
        let ghost before = self.rows@;
        match self.position(key) {
            None => {
                assert(self@ =~= old(self)@.remove(key@));
                false
            },
            Some(i) => {
                let mut rows: Vec<(K, V)> = Vec::new();
                std::mem::swap(&mut rows, &mut self.rows);
                rows.remove(i);
                proof {
                    let after = rows@;
                    assert(distinct_keys(after)) by {
                        assert forall|a: int, b: int| 0 <= a < b < after.len() implies (
                        #[trigger] after[a]).0@ != (#[trigger] after[b]).0@ by {
                            let a0 = if a < i {
                                a
                            } else {
                                a + 1
                            };
                            let b0 = if b < i {
                                b
                            } else {
                                b + 1
                            };
                            assert(before[a0].0@ != before[b0].0@);
                        }
                    }
                    lemma_rows_map(after);
                    let m = rows_map(after);
                    let target = rows_map(before).remove(key@);
                    assert forall|k: <K as View>::V|
                        #![trigger m.contains_key(k)]
                        #![trigger target.contains_key(k)]
                        #![trigger m.dom().contains(k)]
                        m.contains_key(k) == target.contains_key(k) && (m.contains_key(k)
                            ==> m[k] == target[k]) by {
                        if m.contains_key(k) {
                            let a = choose|a: int|
                                0 <= a < after.len() && (#[trigger] after[a]).0@ == k;
                            let a0 = if a < i {
                                a
                            } else {
                                a + 1
                            };
                            assert(before[a0] == after[a]);
                            if a0 < i {
                                assert(before[a0].0@ != before[i as int].0@);
                            } else {
                                assert(before[i as int].0@ != before[a0].0@);
                            }
                        }
                        if target.contains_key(k) {
                            let a0 = choose|a: int|
                                0 <= a < before.len() && (#[trigger] before[a]).0@ == k;
                            assert(a0 != i);
                            let a = if a0 < i {
                                a0
                            } else {
                                a0 - 1
                            };
                            assert(after[a] == before[a0]);
                        }
                    }
                    assert(m.dom() =~= target.dom());
                    assert(m =~= target);
                }
                self.rows = rows;
                true
            },
        }
    }

    /// Files `value` under `key`.
    pub fn set(&mut self, key: K, value: V)
        ensures
            final(self)@ == old(self)@.insert(key@, value),
    {
        let removed = self.remove(&key);
        proof {
            use_type_invariant(&*self);
            lemma_rows_map(self.rows@);
        }
        let ghost before = self.rows@;
        let mut rows: Vec<(K, V)> = Vec::new();
        std::mem::swap(&mut rows, &mut self.rows);
        rows.push((key, value));
        proof {
            let after = rows@;
            assert(after.drop_last() =~= before);
            assert(!rows_map(before).contains_key(key@));
            assert(distinct_keys(after)) by {
                assert forall|a: int, b: int| 0 <= a < b < after.len() implies (
                #[trigger] after[a]).0@ != (#[trigger] after[b]).0@ by {
                    if b < before.len() {
                        assert(before[a].0@ != before[b].0@);
                    } else {
                        assert(rows_map(before).contains_key(before[a].0@));
                    }
                }
            }
            assert(rows_map(after) =~= old(self)@.insert(key@, value));
        }
        self.rows = rows;
    }

    /// Keeps the rows whose value `keep` approves of.
    pub(crate) fn retain<F: Fn(&V) -> bool>(&mut self, keep: F, Ghost(p): Ghost<
        spec_fn(V) -> bool,
    >)
        requires
            forall|v: &V| #[trigger] keep.requires((v,)),
            forall|v: &V, b: bool| keep.ensures((v,), b) ==> b == p(*v),
        ensures
            final(self)@ == rows_where(old(self)@, p),
    {
        proof {
            use_type_invariant(&*self);
            lemma_rows_map(self.rows@);
        }
        let ghost before = self.rows@;
        let mut rows: Vec<(K, V)> = Vec::new();
        std::mem::swap(&mut rows, &mut self.rows);
        let mut kept: Vec<(K, V)> = Vec::new();
        proof {
            lemma_keep_none(before, p);
            assert(rows@ =~= before.take(rows.len() as int));
        }
        while rows.len() > 0
            invariant
                distinct_keys(before),
                rows.len() <= before.len(),
                rows@ == before.take(rows.len() as int),
                forall|v: &V| #[trigger] keep.requires((v,)),
                forall|v: &V, b: bool| keep.ensures((v,), b) ==> b == p(*v),
                kept_from(before, rows.len() as int, kept@, p),
            decreases rows.len(),
        {
            let ghost n = rows.len() as int;
            let ghost kept_before = kept@;
            let row = rows.pop().unwrap();
            assert(row == before[n - 1]);
            assert(rows@ =~= before.take(n - 1));
            if keep(&row.1) {
                kept.push(row);
                proof {
                    lemma_keep_one(before, n, kept_before, p);
                    assert(kept@ =~= kept_before.push(before[n - 1]));
                }
            } else {
                proof {
                    lemma_drop_one(before, n, kept_before, p);
                }
            }
        }
        proof {
            lemma_kept(before, kept@, p);
        }
        self.rows = kept;
    }

    /// How many rows hold a value that `wanted` approves of.
    pub(crate) fn count<F: Fn(&V) -> bool>(&self, wanted: F, Ghost(p): Ghost<
        spec_fn(V) -> bool,
    >) -> (n: usize)
        requires
            forall|v: &V| #[trigger] wanted.requires((v,)),
            forall|v: &V, b: bool| wanted.ensures((v,), b) ==> b == p(*v),
        ensures
            n == rows_where(self@, p).dom().len(),
            rows_where(self@, p).dom().finite(),
    {
        proof {
            use_type_invariant(self);
            lemma_count_rows(self.rows@, p);
        }
        let mut n: usize = 0;
        let mut i: usize = 0;
        while i < self.rows.len()
            invariant
                i <= self.rows.len(),
                n <= i,
                n == count_rows(self.rows@.take(i as int), p),
                forall|v: &V| #[trigger] wanted.requires((v,)),
                forall|v: &V, b: bool| wanted.ensures((v,), b) ==> b == p(*v),
            decreases self.rows.len() - i,
        {
            assert(self.rows@.take(i + 1).drop_last() =~= self.rows@.take(i as int));
            if wanted(&self.rows[i].1) {
                n += 1;
            }
            i += 1;
        }
        assert(self.rows@.take(i as int) =~= self.rows@);
        n
    }
}

/// `keys` lists the keys of the first `n` rows whose value satisfies `p`.
#[verifier::opaque]
spec fn lists_keys<V>(
    rows: Seq<(String, V)>,
    n: int,
    keys: Seq<Seq<char>>,
    p: spec_fn(V) -> bool,
) -> bool {
    &&& keys.no_duplicates()
    &&& forall|a: int| 0 <= a < keys.len() ==> has_key(rows, n, #[trigger] keys[a], p)
    &&& forall|j: int| 0 <= j < n && p((#[trigger] rows[j]).1) ==> has_from(keys, 0, rows[j].0@)
}

#[verifier::opaque]
spec fn has_key<V>(rows: Seq<(String, V)>, n: int, key: Seq<char>, p: spec_fn(V) -> bool) -> bool {
    exists|j: int| 0 <= j < n && (#[trigger] rows[j]).0@ == key && p(rows[j].1)
}

proof fn lemma_has_key<V>(
    rows: Seq<(String, V)>,
    n: int,
    key: Seq<char>,
    p: spec_fn(V) -> bool,
) -> (j: int)
    requires
        has_key(rows, n, key, p),
    ensures
        0 <= j < n,
        rows[j].0@ == key,
        p(rows[j].1),
{
    reveal(has_key);
    choose|j: int| 0 <= j < n && (#[trigger] rows[j]).0@ == key && p(rows[j].1)
}

proof fn lemma_lists_none<V>(rows: Seq<(String, V)>, p: spec_fn(V) -> bool)
    ensures
        lists_keys(rows, 0, Seq::<Seq<char>>::empty(), p),
{
    reveal(lists_keys);
}

proof fn lemma_lists_skip<V>(
    rows: Seq<(String, V)>,
    n: int,
    keys: Seq<Seq<char>>,
    p: spec_fn(V) -> bool,
)
    requires
        0 <= n < rows.len(),
        lists_keys(rows, n, keys, p),
        !p(rows[n].1),
    ensures
        lists_keys(rows, n + 1, keys, p),
{
    reveal(lists_keys);
    assert forall|a: int| 0 <= a < keys.len() implies has_key(rows, n + 1, #[trigger] keys[a], p) by {
        let j = lemma_has_key(rows, n, keys[a], p);
        reveal(has_key);
    }
}

proof fn lemma_lists_add<V>(
    rows: Seq<(String, V)>,
    n: int,
    keys: Seq<Seq<char>>,
    p: spec_fn(V) -> bool,
)
    requires
        distinct_keys(rows),
        0 <= n < rows.len(),
        lists_keys(rows, n, keys, p),
        p(rows[n].1),
    ensures
        lists_keys(rows, n + 1, keys.push(rows[n].0@), p),
{
    reveal(lists_keys);
    let after = keys.push(rows[n].0@);
    assert forall|a: int| 0 <= a < after.len() implies has_key(
        rows,
        n + 1,
        #[trigger] after[a],
        p,
    ) by {
        if a < keys.len() {
            let j = lemma_has_key(rows, n, keys[a], p);
            assert(rows[j].0@ == after[a]);
        } else {
            assert(rows[n].0@ == after[a]);
        }
        reveal(has_key);
    }
    assert(after.no_duplicates()) by {
        assert forall|a: int, b: int| 0 <= a < b < after.len() implies after[a] != after[b] by {
            if b == keys.len() {
                let j = lemma_has_key(rows, n, keys[a], p);
                assert(rows[j].0@ != rows[n].0@);
            } else {
                assert(keys[a] != keys[b]);
            }
        }
    }
    assert forall|j: int| 0 <= j < n + 1 && p((#[trigger] rows[j]).1) implies has_from(
        after,
        0,
        rows[j].0@,
    ) by {
        if j == n {
            lemma_has_at(after, 0, keys.len() as int);
        } else {
            lemma_has_more(keys, 0, rows[j].0@, rows[n].0@);
        }
    }
}

proof fn lemma_listed<V>(rows: Seq<(String, V)>, keys: Seq<Seq<char>>, p: spec_fn(V) -> bool)
    requires
        distinct_keys(rows),
        lists_keys(rows, rows.len() as int, keys, p),
    ensures
        keys.no_duplicates(),
        keys.to_set() == rows_where(rows_map(rows), p).dom(),
{
    reveal(lists_keys);
    lemma_rows_map(rows);
    let chosen = rows_where(rows_map(rows), p).dom();
    assert forall|k: Seq<char>| keys.to_set().contains(k) == chosen.contains(k) by {
        if keys.contains(k) {
            let a = choose|a: int| 0 <= a < keys.len() && keys[a] == k;
            let j = lemma_has_key(rows, rows.len() as int, keys[a], p);
            assert(rows_map(rows)[rows[j].0@] == rows[j].1);
        }
        if chosen.contains(k) {
            assert(rows_map(rows).contains_key(k));
            let j = choose|j: int| 0 <= j < rows.len() && (#[trigger] rows[j]).0@ == k;
            assert(rows_map(rows)[rows[j].0@] == rows[j].1);
            let a = lemma_has_from(keys, 0, rows[j].0@);
            assert(keys.contains(k));
        }
    }
    assert(keys.to_set() =~= chosen);
}

/// The texts in `keys`.
pub open spec fn texts(keys: Seq<String>) -> Seq<Seq<char>> {
    keys.map_values(|s: String| s@)
}

impl<V> Table<String, V> {
    /// The keys of the rows whose value `wanted` approves of, in no set order.
    pub(crate) fn keys_where<F: Fn(&V) -> bool>(&self, wanted: F, Ghost(p): Ghost<
        spec_fn(V) -> bool,
    >) -> (keys: Vec<String>)
        requires
            forall|v: &V| #[trigger] wanted.requires((v,)),
            forall|v: &V, b: bool| wanted.ensures((v,), b) ==> b == p(*v),
        ensures
            texts(keys@).no_duplicates(),
            texts(keys@).to_set() == rows_where(self@, p).dom(),
    {
        proof {
            use_type_invariant(self);
            lemma_lists_none(self.rows@, p);
        }
        let mut keys: Vec<String> = Vec::new();
        assert(texts(keys@) =~= Seq::<Seq<char>>::empty());
        let mut i: usize = 0;
        while i < self.rows.len()
            invariant
                i <= self.rows.len(),
                distinct_keys(self.rows@),
                forall|v: &V| #[trigger] wanted.requires((v,)),
                forall|v: &V, b: bool| wanted.ensures((v,), b) ==> b == p(*v),
                lists_keys(self.rows@, i as int, texts(keys@), p),
            decreases self.rows.len() - i,
        {
            let ghost before = keys@;
            if wanted(&self.rows[i].1) {
                keys.push(self.rows[i].0.clone());
                proof {
                    lemma_lists_add(self.rows@, i as int, texts(before), p);
                    assert(texts(keys@) =~= texts(before).push(self.rows@[i as int].0@));
                }
            } else {
                proof {
                    lemma_lists_skip(self.rows@, i as int, texts(before), p);
                }
            }
            i += 1;
        }
        proof {
            lemma_listed(self.rows@, texts(keys@), p);
        }
        keys
    }
}

} // verus!
