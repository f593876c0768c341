//! Key/value store of one keyspace: entries of one type under `u64` keys.
//!
//! The store keeps the entries in ascending key order and remembers which keys
//! were written or removed since it was last saved, so that the
//! owner of the disk only has to write those through.

use vstd::prelude::*;

verus! {

pub struct KvStore<V> {
    rows: Vec<(u64, V)>,
    dirty: Vec<u64>,
    saved: Ghost<Map<u64, V>>,
}

/// The entries of ascending `rows` as a map.
pub open spec fn rows_map<V>(rows: Seq<(u64, V)>) -> Map<u64, V> {
    Map::new(
        |k: u64| exists|i: int| 0 <= i < rows.len() && (#[trigger] rows[i]).0 == k,
        |k: u64| rows[choose|i: int| 0 <= i < rows.len() && (#[trigger] rows[i]).0 == k].1,
    )
}

/// Whether the keys of `rows` are strictly ascending.
pub open spec fn ascending<V>(rows: Seq<(u64, V)>) -> bool {
    forall|i: int, j: int|
        0 <= i < j < rows.len() ==> (#[trigger] rows[i]).0 < (#[trigger] rows[j]).0
}

/// Whether two maps agree on whether and what they hold under `k`.
pub open spec fn agree_at<V>(a: Map<u64, V>, b: Map<u64, V>, k: u64) -> bool {
    &&& a.contains_key(k) <==> b.contains_key(k)
    &&& a.contains_key(k) ==> a[k] == b[k]
}

pub proof fn lemma_row_in_map<V>(rows: Seq<(u64, V)>, i: int)
    requires
        ascending(rows),
        0 <= i < rows.len(),
    ensures
        rows_map(rows).contains_key(rows[i].0),
        rows_map(rows)[rows[i].0] == rows[i].1,
{
    let k = rows[i].0;
    let j = choose|j: int| 0 <= j < rows.len() && (#[trigger] rows[j]).0 == k;
    assert(rows[i].0 == k);
    if i < j {
        assert(rows[i].0 < rows[j].0);
    }
    if j < i {
        assert(rows[j].0 < rows[i].0);
    }
}

/// The ascending rows of a map are unique: two stores that hold the same
/// entries list them alike.
pub proof fn law_rows_unique<V>(a: Seq<(u64, V)>, b: Seq<(u64, V)>)
    requires
        ascending(a),
        ascending(b),
        rows_map(a) == rows_map(b),
    ensures
        a == b,
    decreases a.len(),
{
    if a.len() == 0 {
        if b.len() > 0 {
            lemma_row_in_map(b, 0);
            assert(rows_map(a).contains_key(b[0].0));
            assert(false);
        }
        assert(a =~= b);
    } else {
        lemma_row_in_map(a, a.len() - 1);
        let j = choose|j: int| 0 <= j < b.len() && (#[trigger] b[j]).0 == a.last().0;
        assert(rows_map(b).contains_key(a.last().0));
        lemma_row_in_map(b, j);
        lemma_row_in_map(b, b.len() - 1);
        assert(rows_map(a).contains_key(b.last().0));
        let i = choose|i: int| 0 <= i < a.len() && (#[trigger] a[i]).0 == b.last().0;
        if i < a.len() - 1 {
            assert(a[i].0 < a[a.len() - 1].0);
        }
        if j < b.len() - 1 {
            assert(b[j].0 < b[b.len() - 1].0);
        }
        assert(a.last() == b.last());
        let a1 = a.drop_last();
        let b1 = b.drop_last();
        lemma_rows_pop(a);
        lemma_rows_pop(b);
        law_rows_unique(a1, b1);
        assert(a =~= a1.push(a.last()));
        assert(b =~= b1.push(b.last()));
    }
}

proof fn lemma_rows_pop<V>(rows: Seq<(u64, V)>)
    requires
        ascending(rows),
        rows.len() > 0,
    ensures
        ascending(rows.drop_last()),
        rows_map(rows.drop_last()) =~= rows_map(rows).remove(rows.last().0),
{
    let init = rows.drop_last();
    assert forall|k: u64| true implies (rows_map(init).contains_key(k) <==> rows_map(rows).remove(
        rows.last().0,
    ).contains_key(k)) by {
        if rows_map(init).contains_key(k) {
            let i = choose|i: int| 0 <= i < init.len() && (#[trigger] init[i]).0 == k;
            assert(rows[i].0 == k);
            assert(rows[i].0 < rows[rows.len() - 1].0);
        }
        if rows_map(rows).remove(rows.last().0).contains_key(k) {
            let i = choose|i: int| 0 <= i < rows.len() && (#[trigger] rows[i]).0 == k;
            assert(init[i].0 == k);
        }
    }
    assert forall|k: u64| rows_map(init).contains_key(k) implies #[trigger] rows_map(init)[k]
        == rows_map(rows)[k] by {
        let i = choose|i: int| 0 <= i < init.len() && (#[trigger] init[i]).0 == k;
        lemma_row_in_map(init, i);
        lemma_row_in_map(rows, i);
    }
}

proof fn lemma_rows_insert<V>(rows: Seq<(u64, V)>, at: int, k: u64, v: V)
    requires
        ascending(rows),
        0 <= at <= rows.len(),
        forall|i: int| 0 <= i < at ==> (#[trigger] rows[i]).0 < k,
        forall|i: int| at <= i < rows.len() ==> k < (#[trigger] rows[i]).0,
    ensures
        ascending(rows.insert(at, (k, v))),
        rows_map(rows.insert(at, (k, v))) =~= rows_map(rows).insert(k, v),
{
    let r = rows.insert(at, (k, v));
    assert(ascending(r)) by {
        assert forall|i: int, j: int| 0 <= i < j < r.len() implies (#[trigger] r[i]).0 < (
        #[trigger] r[j]).0 by {
            let a = if i < at { i } else { i - 1 };
            let b = if j < at { j } else { j - 1 };
            if i != at {
                assert(r[i] == rows[a]);
            }
            if j != at {
                assert(r[j] == rows[b]);
            }
        }
    }
    assert(r[at].0 == k);
    assert forall|x: u64| rows_map(rows).insert(k, v).contains_key(x) implies #[trigger] rows_map(
        r,
    ).contains_key(x) by {
        if x != k {
            let i = choose|i: int| 0 <= i < rows.len() && (#[trigger] rows[i]).0 == x;
            let j = if i < at { i } else { i + 1 };
            assert(r[j].0 == x);
        }
    }
    assert forall|x: u64| #[trigger] rows_map(r).contains_key(x) implies rows_map(rows).insert(
        k,
        v,
    ).contains_key(x) && rows_map(r)[x] == rows_map(rows).insert(k, v)[x] by {
        let j = choose|j: int| 0 <= j < r.len() && (#[trigger] r[j]).0 == x;
        lemma_row_in_map(r, j);
        if j != at {
            let i = if j < at { j } else { j - 1 };
            assert(rows[i] == r[j]);
            lemma_row_in_map(rows, i);
        }
    }
}

proof fn lemma_rows_update<V>(rows: Seq<(u64, V)>, at: int, v: V)
    requires
        ascending(rows),
        0 <= at < rows.len(),
    ensures
        ascending(rows.update(at, (rows[at].0, v))),
        rows_map(rows.update(at, (rows[at].0, v))) =~= rows_map(rows).insert(rows[at].0, v),
{
    let k = rows[at].0;
    let r = rows.update(at, (k, v));
    assert forall|x: u64| rows_map(rows).insert(k, v).contains_key(x) implies #[trigger] rows_map(
        r,
    ).contains_key(x) by {
        if x != k {
            let i = choose|i: int| 0 <= i < rows.len() && (#[trigger] rows[i]).0 == x;
            assert(r[i].0 == x);
        } else {
            assert(r[at].0 == x);
        }
    }
    assert forall|x: u64| #[trigger] rows_map(r).contains_key(x) implies rows_map(rows).insert(
        k,
        v,
    ).contains_key(x) && rows_map(r)[x] == rows_map(rows).insert(k, v)[x] by {
        let j = choose|j: int| 0 <= j < r.len() && (#[trigger] r[j]).0 == x;
        lemma_row_in_map(r, j);
        lemma_row_in_map(rows, j);
        if j != at {
            assert(x != k) by {
                if j < at {
                    assert(rows[j].0 < rows[at].0);
                } else {
                    assert(rows[at].0 < rows[j].0);
                }
            }
        }
    }
}

proof fn lemma_rows_remove<V>(rows: Seq<(u64, V)>, at: int)
    requires
        ascending(rows),
        0 <= at < rows.len(),
    ensures
        ascending(rows.remove(at)),
        rows_map(rows.remove(at)) =~= rows_map(rows).remove(rows[at].0),
{
    let k = rows[at].0;
    let r = rows.remove(at);
    assert(ascending(r)) by {
        assert forall|i: int, j: int| 0 <= i < j < r.len() implies (#[trigger] r[i]).0 < (
        #[trigger] r[j]).0 by {
            let a = if i < at { i } else { i + 1 };
            let b = if j < at { j } else { j + 1 };
            assert(r[i] == rows[a]);
            assert(r[j] == rows[b]);
        }
    }
    assert forall|x: u64| rows_map(rows).remove(k).contains_key(x) implies #[trigger] rows_map(
        r,
    ).contains_key(x) by {
        let i = choose|i: int| 0 <= i < rows.len() && (#[trigger] rows[i]).0 == x;
        let j = if i < at { i } else { i - 1 };
        assert(r[j].0 == x);
    }
    assert forall|x: u64| #[trigger] rows_map(r).contains_key(x) implies rows_map(rows).remove(
        k,
    ).contains_key(x) && rows_map(r)[x] == rows_map(rows)[x] by {
        let j = choose|j: int| 0 <= j < r.len() && (#[trigger] r[j]).0 == x;
        lemma_row_in_map(r, j);
        let i = if j < at { j } else { j + 1 };
        assert(rows[i] == r[j]);
        lemma_row_in_map(rows, i);
        if i < at {
            assert(rows[i].0 < rows[at].0);
        } else {
            assert(rows[at].0 < rows[i].0);
        }
    }
}

/// The entries of a finite map in ascending key order.
pub open spec fn rows_of<V>(m: Map<u64, V>) -> Seq<(u64, V)> {
    choose|r: Seq<(u64, V)>| ascending(r) && #[trigger] rows_map(r) == m
}

/// Ascending rows are the rows of the map that they make up.
pub proof fn lemma_rows_of<V>(rows: Seq<(u64, V)>)
    requires
        ascending(rows),
    ensures
        rows_of(rows_map(rows)) == rows,
{
    let r = rows_of(rows_map(rows));
    assert(rows_map(rows) == rows_map(rows));
    law_rows_unique(r, rows);
}

proof fn lemma_rows_below<V>(m: Map<u64, V>, n: int) -> (rows: Seq<(u64, V)>)
    requires
        0 <= n <= u64::MAX + 1,
    ensures
        ascending(rows),
        forall|i: int|
            0 <= i < rows.len() ==> (#[trigger] rows[i]).0 < n && m.contains_key(rows[i].0)
                && m[rows[i].0] == rows[i].1,
        forall|k: u64|
            k < n && #[trigger] m.contains_key(k) ==> exists|i: int|
                0 <= i < rows.len() && (#[trigger] rows[i]).0 == k,
    decreases n,
{
    if n == 0 {
        Seq::empty()
    } else {
        let init = lemma_rows_below(m, n - 1);
        let last = (n - 1) as u64;
        if m.contains_key(last) {
            let rows = init.push((last, m[last]));
            assert forall|k: u64| k < n && #[trigger] m.contains_key(k) implies exists|i: int|
                0 <= i < rows.len() && (#[trigger] rows[i]).0 == k by {
                if k == last {
                    assert(rows[init.len() as int].0 == k);
                } else {
                    let i = choose|i: int| 0 <= i < init.len() && (#[trigger] init[i]).0 == k;
                    assert(rows[i].0 == k);
                }
            }
            rows
        } else {
            init
        }
    }
}

/// Every map can be listed by key: its rows are ascending and make it up again.
pub proof fn law_every_map_is_listed<V>(m: Map<u64, V>)
    ensures
        ascending(rows_of(m)),
        rows_map(rows_of(m)) == m,
{
    let rows = lemma_rows_below(m, u64::MAX + 1);
    assert forall|k: u64| #[trigger] m.contains_key(k) <==> rows_map(rows).contains_key(k) by {
    }
    assert forall|k: u64| rows_map(rows).contains_key(k) implies #[trigger] rows_map(rows)[k]
        == m[k] by {
        let i = choose|i: int| 0 <= i < rows.len() && (#[trigger] rows[i]).0 == k;
        assert(rows[i].0 == k);
    }
    assert(rows_map(rows) =~= m);
}

/// Every entry of a map is among its rows.
pub proof fn lemma_entry_is_listed<V>(m: Map<u64, V>, k: u64)
    requires
        m.contains_key(k),
    ensures
        exists|i: int|
            0 <= i < rows_of(m).len() && (#[trigger] rows_of(m)[i]).0 == k && rows_of(m)[i].1
                == m[k],
{
    law_every_map_is_listed(m);
    let rows = rows_of(m);
    assert(rows_map(rows).contains_key(k));
    let i = choose|i: int| 0 <= i < rows.len() && (#[trigger] rows[i]).0 == k;
    lemma_row_in_map(rows, i);
}

impl<V> View for KvStore<V> {
    type V = Map<u64, V>;

    closed spec fn view(&self) -> Map<u64, V> {
        rows_map(self.rows@)
    }
}

impl<V> KvStore<V> {
    #[verifier::type_invariant]
    spec fn inv(self) -> bool {
        &&& ascending(self.rows@)
        &&& forall|k: u64|
            !self.dirty@.contains(k) ==> #[trigger] agree_at(self.saved@, rows_map(self.rows@), k)
    }

    /// The entries as of the last [`KvStore::mark_saved`].
    pub closed spec fn saved(&self) -> Map<u64, V> {
        self.saved@
    }

    /// A store without entries.
    pub fn new() -> (r: Self)
        ensures
            r@ == Map::<u64, V>::empty(),
            r.saved() == Map::<u64, V>::empty(),
    {
        let rows: Vec<(u64, V)> = Vec::new();
        let dirty: Vec<u64> = Vec::new();
        proof {
            assert(rows_map(rows@) =~= Map::<u64, V>::empty());
        }
        KvStore { rows, dirty, saved: Ghost(Map::empty()) }
    }

    /// A store with what was saved: the entries of `rows`, where the last of
    /// several entries under one key counts.
    pub fn load(rows: Vec<(u64, V)>) -> (r: Self)
        ensures
            r@ == loaded(rows@),
            r.saved() == r@,
    {
        let ghost all = rows@;
        let mut back = crate::order::reversed(rows);
        let mut store: Self = KvStore::new();
        proof {
            assert(all.reverse().reverse() =~= all);
            assert(all.skip(0) =~= all);
            assert(all.take(0) =~= Seq::<(u64, V)>::empty());
        }
        while back.len() > 0
            invariant
                back@.len() <= all.len(),
                all.skip(all.len() - back@.len()) == back@.reverse(),
                store@ == loaded(all.take(all.len() - back@.len())),
            decreases back@.len(),
        {
            let ghost n = all.len() - back@.len();
            let ghost b0 = back@;
            let e = back.pop();
            match e {
                Some((k, v)) => {
                    proof {
                        assert(all.skip(n)[0] == b0.reverse()[0]);
                        assert(all[n] == (k, v));
                        assert(all.take(n + 1).drop_last() =~= all.take(n));
                        assert(all.skip(n + 1) =~= all.skip(n).drop_first());
                        assert(b0.reverse().drop_first() =~= b0.drop_last().reverse());
                    }
                    store.put(k, v);
                },
                None => {},
            }
        }
        proof {
            assert(all.take(all.len() as int) =~= all);
        }
        store.mark_saved();
        store
    }

    /// The position of `key`, or the one at which it would have to stand.
    fn locate(&self, key: u64) -> (r: Result<usize, usize>)
        ensures
            match r {
                Ok(i) => i < self.rows@.len() && self.rows@[i as int].0 == key,
                Err(i) => {
                    &&& i <= self.rows@.len()
                    &&& forall|j: int| 0 <= j < i ==> (#[trigger] self.rows@[j]).0 < key
                    &&& forall|j: int| i <= j < self.rows@.len() ==> key < (#[trigger] self.rows@[j]).0
                },
            },
    {
        proof {
            use_type_invariant(self);
        }
        let mut lo: usize = 0;
        let mut hi: usize = self.rows.len();
        while lo < hi
            invariant
                lo <= hi <= self.rows@.len(),
                ascending(self.rows@),
                forall|j: int| 0 <= j < lo ==> (#[trigger] self.rows@[j]).0 < key,
                forall|j: int| hi <= j < self.rows@.len() ==> key < (#[trigger] self.rows@[j]).0,
            decreases hi - lo,
        {
            let mid: usize = lo + (hi - lo) / 2;
            let k: u64 = self.rows[mid].0;
            if k == key {
                return Ok(mid);
            }
            if k < key {
                proof {
                    assert forall|j: int| 0 <= j < mid + 1 implies (#[trigger] self.rows@[j]).0
                        < key by {
                        if j < mid {
                            assert(self.rows@[j].0 < self.rows@[mid as int].0);
                        }
                    }
                }
                lo = mid + 1;
            } else {
                proof {
                    assert forall|j: int| mid <= j < self.rows@.len() implies key < (
                    #[trigger] self.rows@[j]).0 by {
                        if mid < j {
                            assert(self.rows@[mid as int].0 < self.rows@[j].0);
                        }
                    }
                }
                hi = mid;
            }
        }
        Err(lo)
    }

    /// The value stored under `key`, or `None`.
    pub fn get(&self, key: u64) -> (r: Option<&V>)
        ensures
            match r {
                Some(v) => self@.contains_key(key) && self@[key] == *v,
                None => !self@.contains_key(key),
            },
    {
        proof {
            use_type_invariant(self);
        }
        match self.locate(key) {
            Ok(i) => {
                proof {
                    lemma_row_in_map(self.rows@, i as int);
                }
                Some(&self.rows[i].1)
            },
            Err(_) => None,
        }
    }

    /// Inserts `value` under `key`, in place of what stood there.
    pub fn put(&mut self, key: u64, value: V)
        ensures
            final(self)@ == old(self)@.insert(key, value),
            final(self).saved() == old(self).saved(),
    {
        proof {
            use_type_invariant(&*self);
        }
        let at = self.locate(key);
        let mut rows: Vec<(u64, V)> = Vec::new();
        let mut dirty: Vec<u64> = Vec::new();
        let ghost rows0 = self.rows@;
        let ghost dirty0 = self.dirty@;
        let ghost saved0 = self.saved@;
        let mut fresh: Self = KvStore::new();
        std::mem::swap(self, &mut fresh);
        let KvStore { rows: r0, dirty: d0, saved: s0 } = fresh;
        rows = r0;
        dirty = d0;
        match at {
            Ok(i) => {
                proof {
                    lemma_rows_update(rows0, i as int, value);
                    assert(rows0.remove(i as int).insert(i as int, (key, value)) =~= rows0.update(
                        i as int,
                        (key, value),
                    ));
                }
                let _ = rows.remove(i);
                rows.insert(i, (key, value));
            },
            Err(i) => {
                proof {
                    lemma_rows_insert(rows0, i as int, key, value);
                }
                rows.insert(i, (key, value));
            },
        }
        dirty.push(key);
        proof {
            assert forall|k: u64| !dirty@.contains(k) implies #[trigger] agree_at(
                saved0,
                rows_map(rows@),
                k,
            ) by {
                assert(dirty@[dirty@.len() - 1] == key);
                if dirty0.contains(k) {
                    let j = choose|j: int| 0 <= j < dirty0.len() && dirty0[j] == k;
                    assert(dirty@[j] == k);
                }
                assert(agree_at(saved0, rows_map(rows0), k));
            }
        }
        *self = KvStore { rows, dirty, saved: s0 };
    }

    /// Removes the entry under `key`, if there is one.
    pub fn remove(&mut self, key: u64)
        ensures
            final(self)@ == old(self)@.remove(key),
            final(self).saved() == old(self).saved(),
    {
        let _ = self.take(key);
    }

    /// Removes the entry under `key` and hands its value out.
    pub fn take(&mut self, key: u64) -> (r: Option<V>)
        ensures
            final(self)@ == old(self)@.remove(key),
            final(self).saved() == old(self).saved(),
            match r {
                Some(v) => old(self)@.contains_key(key) && old(self)@[key] == v,
                None => !old(self)@.contains_key(key),
            },
    {
        proof {
            use_type_invariant(&*self);
        }
        let at = self.locate(key);
        let ghost rows0 = self.rows@;
        let ghost dirty0 = self.dirty@;
        let ghost saved0 = self.saved@;
        match at {
            Ok(i) => {
                let mut fresh: Self = KvStore::new();
                std::mem::swap(self, &mut fresh);
                let KvStore { rows: r0, dirty: d0, saved: s0 } = fresh;
                let mut rows = r0;
                let mut dirty = d0;
                let row = rows.remove(i);
                dirty.push(key);
                proof {
                    lemma_row_in_map(rows0, i as int);
                    lemma_rows_remove(rows0, i as int);
                    assert forall|k: u64| !dirty@.contains(k) implies #[trigger] agree_at(
                        saved0,
                        rows_map(rows@),
                        k,
                    ) by {
                        assert(dirty@[dirty@.len() - 1] == key);
                        if dirty0.contains(k) {
                            let j = choose|j: int| 0 <= j < dirty0.len() && dirty0[j] == k;
                            assert(dirty@[j] == k);
                        }
                        assert(agree_at(saved0, rows_map(rows0), k));
                    }
                }
                *self = KvStore { rows, dirty, saved: s0 };
                Some(row.1)
            },
            Err(_) => {
                proof {
                    assert(rows_map(rows0).remove(key) =~= rows_map(rows0));
                }
                None
            },
        }
    }

    /// Every entry in ascending key order.
    pub fn scan(&self) -> (r: Vec<(u64, &V)>)
        ensures
            r@.len() == rows_of(self@).len(),
            forall|i: int|
                0 <= i < r@.len() ==> (#[trigger] r@[i]).0 == rows_of(self@)[i].0 && *r@[i].1
                    == rows_of(self@)[i].1,
            ascending(rows_of(self@)),
            rows_map(rows_of(self@)) == self@,
    {
        proof {
            use_type_invariant(self);
            lemma_rows_of(self.rows@);
        }
        let mut r: Vec<(u64, &V)> = Vec::new();
        let mut i: usize = 0;
        while i < self.rows.len()
            invariant
                i <= self.rows@.len(),
                r@.len() == i,
                forall|j: int|
                    0 <= j < i ==> (#[trigger] r@[j]).0 == self.rows@[j].0 && *r@[j].1
                        == self.rows@[j].1,
            decreases self.rows@.len() - i,
        {
            r.push((self.rows[i].0, &self.rows[i].1));
            i += 1;
        }
        r
    }

    /// Every value in ascending key order.
    pub fn values(&self) -> (r: Vec<&V>)
        ensures
            r@.len() == rows_of(self@).len(),
            forall|i: int| 0 <= i < r@.len() ==> *(#[trigger] r@[i]) == rows_of(self@)[i].1,
            ascending(rows_of(self@)),
            rows_map(rows_of(self@)) == self@,
    {
        proof {
            use_type_invariant(self);
            lemma_rows_of(self.rows@);
        }
        let mut r: Vec<&V> = Vec::new();
        let mut i: usize = 0;
        while i < self.rows.len()
            invariant
                i <= self.rows@.len(),
                r@.len() == i,
                forall|j: int| 0 <= j < i ==> *(#[trigger] r@[j]) == self.rows@[j].1,
            decreases self.rows@.len() - i,
        {
            r.push(&self.rows[i].1);
            i += 1;
        }
        r
    }

    /// Removes every entry.
    pub fn clear(&mut self)
        ensures
            final(self)@ == Map::<u64, V>::empty(),
            final(self).saved() == old(self).saved(),
    {
        proof {
            use_type_invariant(&*self);
        }
        let ghost rows0 = self.rows@;
        let ghost dirty0 = self.dirty@;
        let ghost saved0 = self.saved@;
        let mut fresh: Self = KvStore::new();
        std::mem::swap(self, &mut fresh);
        let KvStore { rows, dirty: d0, saved: s0 } = fresh;
        let mut dirty = d0;
        let mut i: usize = 0;
        while i < rows.len()
            invariant
                i <= rows@.len(),
                rows@ == rows0,
                forall|k: u64| dirty0.contains(k) ==> #[trigger] dirty@.contains(k),
                forall|j: int| 0 <= j < i ==> dirty@.contains((#[trigger] rows0[j]).0),
            decreases rows@.len() - i,
        {
            let ghost before = dirty@;
            let k: u64 = rows[i].0;
            dirty.push(k);
            proof {
                assert(dirty@[dirty@.len() - 1] == k);
                assert forall|x: u64| before.contains(x) implies #[trigger] dirty@.contains(x) by {
                    let j = choose|j: int| 0 <= j < before.len() && before[j] == x;
                    assert(dirty@[j] == x);
                }
                assert forall|x: u64| dirty0.contains(x) implies #[trigger] dirty@.contains(x) by {
                    assert(before.contains(x));
                }
                assert forall|j: int| 0 <= j < i + 1 implies dirty@.contains(
                    (#[trigger] rows0[j]).0,
                ) by {
                    if j < i {
                        assert(before.contains(rows0[j].0));
                    }
                }
            }
            i += 1;
        }
        let empty: Vec<(u64, V)> = Vec::new();
        proof {
            assert(rows_map(empty@) =~= Map::<u64, V>::empty());
            assert forall|k: u64| !dirty@.contains(k) implies #[trigger] agree_at(
                saved0,
                rows_map(empty@),
                k,
            ) by {
                assert(!dirty0.contains(k));
                assert(agree_at(saved0, rows_map(rows0), k));
                if rows_map(rows0).contains_key(k) {
                    let j = choose|j: int| 0 <= j < rows0.len() && (#[trigger] rows0[j]).0 == k;
                    assert(dirty@.contains(rows0[j].0));
                }
            }
        }
        *self = KvStore { rows: empty, dirty, saved: s0 };
    }

    /// The keys that were written or removed since the store was last saved: every
    /// other key holds what was saved.
    pub fn dirty_keys(&self) -> (r: &Vec<u64>)
        ensures
            forall|k: u64| !r@.contains(k) ==> #[trigger] agree_at(self.saved(), self@, k),
    {
        proof {
            use_type_invariant(self);
        }
        &self.dirty
    }

    /// Takes note that everything has been saved.
    pub fn mark_saved(&mut self)
        ensures
            final(self)@ == old(self)@,
            final(self).saved() == old(self)@,
    {
        proof {
            use_type_invariant(&*self);
        }
        let mut fresh: Self = KvStore::new();
        std::mem::swap(self, &mut fresh);
        let KvStore { rows, dirty: _, saved: _ } = fresh;
        let now = Ghost(rows_map(rows@));
        *self = KvStore { rows, dirty: Vec::new(), saved: now };
    }
}

// ── selections ───────────────────────────────────────────────────────────────

/// The keys of the rows that satisfy `p`, in order.
pub open spec fn keys_where<V>(rows: Seq<(u64, V)>, p: spec_fn(u64, V) -> bool) -> Seq<u64>
    decreases rows.len(),
{
    if rows.len() == 0 {
        Seq::empty()
    } else {
        let rest = keys_where(rows.drop_last(), p);
        if p(rows.last().0, rows.last().1) {
            rest.push(rows.last().0)
        } else {
            rest
        }
    }
}

/// The values of the rows that satisfy `p`, in order.
pub open spec fn values_where<'a, V>(
    rows: Seq<(u64, V)>,
    p: spec_fn(u64, V) -> bool,
) -> Seq<&'a V>
    decreases rows.len(),
{
    if rows.len() == 0 {
        Seq::empty()
    } else {
        let rest = values_where(rows.drop_last(), p);
        if p(rows.last().0, rows.last().1) {
            rest.push(&rows.last().1)
        } else {
            rest
        }
    }
}

/// The first row that satisfies `p`.
pub open spec fn first_where<V>(rows: Seq<(u64, V)>, p: spec_fn(u64, V) -> bool) -> Option<(u64, V)>
    decreases rows.len(),
{
    if rows.len() == 0 {
        None
    } else if p(rows[0].0, rows[0].1) {
        Some(rows[0])
    } else {
        first_where(rows.drop_first(), p)
    }
}

/// `m` without the entries that satisfy `p`.
pub open spec fn without<V>(m: Map<u64, V>, p: spec_fn(u64, V) -> bool) -> Map<u64, V> {
    Map::new(|k: u64| m.contains_key(k) && !p(k, m[k]), |k: u64| m[k])
}

/// The selected keys are exactly those of the rows that satisfy `p`.
pub proof fn lemma_keys_where<V>(rows: Seq<(u64, V)>, p: spec_fn(u64, V) -> bool, k: u64)
    ensures
        keys_where(rows, p).contains(k) <==> exists|i: int|
            0 <= i < rows.len() && (#[trigger] rows[i]).0 == k && p(k, rows[i].1),
    decreases rows.len(),
{
    if rows.len() > 0 {
        let init = rows.drop_last();
        let last = rows.last();
        lemma_keys_where(init, p, k);
        let keys = keys_where(init, p);
        let all = keys_where(rows, p);
        if all.contains(k) {
            let j = choose|j: int| 0 <= j < all.len() && all[j] == k;
            if j < keys.len() {
                assert(keys[j] == k);
                let i = choose|i: int|
                    0 <= i < init.len() && (#[trigger] init[i]).0 == k && p(k, init[i].1);
                assert(rows[i].0 == k && p(k, rows[i].1));
            } else {
                assert(rows[rows.len() - 1].0 == k);
            }
        }
        if exists|i: int| 0 <= i < rows.len() && (#[trigger] rows[i]).0 == k && p(k, rows[i].1) {
            let i = choose|i: int|
                0 <= i < rows.len() && (#[trigger] rows[i]).0 == k && p(k, rows[i].1);
            if i < init.len() {
                assert(init[i].0 == k);
                let j = choose|j: int| 0 <= j < keys.len() && keys[j] == k;
                assert(all[j] == k);
            } else {
                assert(all[all.len() - 1] == k);
            }
        }
    }
}

/// The selected values are exactly those of the rows that satisfy `p`.
pub proof fn lemma_values_where<V>(rows: Seq<(u64, V)>, p: spec_fn(u64, V) -> bool, v: V)
    ensures
        values_where(rows, p).contains(&v) <==> exists|i: int|
            0 <= i < rows.len() && (#[trigger] rows[i]).1 == v && p(rows[i].0, v),
    decreases rows.len(),
{
    if rows.len() > 0 {
        let init = rows.drop_last();
        let some = values_where(init, p);
        let all = values_where(rows, p);
        lemma_values_where(init, p, v);
        if all.contains(&v) {
            let j = choose|j: int| 0 <= j < all.len() && all[j] == &v;
            if j < some.len() {
                assert(some[j] == &v);
                let i = choose|i: int|
                    0 <= i < init.len() && (#[trigger] init[i]).1 == v && p(init[i].0, v);
                assert(rows[i].1 == v && p(rows[i].0, v));
            } else {
                assert(rows[rows.len() - 1].1 == v);
            }
        }
        if exists|i: int| 0 <= i < rows.len() && (#[trigger] rows[i]).1 == v && p(rows[i].0, v) {
            let i = choose|i: int|
                0 <= i < rows.len() && (#[trigger] rows[i]).1 == v && p(rows[i].0, v);
            if i < init.len() {
                assert(init[i].1 == v);
                let j = choose|j: int| 0 <= j < some.len() && some[j] == &v;
                assert(all[j] == &v);
            } else {
                assert(all[all.len() - 1] == &v);
            }
        }
    }
}

/// The selected values of a map are exactly its entries that satisfy `p`.
pub proof fn lemma_listed_where<V>(m: Map<u64, V>, p: spec_fn(u64, V) -> bool, v: V)
    ensures
        values_where(rows_of(m), p).contains(&v) <==> exists|k: u64| #[trigger]
            m.contains_key(k) && m[k] == v && p(k, v),
{
    law_every_map_is_listed(m);
    lemma_values_where(rows_of(m), p, v);
    let rows = rows_of(m);
    if values_where(rows, p).contains(&v) {
        let i = choose|i: int|
            0 <= i < rows.len() && (#[trigger] rows[i]).1 == v && p(rows[i].0, v);
        lemma_row_in_map(rows, i);
        assert(m.contains_key(rows[i].0));
    }
    if exists|k: u64| #[trigger] m.contains_key(k) && m[k] == v && p(k, v) {
        let k = choose|k: u64| #[trigger] m.contains_key(k) && m[k] == v && p(k, v);
        lemma_entry_is_listed(m, k);
        let i = choose|i: int|
            0 <= i < rows.len() && (#[trigger] rows[i]).0 == k && rows[i].1 == m[k];
        assert(rows[i].1 == v && p(rows[i].0, v));
    }
}

/// A first row found is a row, and satisfies `p`.
pub proof fn lemma_first_where<V>(rows: Seq<(u64, V)>, p: spec_fn(u64, V) -> bool)
    ensures
        match first_where(rows, p) {
            Some(row) => p(row.0, row.1) && exists|i: int|
                0 <= i < rows.len() && #[trigger] rows[i] == row,
            None => forall|i: int|
                0 <= i < rows.len() ==> !p((#[trigger] rows[i]).0, rows[i].1),
        },
    decreases rows.len(),
{
    if rows.len() > 0 {
        let rest = rows.drop_first();
        lemma_first_where(rest, p);
        if p(rows[0].0, rows[0].1) {
        } else {
            match first_where(rest, p) {
                Some(row) => {
                    let i = choose|i: int| 0 <= i < rest.len() && #[trigger] rest[i] == row;
                    assert(rows[i + 1] == row);
                },
                None => {
                    assert forall|i: int| 0 <= i < rows.len() implies !p(
                        (#[trigger] rows[i]).0,
                        rows[i].1,
                    ) by {
                        if i > 0 {
                            assert(rest[i - 1] == rows[i]);
                        }
                    }
                },
            }
        }
    }
}

/// Removes every entry that satisfies `gone`; the keys of those, ascending.
pub(crate) fn remove_where<V, F: Fn(u64, &V) -> bool>(
    store: &mut KvStore<V>,
    gone: F,
    Ghost(p): Ghost<spec_fn(u64, V) -> bool>,
) -> (r: Vec<u64>)
    requires
        forall|k: u64, v: V| #[trigger] gone.requires((k, &v)),
        forall|k: u64, v: V, b: bool| #[trigger] gone.ensures((k, &v), b) ==> b == p(k, v),
    ensures
        r@ == keys_where(rows_of(old(store)@), p),
        final(store)@ == without(old(store)@, p),
        final(store).saved() == old(store).saved(),
        ascending(rows_of(old(store)@)),
        rows_map(rows_of(old(store)@)) == old(store)@,
{
    let ghost m0 = store@;
    let ghost rows0 = rows_of(m0);
    let rows = store.scan();
    let mut keys: Vec<u64> = Vec::new();
    let mut i: usize = 0;
    while i < rows.len()
        invariant
            i <= rows@.len() == rows0.len(),
            forall|j: int|
                0 <= j < rows@.len() ==> (#[trigger] rows@[j]).0 == rows0[j].0 && *rows@[j].1
                    == rows0[j].1,
            forall|k: u64, v: V| #[trigger] gone.requires((k, &v)),
            forall|k: u64, v: V, b: bool| #[trigger] gone.ensures((k, &v), b) ==> b == p(k, v),
            keys@ == keys_where(rows0.take(i as int), p),
        decreases rows@.len() - i,
    {
        let k: u64 = rows[i].0;
        let v: &V = rows[i].1;
        assert(gone.requires((k, &*v)));
        proof {
            assert(rows0.take(i + 1).drop_last() =~= rows0.take(i as int));
            assert(rows0.take(i + 1).last() == rows0[i as int]);
        }
        if gone(k, v) {
            keys.push(k);
        }
        i += 1;
    }
    proof {
        assert(rows0.take(rows0.len() as int) =~= rows0);
    }
    let mut j: usize = 0;
    while j < keys.len()
        invariant
            j <= keys@.len(),
            store.saved() == old(store).saved(),
            forall|k: u64| #[trigger]
                store@.contains_key(k) <==> m0.contains_key(k) && !keys@.take(j as int).contains(k),
            forall|k: u64| store@.contains_key(k) ==> #[trigger] store@[k] == m0[k],
        decreases keys@.len() - j,
    {
        let k: u64 = keys[j];
        store.remove(k);
        proof {
            let a = keys@.take(j as int);
            let b = keys@.take(j + 1);
            assert(b =~= a.push(k));
            assert forall|x: u64| b.contains(x) <==> a.contains(x) || x == k by {
                if a.contains(x) {
                    let n = choose|n: int| 0 <= n < a.len() && a[n] == x;
                    assert(b[n] == x);
                }
                assert(b[b.len() - 1] == k);
                if b.contains(x) && x != k {
                    let n = choose|n: int| 0 <= n < b.len() && b[n] == x;
                    assert(a[n] == x);
                }
            }
        }
        j += 1;
    }
    proof {
        assert(keys@.take(keys@.len() as int) =~= keys@);
        assert forall|k: u64| #[trigger] store@.contains_key(k) <==> without(m0, p).contains_key(k) by {
            lemma_keys_where(rows0, p, k);
            if m0.contains_key(k) {
                let n = choose|n: int| 0 <= n < rows0.len() && (#[trigger] rows0[n]).0 == k;
                assert(rows_map(rows0).contains_key(k));
                lemma_row_in_map(rows0, n);
                if keys@.contains(k) {
                    let q = choose|q: int|
                        0 <= q < rows0.len() && (#[trigger] rows0[q]).0 == k && p(k, rows0[q].1);
                    lemma_row_in_map(rows0, q);
                }
            }
        }
        assert(store@ =~= without(m0, p));
    }
    keys
}

/// The values of the entries that satisfy `wanted`, in ascending key order.
pub(crate) fn select<'a, V, F: Fn(u64, &V) -> bool>(
    store: &'a KvStore<V>,
    wanted: F,
    Ghost(p): Ghost<spec_fn(u64, V) -> bool>,
) -> (r: Vec<&'a V>)
    requires
        forall|k: u64, v: V| #[trigger] wanted.requires((k, &v)),
        forall|k: u64, v: V, b: bool| #[trigger] wanted.ensures((k, &v), b) ==> b == p(k, v),
    ensures
        r@ == values_where(rows_of(store@), p),
        ascending(rows_of(store@)),
        rows_map(rows_of(store@)) == store@,
{
    let ghost rows0 = rows_of(store@);
    let rows = store.scan();
    let mut out: Vec<&'a V> = Vec::new();
    let mut i: usize = 0;
    while i < rows.len()
        invariant
            i <= rows@.len() == rows0.len(),
            forall|j: int|
                0 <= j < rows@.len() ==> (#[trigger] rows@[j]).0 == rows0[j].0 && *rows@[j].1
                    == rows0[j].1,
            forall|k: u64, v: V| #[trigger] wanted.requires((k, &v)),
            forall|k: u64, v: V, b: bool| #[trigger] wanted.ensures((k, &v), b) ==> b == p(k, v),
            out@ == values_where(rows0.take(i as int), p),
        decreases rows@.len() - i,
    {
        let k: u64 = rows[i].0;
        let v: &'a V = rows[i].1;
        assert(wanted.requires((k, &*v)));
        proof {
            assert(rows0.take(i + 1).drop_last() =~= rows0.take(i as int));
            assert(rows0.take(i + 1).last() == rows0[i as int]);
        }
        if wanted(k, v) {
            out.push(v);
        }
        i += 1;
    }
    proof {
        assert(rows0.take(rows0.len() as int) =~= rows0);
    }
    out
}

/// The first entry in ascending key order that satisfies `wanted`.
pub(crate) fn find<'a, V, F: Fn(u64, &V) -> bool>(
    store: &'a KvStore<V>,
    wanted: F,
    Ghost(p): Ghost<spec_fn(u64, V) -> bool>,
) -> (r: Option<(u64, &'a V)>)
    requires
        forall|k: u64, v: V| #[trigger] wanted.requires((k, &v)),
        forall|k: u64, v: V, b: bool| #[trigger] wanted.ensures((k, &v), b) ==> b == p(k, v),
    ensures
        match r {
            Some((k, v)) => first_where(rows_of(store@), p) == Some((k, *v)),
            None => first_where(rows_of(store@), p) is None,
        },
        ascending(rows_of(store@)),
        rows_map(rows_of(store@)) == store@,
{
    let ghost rows0 = rows_of(store@);
    let rows = store.scan();
    let mut i: usize = 0;
    proof {
        assert(rows0.skip(0) =~= rows0);
    }
    while i < rows.len()
        invariant
            i <= rows@.len() == rows0.len(),
            rows0 == rows_of(store@),
            ascending(rows_of(store@)),
            rows_map(rows_of(store@)) == store@,
            forall|j: int|
                0 <= j < rows@.len() ==> (#[trigger] rows@[j]).0 == rows0[j].0 && *rows@[j].1
                    == rows0[j].1,
            forall|k: u64, v: V| #[trigger] wanted.requires((k, &v)),
            forall|k: u64, v: V, b: bool| #[trigger] wanted.ensures((k, &v), b) ==> b == p(k, v),
            first_where(rows0, p) == first_where(rows0.skip(i as int), p),
        decreases rows@.len() - i,
    {
        let k: u64 = rows[i].0;
        let v: &'a V = rows[i].1;
        assert(wanted.requires((k, &*v)));
        proof {
            assert(rows0.skip(i as int).drop_first() =~= rows0.skip(i + 1));
            assert(rows0.skip(i as int)[0] == rows0[i as int]);
        }
        if wanted(k, v) {
            return Some((k, v));
        }
        i += 1;
    }
    None
}

/// The map that the entries of `rows` make up, where the last entry under a
/// key counts.
pub open spec fn loaded<V>(rows: Seq<(u64, V)>) -> Map<u64, V>
    decreases rows.len(),
{
    if rows.len() == 0 {
        Map::empty()
    } else {
        loaded(rows.drop_last()).insert(rows.last().0, rows.last().1)
    }
}

/// `disk` with the current value, or no value, under each of `keys`.
pub open spec fn written_through<V>(
    disk: Map<u64, V>,
    keys: Seq<u64>,
    now: Map<u64, V>,
) -> Map<u64, V> {
    Map::new(
        |k: u64| if keys.contains(k) { now.contains_key(k) } else { disk.contains_key(k) },
        |k: u64| if keys.contains(k) { now[k] } else { disk[k] },
    )
}

/// Writing the unsaved keys through to a disk that holds the last saved entries
/// leaves on it exactly the entries of the store, and loading them again gives
/// the store back.
pub proof fn law_survives_reopen<V>(saved: Map<u64, V>, now: Map<u64, V>, keys: Seq<u64>)
    requires
        forall|k: u64| !keys.contains(k) ==> #[trigger] agree_at(saved, now, k),
    ensures
        written_through(saved, keys, now) == now,
        forall|rows: Seq<(u64, V)>|
            ascending(rows) && #[trigger] rows_map(rows) == now ==> loaded(rows) == now,
{
    assert forall|k: u64| !keys.contains(k) implies (now.contains_key(k)
        <==> #[trigger] saved.contains_key(k)) by {
        assert(agree_at(saved, now, k));
    }
    assert forall|k: u64| !keys.contains(k) && now.contains_key(k) implies now[k]
        == #[trigger] saved[k] by {
        assert(agree_at(saved, now, k));
    }
    assert(written_through(saved, keys, now) =~= now);
    assert forall|rows: Seq<(u64, V)>| ascending(rows) && #[trigger] rows_map(rows) == now implies
        loaded(rows) == now by {
        lemma_loaded_rows(rows);
    }
}

/// Loading ascending rows gives the map that they make up.
pub proof fn lemma_loaded_rows<V>(rows: Seq<(u64, V)>)
    requires
        ascending(rows),
    ensures
        loaded(rows) == rows_map(rows),
    decreases rows.len(),
{
    if rows.len() == 0 {
        assert(loaded(rows) =~= rows_map(rows));
    } else {
        lemma_rows_pop(rows);
        lemma_loaded_rows(rows.drop_last());
        lemma_row_in_map(rows, rows.len() - 1);
        assert(loaded(rows) =~= rows_map(rows));
    }
}

/// Dropping entries drops exactly those that are meant, and changes no other.
pub proof fn law_without_is_exact<V>(m: Map<u64, V>, p: spec_fn(u64, V) -> bool, k: u64)
    ensures
        without(m, p).contains_key(k) <==> m.contains_key(k) && !p(k, m[k]),
        without(m, p).contains_key(k) ==> without(m, p)[k] == m[k],
{
}

/// Rows are loaded under their keys, the last of several under one key counting,
/// and nothing else is there.
pub proof fn law_rows_are_loaded<V>(rows: Seq<(u64, V)>, i: int, k: u64)
    ensures
        0 <= i < rows.len() && (forall|j: int|
            i < j < rows.len() ==> (#[trigger] rows[j]).0 != rows[i].0) ==> loaded(
            rows,
        ).contains_key(rows[i].0) && loaded(rows)[rows[i].0] == rows[i].1,
        loaded(rows).contains_key(k) ==> exists|j: int|
            0 <= j < rows.len() && (#[trigger] rows[j]).0 == k && loaded(rows)[k] == rows[j].1,
    decreases rows.len(),
{
    if rows.len() > 0 {
        let init = rows.drop_last();
        law_rows_are_loaded(init, i, k);
        assert(rows[rows.len() - 1] == rows.last());
        if 0 <= i < init.len() && (forall|j: int|
            i < j < rows.len() ==> (#[trigger] rows[j]).0 != rows[i].0) {
            assert(init[i] == rows[i]);
            assert(rows[rows.len() - 1].0 != rows[i].0);
            assert forall|j: int| i < j < init.len() implies (#[trigger] init[j]).0
                != init[i].0 by {
                assert(rows[j] == init[j]);
            }
        }
        if loaded(rows).contains_key(k) && k != rows.last().0 {
            let j = choose|j: int|
                0 <= j < init.len() && (#[trigger] init[j]).0 == k && loaded(init)[k] == init[j].1;
            assert(rows[j] == init[j]);
        }
    }
}

} // verus!
