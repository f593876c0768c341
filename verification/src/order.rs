//! Stable sorting of lists whose elements have a rank.

use vstd::prelude::*;

verus! {

/// Elements that a list can be sorted by.
pub trait Ranked: Sized {
    /// Whether `self` has to stand before `other` in a sorted list.
    spec fn before(self, other: Self) -> bool;

    fn precedes(&self, other: &Self) -> (r: bool)
        ensures
            r == (*self).before(*other),
    ;

    /// `before` is a strict weak order.
    proof fn weak_order(x: Self, y: Self, z: Self)
        ensures
            !(x.before(y) && y.before(x)),
            !x.before(y) && !y.before(z) ==> !x.before(z),
    ;
}

impl<T: Ranked> Ranked for &T {
    open spec fn before(self, other: Self) -> bool {
        (*self).before(*other)
    }

    fn precedes(&self, other: &Self) -> (r: bool) {
        (**self).precedes(*other)
    }

    proof fn weak_order(x: Self, y: Self, z: Self) {
        T::weak_order(*x, *y, *z);
    }
}

impl Ranked for i64 {
    open spec fn before(self, other: Self) -> bool {
        self < other
    }

    fn precedes(&self, other: &Self) -> (r: bool) {
        *self < *other
    }

    proof fn weak_order(x: Self, y: Self, z: Self) {
    }
}

impl Ranked for String {
    open spec fn before(self, other: Self) -> bool {
        crate::text::text_before(self@, other@)
    }

    fn precedes(&self, other: &Self) -> (r: bool) {
        crate::text::str_before(self.as_str(), other.as_str())
    }

    proof fn weak_order(x: Self, y: Self, z: Self) {
        crate::text::lemma_text_weak_order(x@, y@, z@);
        assert(x.before(y) == crate::text::text_before(x@, y@));
        assert(y.before(x) == crate::text::text_before(y@, x@));
        assert(y.before(z) == crate::text::text_before(y@, z@));
        assert(x.before(z) == crate::text::text_before(x@, z@));
    }
}

/// `x` put into the sorted list `s`, in front of the trailing elements that it
/// has to stand before.
pub open spec fn insert_ranked<T: Ranked>(s: Seq<T>, x: T) -> Seq<T>
    decreases s.len(),
{
    if s.len() > 0 && x.before(s.last()) {
        insert_ranked(s.drop_last(), x).push(s.last())
    } else {
        s.push(x)
    }
}

/// The elements of `s` in rank order, equal ranks in the order of `s`.
pub open spec fn sorted<T: Ranked>(s: Seq<T>) -> Seq<T>
    decreases s.len(),
{
    if s.len() == 0 {
        s
    } else {
        insert_ranked(sorted(s.drop_last()), s.last())
    }
}

/// Whether no element of `s` has to stand before an earlier one.
pub open spec fn in_order<T: Ranked>(s: Seq<T>) -> bool {
    forall|i: int, j: int| 0 <= i < j < s.len() ==> !(#[trigger] s[j]).before(#[trigger] s[i])
}

proof fn lemma_insert_multiset<T: Ranked>(s: Seq<T>, x: T)
    ensures
        insert_ranked(s, x).len() == s.len() + 1,
        insert_ranked(s, x).to_multiset() =~= s.to_multiset().insert(x),
    decreases s.len(),
{
    broadcast use vstd::seq_lib::group_to_multiset_ensures;

    if s.len() > 0 && x.before(s.last()) {
        lemma_insert_multiset(s.drop_last(), x);
        assert(s =~= s.drop_last().push(s.last()));
    }
}

proof fn lemma_insert_in_order<T: Ranked>(s: Seq<T>, x: T)
    requires
        in_order(s),
    ensures
        in_order(insert_ranked(s, x)),
        insert_ranked(s, x).len() == s.len() + 1,
        forall|i: int|
            0 <= i < s.len() + 1 ==> (#[trigger] insert_ranked(s, x)[i] == x || exists|k: int|
                0 <= k < s.len() && s[k] == insert_ranked(s, x)[i]),
    decreases s.len(),
{
    let r = insert_ranked(s, x);
    if s.len() > 0 && x.before(s.last()) {
        let init = s.drop_last();
        let q = insert_ranked(init, x);
        lemma_insert_in_order(init, x);
        assert forall|i: int, j: int| 0 <= i < j < r.len() implies !(#[trigger] r[j]).before(
            #[trigger] r[i],
        ) by {
            if j < q.len() {
                assert(!q[j].before(q[i]));
            } else if q[i] == x {
                T::weak_order(x, s.last(), x);
            } else {
                let k = choose|k: int| 0 <= k < init.len() && init[k] == q[i];
                assert(!s[s.len() - 1].before(s[k]));
            }
        }
        assert forall|i: int| 0 <= i < s.len() + 1 implies (#[trigger] r[i] == x || exists|k: int|
            0 <= k < s.len() && s[k] == r[i]) by {
            if i < q.len() {
                assert(q[i] == r[i]);
                if q[i] != x {
                    let k = choose|k: int| 0 <= k < init.len() && init[k] == q[i];
                    assert(s[k] == r[i]);
                }
            } else {
                assert(s[s.len() - 1] == r[i]);
            }
        }
    } else {
        assert forall|i: int, j: int| 0 <= i < j < r.len() implies !(#[trigger] r[j]).before(
            #[trigger] r[i],
        ) by {
            if j < s.len() {
                assert(!s[j].before(s[i]));
            } else if i < s.len() - 1 {
                assert(!s[s.len() - 1].before(s[i]));
                T::weak_order(x, s[s.len() - 1], s[i]);
            }
        }
        assert forall|i: int| 0 <= i < s.len() + 1 implies (#[trigger] r[i] == x || exists|k: int|
            0 <= k < s.len() && s[k] == r[i]) by {
            if i < s.len() {
                assert(s[i] == r[i]);
            }
        }
    }
}

/// Whether no two elements that satisfy `class` have different ranks.
pub open spec fn one_rank<T: Ranked>(class: spec_fn(T) -> bool) -> bool {
    forall|x: T, y: T| #[trigger] class(x) && #[trigger] class(y) ==> !x.before(y)
}

proof fn lemma_insert_filter<T: Ranked>(s: Seq<T>, x: T, class: spec_fn(T) -> bool)
    requires
        one_rank(class),
    ensures
        insert_ranked(s, x).filter(class) =~= s.push(x).filter(class),
    decreases s.len(),
{
    reveal(Seq::filter);
    assert(s.push(x).drop_last() =~= s);
    if s.len() > 0 && x.before(s.last()) {
        let init = s.drop_last();
        lemma_insert_filter(init, x, class);
        assert(init.push(x).drop_last() =~= init);
        assert(insert_ranked(s, x).drop_last() =~= insert_ranked(init, x));
        assert(insert_ranked(s, x).last() == s.last());
        if class(x) {
            assert(!class(s.last()));
            assert(s.filter(class) == init.filter(class));
        } else {
            assert(init.push(x).filter(class) == init.filter(class));
            assert(s.push(x).filter(class) == s.filter(class));
        }
    }
}

/// Sorting permutes the list, leaves nothing out of order, and keeps elements
/// of the same rank in the order in which they stood.
pub proof fn law_sorted<T: Ranked>(s: Seq<T>, class: spec_fn(T) -> bool)
    ensures
        sorted(s).to_multiset() == s.to_multiset(),
        sorted(s).len() == s.len(),
        in_order(sorted(s)),
        one_rank(class) ==> sorted(s).filter(class) == s.filter(class),
    decreases s.len(),
{
    broadcast use vstd::seq_lib::group_to_multiset_ensures;

    if s.len() > 0 {
        let init = s.drop_last();
        law_sorted(init, class);
        lemma_insert_multiset(sorted(init), s.last());
        lemma_insert_in_order(sorted(init), s.last());
        assert(s =~= init.push(s.last()));
        if one_rank(class) {
            lemma_insert_filter(sorted(init), s.last(), class);
            reveal(Seq::filter);
            assert(sorted(init).push(s.last()).drop_last() =~= sorted(init));
        }
    }
}

/// Sorting keeps the elements: what is in one list is in the other.
pub proof fn lemma_sorted_contains<T: Ranked>(s: Seq<T>, x: T)
    ensures
        sorted(s).contains(x) <==> s.contains(x),
{
    law_sorted(s, |t: T| true);
    s.to_multiset_ensures();
    sorted(s).to_multiset_ensures();
    assert(s.contains(x) <==> s.to_multiset().count(x) > 0);
    assert(sorted(s).contains(x) <==> sorted(s).to_multiset().count(x) > 0);
}

proof fn lemma_insert_position<T: Ranked>(s: Seq<T>, x: T, at: int)
    requires
        0 <= at <= s.len(),
        forall|k: int| at <= k < s.len() ==> x.before(#[trigger] s[k]),
        at > 0 ==> !x.before(s[at - 1]),
    ensures
        insert_ranked(s, x) =~= s.insert(at, x),
    decreases s.len(),
{
    if at < s.len() {
        assert(x.before(s[s.len() - 1]));
        lemma_insert_position(s.drop_last(), x, at);
    }
}

/// Puts `x` into the list `v`, in front of the trailing elements that it has to
/// stand before.
pub fn insert<T: Ranked>(v: &mut Vec<T>, x: T)
    ensures
        final(v)@ == insert_ranked(old(v)@, x),
{
    let mut at: usize = v.len();
    while at > 0 && x.precedes(&v[at - 1])
        invariant
            v@ == old(v)@,
            at <= v@.len(),
            forall|k: int| at <= k < v@.len() ==> x.before(#[trigger] v@[k]),
        decreases at,
    {
        at -= 1;
    }
    proof {
        lemma_insert_position(v@, x, at as int);
    }
    v.insert(at, x);
}

/// The elements of `v` in rank order, equal ranks in the order of `v`.
pub fn sort<T: Ranked + Copy>(v: &Vec<T>) -> (r: Vec<T>)
    ensures
        r@ == sorted(v@),
{
    let mut r: Vec<T> = Vec::new();
    let mut i: usize = 0;
    while i < v.len()
        invariant
            i <= v@.len(),
            r@ == sorted(v@.take(i as int)),
        decreases v@.len() - i,
    {
        proof {
            assert(v@.take(i + 1).drop_last() =~= v@.take(i as int));
        }
        insert(&mut r, v[i]);
        i += 1;
    }
    proof {
        assert(v@.take(v@.len() as int) =~= v@);
    }
    r
}

/// The elements of `v` in reverse order.
pub fn reversed<T>(v: Vec<T>) -> (r: Vec<T>)
    ensures
        r@ == v@.reverse(),
{
    let ghost all = v@;
    let mut rest = v;
    let mut r: Vec<T> = Vec::new();
    while rest.len() > 0
        invariant
            rest@.len() + r@.len() == all.len(),
            rest@ == all.take(rest@.len() as int),
            r@ == all.skip(rest@.len() as int).reverse(),
        decreases rest@.len(),
    {
        let ghost n = rest@.len();
        match rest.pop() {
            Some(x) => {
                r.push(x);
                proof {
                    assert(all.skip(n - 1) =~= seq![x] + all.skip(n as int));
                    assert(r@ =~= all.skip(n - 1).reverse());
                    assert(rest@ =~= all.take(n - 1));
                }
            },
            None => {},
        }
    }
    proof {
        assert(all.skip(0) =~= all);
    }
    r
}

/// The elements of `v` in rank order, equal ranks in the order of `v`.
pub fn into_sorted<T: Ranked>(v: Vec<T>) -> (r: Vec<T>)
    ensures
        r@ == sorted(v@),
{
    let ghost all = v@;
    let mut rest = reversed(v);
    let mut r: Vec<T> = Vec::new();
    while rest.len() > 0
        invariant
            rest@.len() <= all.len(),
            rest@ == all.skip(all.len() - rest@.len()).reverse(),
            r@ == sorted(all.take(all.len() - rest@.len())),
        decreases rest@.len(),
    {
        let ghost n = all.len() - rest@.len();
        let ghost r0 = rest@;
        match rest.pop() {
            Some(x) => {
                proof {
                    assert(r0.reverse() =~= all.skip(n));
                    assert(r0.reverse()[0] == x);
                    assert(all[n] == x);
                    assert(all.take(n + 1).drop_last() =~= all.take(n));
                    assert(rest@ =~= all.skip(n + 1).reverse());
                }
                insert(&mut r, x);
            },
            None => {},
        }
    }
    proof {
        assert(all.take(all.len() as int) =~= all);
    }
    r
}

} // verus!
