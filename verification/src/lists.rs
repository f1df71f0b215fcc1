//! Searching, filtering and sorting of lists.
use vstd::prelude::*;

verus! {

/// Values of which exact copies can be made.
pub trait Duplicate: Sized {
    /// An exact copy.
    fn duplicate(&self) -> (r: Self)
        ensures
            r == *self,
    ;
}

impl Duplicate for String {
    fn duplicate(&self) -> (r: Self) {
        self.clone()
    }
}

/// An exact copy of a list.
pub fn copy_list<T: Duplicate>(v: &Vec<T>) -> (r: Vec<T>)
    ensures
        r@ == v@,
{
    let mut out: Vec<T> = Vec::new();
    let mut i: usize = 0;
    while i < v.len()
        invariant
            i <= v@.len(),
            out@ == v@.take(i as int),
        decreases v@.len() - i,
    {
        out.push(v[i].duplicate());
        i = i + 1;
    }
    proof {
        assert(v@.take(i as int) =~= v@);
    }
    out
}

/// The first place from `from` on whose item satisfies `p`.
pub open spec fn first_from<T>(s: Seq<T>, p: spec_fn(T) -> bool, from: int) -> Option<int>
    decreases s.len() - from,
{
    if from < 0 || from >= s.len() {
        None
    } else if p(s[from]) {
        Some(from)
    } else {
        first_from(s, p, from + 1)
    }
}

/// The first place whose item satisfies `p`.
pub open spec fn first_where<T>(s: Seq<T>, p: spec_fn(T) -> bool) -> Option<int> {
    first_from(s, p, 0)
}

/// The first place is one that satisfies `p` with none before it; there is none exactly where no
/// item satisfies `p`.
pub proof fn lemma_first_from<T>(s: Seq<T>, p: spec_fn(T) -> bool, from: int)
    requires
        0 <= from,
    ensures
        match first_from(s, p, from) {
            Some(i) => from <= i < s.len() && p(s[i]) && (forall|j: int|
                from <= j < i ==> !p(#[trigger] s[j])),
            None => forall|j: int| from <= j < s.len() ==> !p(#[trigger] s[j]),
        },
    decreases s.len() - from,
{
    if from < s.len() && !p(s[from]) {
        lemma_first_from(s, p, from + 1);
    }
}

/// The first place, from what holds of it.
pub proof fn lemma_first_is<T>(s: Seq<T>, p: spec_fn(T) -> bool, i: int)
    requires
        0 <= i < s.len(),
        p(s[i]),
        forall|j: int| 0 <= j < i ==> !p(#[trigger] s[j]),
    ensures
        first_where(s, p) == Some(i),
{
    lemma_first_from(s, p, 0);
}

/// The first place whose item satisfies the test.
pub fn position<T, F: Fn(&T) -> bool>(v: &Vec<T>, f: F, p: Ghost<spec_fn(T) -> bool>) -> (r: Option<
    usize,
>)
    requires
        forall|x: &T| #[trigger] call_requires(f, (x,)),
        forall|x: &T, b: bool| #[trigger] call_ensures(f, (x,), b) ==> b == p@(*x),
    ensures
        match r {
            Some(i) => i < v@.len() && p@(v@[i as int]) && first_where(v@, p@) == Some(i as int),
            None => first_where(v@, p@) is None,
        },
        r is None ==> (forall|j: int| 0 <= j < v@.len() ==> !p@(#[trigger] v@[j])),
{
    let mut i: usize = 0;
    while i < v.len()
        invariant
            i <= v@.len(),
            forall|x: &T| #[trigger] call_requires(f, (x,)),
            forall|x: &T, b: bool| #[trigger] call_ensures(f, (x,), b) ==> b == p@(*x),
            forall|j: int| 0 <= j < i ==> !p@(#[trigger] v@[j]),
        decreases v@.len() - i,
    {
        if f(&v[i]) {
            proof {
                lemma_first_is(v@, p@, i as int);
            }
            return Some(i);
        }
        i = i + 1;
    }
    proof {
        lemma_first_from(v@, p@, 0);
    }
    None
}

/// Keeps the items that satisfy the test, in their order.
pub fn retain<T, F: Fn(&T) -> bool>(v: &mut Vec<T>, f: F, p: Ghost<spec_fn(T) -> bool>)
    requires
        forall|x: &T| #[trigger] call_requires(f, (x,)),
        forall|x: &T, b: bool| #[trigger] call_ensures(f, (x,), b) ==> b == p@(*x),
    ensures
        final(v)@ == old(v)@.filter(p@),
{
    let ghost before = v@;
    let mut i: usize = 0;
    let ghost mut seen: int = 0;
    proof {
        assert(before.take(0).filter(p@) =~= Seq::<T>::empty()) by {
            reveal(Seq::filter);
        }
        assert(before.skip(0) =~= before);
    }
    while i < v.len()
        invariant
            forall|x: &T| #[trigger] call_requires(f, (x,)),
            forall|x: &T, b: bool| #[trigger] call_ensures(f, (x,), b) ==> b == p@(*x),
            i <= v@.len(),
            0 <= seen <= before.len(),
            v@.len() - i == before.len() - seen,
            v@.take(i as int) == before.take(seen).filter(p@),
            v@.skip(i as int) == before.skip(seen),
        decreases v@.len() - i,
    {
        let ghost current = v@;
        proof {
            assert(current[i as int] == current.skip(i as int)[0]);
            assert(before[seen] == before.skip(seen)[0]);
            assert(before.take(seen + 1).drop_last() =~= before.take(seen));
            assert(before.take(seen + 1).last() == before[seen]);
            reveal(Seq::filter);
        }
        if f(&v[i]) {
            i = i + 1;
            proof {
                assert(v@.take(i as int) =~= current.take(i - 1).push(before[seen]));
                assert(v@.skip(i as int) =~= current.skip(i - 1).skip(1));
                assert(before.skip(seen + 1) =~= before.skip(seen).skip(1));
            }
        } else {
            v.remove(i);
            proof {
                assert(v@.take(i as int) =~= current.take(i as int));
                assert(v@.skip(i as int) =~= current.skip(i as int).skip(1));
                assert(before.skip(seen + 1) =~= before.skip(seen).skip(1));
            }
        }
        proof {
            seen = seen + 1;
        }
    }
    proof {
        assert(v@.take(i as int) =~= v@);
        assert(before.take(seen) =~= before);
    }
}

/// The first place in a list of images is the first place in the list itself.
pub proof fn lemma_first_of_images<T, U>(
    s: Seq<T>,
    f: spec_fn(T) -> U,
    p: spec_fn(T) -> bool,
    q: spec_fn(U) -> bool,
)
    requires
        forall|x: T| #[trigger] p(x) == q(f(x)),
    ensures
        first_where(s, p) == first_where(s.map_values(f), q),
{
    lemma_first_from(s, p, 0);
    lemma_first_from(s.map_values(f), q, 0);
    let t = s.map_values(f);
    match first_where(s, p) {
        Some(i) => {
            assert(q(t[i]));
            assert forall|j: int| 0 <= j < i implies !q(#[trigger] t[j]) by {
                assert(!p(s[j]));
            }
            lemma_first_is(t, q, i);
        },
        None => {
            if let Some(j) = first_where(t, q) {
                assert(q(t[j]));
                assert(p(s[j]));
            }
        },
    }
}

/// A filtered list of images is the list of images of a filtered list.
pub proof fn lemma_filter_images<T, U>(
    s: Seq<T>,
    f: spec_fn(T) -> U,
    p: spec_fn(T) -> bool,
    q: spec_fn(U) -> bool,
)
    requires
        forall|x: T| #[trigger] p(x) == q(f(x)),
    ensures
        s.filter(p).map_values(f) == s.map_values(f).filter(q),
    decreases s.len(),
{
    reveal(Seq::filter);
    let t = s.map_values(f);
    if s.len() > 0 {
        assert(t.drop_last() =~= s.drop_last().map_values(f));
        lemma_filter_images(s.drop_last(), f, p, q);
        assert(p(s.last()) == q(t.last()));
        if p(s.last()) {
            assert(s.filter(p).map_values(f) =~= s.drop_last().filter(p).map_values(f).push(
                f(s.last()),
            ));
        }
    } else {
        assert(s.filter(p).map_values(f) =~= t.filter(q));
    }
}

/// Items with a place in an order. Items of equal rank may differ.
pub trait Ranked: Sized {
    /// The other item comes later.
    spec fn precedes(&self, other: &Self) -> bool;

    /// No item precedes one that precedes it.
    proof fn lemma_asymmetric(a: &Self, b: &Self)
        requires
            a.precedes(b),
        ensures
            !b.precedes(a),
    ;

    /// Not to precede is transitive.
    proof fn lemma_negatively_transitive(a: &Self, b: &Self, c: &Self)
        requires
            !a.precedes(b),
            !b.precedes(c),
        ensures
            !a.precedes(c),
    ;

    /// Whether the other item comes later.
    fn comes_before(&self, other: &Self) -> (r: bool)
        ensures
            r == self.precedes(other),
    ;
}

/// The order of ranked items.
pub open spec fn rank_order<T: Ranked>() -> spec_fn(T, T) -> bool {
    |a: T, b: T| a.precedes(&b)
}

/// `lt` orders items, with items of equal rank allowed.
pub open spec fn is_ranking<T>(lt: spec_fn(T, T) -> bool) -> bool {
    &&& forall|a: T, b: T| #[trigger] lt(a, b) ==> !lt(b, a)
    &&& forall|a: T, b: T, c: T|
        #![trigger lt(a, b), lt(b, c)]
        !lt(a, b) && !lt(b, c) ==> !lt(a, c)
}

/// The order of ranked items is one.
pub proof fn lemma_rank_order<T: Ranked>()
    ensures
        is_ranking(rank_order::<T>()),
{
    let lt = rank_order::<T>();
    assert forall|a: T, b: T| #[trigger] lt(a, b) implies !lt(b, a) by {
        T::lemma_asymmetric(&a, &b);
    }
    assert forall|a: T, b: T, c: T|
        #![trigger lt(a, b), lt(b, c)]
        !lt(a, b) && !lt(b, c) implies !lt(a, c) by {
        T::lemma_negatively_transitive(&a, &b, &c);
    }
}

/// No item precedes one that stands before it.
pub open spec fn in_order<T>(s: Seq<T>, lt: spec_fn(T, T) -> bool) -> bool {
    forall|i: int, j: int| #![trigger s[i], s[j]] 0 <= i < j < s.len() ==> !lt(s[j], s[i])
}

/// `x` put behind all items of `s` that it does not precede, where `s` is in order.
pub open spec fn inserted<T>(s: Seq<T>, x: T, lt: spec_fn(T, T) -> bool) -> Seq<T>
    decreases s.len(),
{
    if s.len() > 0 && lt(x, s.last()) {
        inserted(s.drop_last(), x, lt).push(s.last())
    } else {
        s.push(x)
    }
}

/// The items in order, those of equal rank as they stood.
pub open spec fn stable_sorted<T>(s: Seq<T>, lt: spec_fn(T, T) -> bool) -> Seq<T>
    decreases s.len(),
{
    if s.len() == 0 {
        s
    } else {
        inserted(stable_sorted(s.drop_last(), lt), s.last(), lt)
    }
}

/// An insertion adds the item and keeps the order.
pub proof fn lemma_inserted<T>(s: Seq<T>, x: T, lt: spec_fn(T, T) -> bool)
    requires
        is_ranking(lt),
        in_order(s, lt),
    ensures
        in_order(inserted(s, x, lt), lt),
        inserted(s, x, lt).to_multiset() == s.to_multiset().insert(x),
        inserted(s, x, lt).len() == s.len() + 1,
    decreases s.len(),
{
    broadcast use vstd::seq_lib::group_to_multiset_ensures;

    if s.len() > 0 && lt(x, s.last()) {
        let front = s.drop_last();
        let last = s.last();
        let placed = inserted(front, x, lt);
        assert(in_order(front, lt));
        lemma_inserted(front, x, lt);
        let r = inserted(s, x, lt);
        assert(r == placed.push(last));
        assert(front.push(last) =~= s);
        assert(r.to_multiset() =~= s.to_multiset().insert(x));
        assert forall|i: int, j: int|
            #![trigger r[i], r[j]]
            0 <= i < j < r.len() implies !lt(r[j], r[i]) by {
            if j == placed.len() {
                // The item at `i` is `x` or one of `front`.
                assert(placed.to_multiset().count(r[i]) > 0) by {
                    assert(placed.contains(placed[i]));
                }
                assert(r[i] == x || front.contains(r[i])) by {
                    if r[i] != x {
                        assert(front.to_multiset().count(r[i]) > 0);
                    }
                }
                if r[i] != x {
                    let k = front.index_of(r[i]);
                    assert(s[k] == r[i] && s[s.len() - 1] == last);
                }
            } else {
                assert(placed[j] == r[j] && placed[i] == r[i]);
            }
        }
    } else {
        let r = s.push(x);
        assert forall|i: int, j: int|
            #![trigger r[i], r[j]]
            0 <= i < j < r.len() implies !lt(r[j], r[i]) by {
            if j == s.len() {
                if i < s.len() - 1 {
                    assert(!lt(s[s.len() - 1], s[i]));
                    assert(!lt(x, s.last()));
                }
            } else {
                assert(s[j] == r[j] && s[i] == r[i]);
            }
        }
    }
}

/// Sorting gives the same items in order.
pub proof fn lemma_stable_sorted<T>(s: Seq<T>, lt: spec_fn(T, T) -> bool)
    requires
        is_ranking(lt),
    ensures
        in_order(stable_sorted(s, lt), lt),
        stable_sorted(s, lt).to_multiset() == s.to_multiset(),
        stable_sorted(s, lt).len() == s.len(),
    decreases s.len(),
{
    broadcast use vstd::seq_lib::group_to_multiset_ensures;

    if s.len() > 0 {
        lemma_stable_sorted(s.drop_last(), lt);
        lemma_inserted(stable_sorted(s.drop_last(), lt), s.last(), lt);
        assert(s.drop_last().push(s.last()) =~= s);
    }
}

/// An insertion into a list of images is the image of an insertion.
pub proof fn lemma_inserted_images<T, U>(
    s: Seq<T>,
    x: T,
    f: spec_fn(T) -> U,
    lt: spec_fn(T, T) -> bool,
    below: spec_fn(U, U) -> bool,
)
    requires
        forall|a: T, b: T| #[trigger] lt(a, b) == below(f(a), f(b)),
    ensures
        inserted(s, x, lt).map_values(f) == inserted(s.map_values(f), f(x), below),
    decreases s.len(),
{
    let t = s.map_values(f);
    if s.len() > 0 && lt(x, s.last()) {
        assert(t.last() == f(s.last()));
        assert(t.drop_last() =~= s.drop_last().map_values(f));
        lemma_inserted_images(s.drop_last(), x, f, lt, below);
        assert(inserted(s, x, lt).map_values(f) =~= inserted(s.drop_last(), x, lt).map_values(
            f,
        ).push(f(s.last())));
    } else {
        if s.len() > 0 {
            assert(t.last() == f(s.last()));
            assert(!below(f(x), t.last()));
        }
        assert(s.push(x).map_values(f) =~= t.push(f(x)));
    }
}

/// A list of images is sorted by sorting the list itself.
pub proof fn lemma_sorted_images<T, U>(
    s: Seq<T>,
    f: spec_fn(T) -> U,
    lt: spec_fn(T, T) -> bool,
    below: spec_fn(U, U) -> bool,
)
    requires
        forall|a: T, b: T| #[trigger] lt(a, b) == below(f(a), f(b)),
    ensures
        stable_sorted(s, lt).map_values(f) == stable_sorted(s.map_values(f), below),
    decreases s.len(),
{
    let t = s.map_values(f);
    if s.len() > 0 {
        assert(t.drop_last() =~= s.drop_last().map_values(f));
        lemma_sorted_images(s.drop_last(), f, lt, below);
        lemma_inserted_images(stable_sorted(s.drop_last(), lt), s.last(), f, lt, below);
    } else {
        assert(s.map_values(f) =~= t);
    }
}

/// Puts `x` behind all items that it does not precede.
pub fn insert_in_order<T: Ranked>(v: &mut Vec<T>, x: T)
    ensures
        final(v)@ == inserted(old(v)@, x, rank_order::<T>()),
{
    let ghost before = v@;
    let ghost lt = rank_order::<T>();
    let mut i: usize = v.len();
    proof {
        assert(before.take(i as int) =~= before);
        assert(before.skip(i as int) =~= Seq::<T>::empty());
        assert(inserted(before, x, lt) =~= inserted(before.take(i as int), x, lt) + before.skip(i as int));
    }
    while i > 0 && x.comes_before(&v[i - 1])
        invariant
            i <= v@.len(),
            v@ == before,
            lt == rank_order::<T>(),
            inserted(before, x, lt) == inserted(before.take(i as int), x, lt) + before.skip(i as int),
        decreases i,
    {
        proof {
            let front = before.take(i as int);
            assert(front.last() == before[i - 1]);
            assert(front.drop_last() =~= before.take(i - 1));
            assert(inserted(front, x, lt) == inserted(before.take(i - 1), x, lt).push(before[i - 1]));
            assert(inserted(before.take(i - 1), x, lt).push(before[i - 1]) + before.skip(i as int)
                =~= inserted(before.take(i - 1), x, lt) + before.skip(i - 1));
        }
        i = i - 1;
    }
    proof {
        let front = before.take(i as int);
        assert(i > 0 ==> front.last() == before[i - 1]);
        assert(inserted(front, x, lt) == front.push(x));
        assert(front.push(x) + before.skip(i as int) =~= before.insert(i as int, x));
    }
    v.insert(i, x);
}

/// Sorts the items; those of equal rank stay as they stand.
pub fn sort<T: Ranked>(v: &mut Vec<T>)
    ensures
        final(v)@ == stable_sorted(old(v)@, rank_order::<T>()),
{
    let mut rest: Vec<T> = Vec::new();
    std::mem::swap(v, &mut rest);
    rest_into(v, rest);
}

fn rest_into<T: Ranked>(v: &mut Vec<T>, items: Vec<T>)
    requires
        old(v)@.len() == 0,
    ensures
        final(v)@ == stable_sorted(items@, rank_order::<T>()),
{
    let ghost before = items@;
    let mut rest = items;
    proof {
        assert(before.take(0) =~= Seq::<T>::empty());
        assert(v@ =~= stable_sorted(before.take(0), rank_order::<T>()));
        assert(before.skip(0) =~= before);
    }
    let ghost mut seen: int = 0;
    while rest.len() > 0
        invariant
            0 <= seen <= before.len(),
            rest@ == before.skip(seen),
            v@ == stable_sorted(before.take(seen), rank_order::<T>()),
        decreases rest@.len(),
    {
        let x = rest.remove(0);
        proof {
            assert(x == before[seen]);
            assert(before.take(seen + 1).drop_last() =~= before.take(seen));
            assert(before.take(seen + 1).last() == x);
            assert(rest@ =~= before.skip(seen + 1));
            seen = seen + 1;
        }
        insert_in_order(v, x);
    }
    proof {
        assert(before.take(seen) =~= before);
    }
}

/// Of each run of items of equal rank, the first.
pub open spec fn runs<T>(s: Seq<T>, lt: spec_fn(T, T) -> bool) -> Seq<T>
    decreases s.len(),
{
    if s.len() == 0 {
        s
    } else {
        let front = runs(s.drop_last(), lt);
        if front.len() > 0 && !lt(front.last(), s.last()) && !lt(s.last(), front.last()) {
            front
        } else {
            front.push(s.last())
        }
    }
}

/// The runs of images are the images of the runs, where the images are ordered alike.
pub proof fn lemma_runs_images<T, U>(
    s: Seq<T>,
    f: spec_fn(T) -> U,
    lt: spec_fn(T, T) -> bool,
    below: spec_fn(U, U) -> bool,
)
    requires
        forall|a: T, b: T| #[trigger] lt(a, b) == below(f(a), f(b)),
    ensures
        runs(s, lt).map_values(f) == runs(s.map_values(f), below),
    decreases s.len(),
{
    let t = s.map_values(f);
    if s.len() > 0 {
        assert(t.drop_last() =~= s.drop_last().map_values(f));
        lemma_runs_images(s.drop_last(), f, lt, below);
        let front = runs(s.drop_last(), lt);
        if front.len() > 0 {
            assert(front.map_values(f).last() == f(front.last()));
        }
        assert(front.push(s.last()).map_values(f) =~= front.map_values(f).push(f(s.last())));
    } else {
        assert(runs(s, lt).map_values(f) =~= t);
    }
}

/// Leaves of each run of items of equal rank the first.
pub fn dedup<T: Ranked>(items: Vec<T>) -> (r: Vec<T>)
    ensures
        r@ == runs(items@, rank_order::<T>()),
    decreases items@.len(),
{
    let mut rest = items;
    match rest.pop() {
        None => rest,
        Some(last) => {
            proof {
                assert(rest@ =~= items@.drop_last());
            }
            let mut out = dedup(rest);
            let repeated = if out.len() > 0 {
                let before = &out[out.len() - 1];
                !before.comes_before(&last) && !last.comes_before(before)
            } else {
                false
            };
            if !repeated {
                out.push(last);
            }
            out
        },
    }
}

/// The number of items with a property.
pub open spec fn count<T>(s: Seq<T>, p: spec_fn(T) -> bool) -> nat
    decreases s.len(),
{
    if s.len() == 0 {
        0
    } else {
        count(s.drop_last(), p) + if p(s.last()) {
            1nat
        } else {
            0nat
        }
    }
}

/// An item more counts if it has the property.
pub proof fn lemma_count_push<T>(s: Seq<T>, x: T, p: spec_fn(T) -> bool)
    ensures
        count(s.push(x), p) == count(s, p) + if p(x) {
            1nat
        } else {
            0nat
        },
{
    assert(s.push(x).drop_last() =~= s);
}

/// An item in the place of another counts instead of it.
pub proof fn lemma_count_update<T>(s: Seq<T>, i: int, x: T, p: spec_fn(T) -> bool)
    requires
        0 <= i < s.len(),
    ensures
        count(s.update(i, x), p) + if p(s[i]) {
            1nat
        } else {
            0nat
        } == count(s, p) + if p(x) {
            1nat
        } else {
            0nat
        },
    decreases s.len(),
{
    if i == s.len() - 1 {
        assert(s.update(i, x).drop_last() =~= s.drop_last());
    } else {
        assert(s.update(i, x).drop_last() =~= s.drop_last().update(i, x));
        lemma_count_update(s.drop_last(), i, x, p);
    }
}

/// An item that is taken out counts no longer.
pub proof fn lemma_count_remove<T>(s: Seq<T>, i: int, p: spec_fn(T) -> bool)
    requires
        0 <= i < s.len(),
    ensures
        count(s, p) == count(s.remove(i), p) + if p(s[i]) {
            1nat
        } else {
            0nat
        },
    decreases s.len(),
{
    if i == s.len() - 1 {
        assert(s.remove(i) =~= s.drop_last());
    } else {
        assert(s.remove(i).drop_last() =~= s.drop_last().remove(i));
        lemma_count_remove(s.drop_last(), i, p);
    }
}

/// Where no item has the property, none counts, and the other way round.
pub proof fn lemma_count_none<T>(s: Seq<T>, p: spec_fn(T) -> bool)
    ensures
        count(s, p) == 0 <==> forall|i: int| 0 <= i < s.len() ==> !p(#[trigger] s[i]),
    decreases s.len(),
{
    if s.len() > 0 {
        lemma_count_none(s.drop_last(), p);
        if count(s, p) == 0 {
            assert forall|i: int| 0 <= i < s.len() implies !p(#[trigger] s[i]) by {
                if i < s.len() - 1 {
                    assert(s.drop_last()[i] == s[i]);
                }
            }
        }
        if forall|i: int| 0 <= i < s.len() ==> !p(#[trigger] s[i]) {
            assert forall|i: int| 0 <= i < s.drop_last().len() implies !p(
                #[trigger] s.drop_last()[i],
            ) by {
                assert(s.drop_last()[i] == s[i]);
            }
            assert(!p(s[s.len() - 1]));
        }
    }
}

/// The order of the items makes no difference.
pub proof fn lemma_count_sorted<T>(s: Seq<T>, lt: spec_fn(T, T) -> bool, p: spec_fn(T) -> bool)
    ensures
        count(stable_sorted(s, lt), p) == count(s, p),
    decreases s.len(),
{
    if s.len() > 0 {
        lemma_count_sorted(s.drop_last(), lt, p);
        lemma_count_inserted(stable_sorted(s.drop_last(), lt), s.last(), lt, p);
    }
}

proof fn lemma_count_inserted<T>(
    s: Seq<T>,
    x: T,
    lt: spec_fn(T, T) -> bool,
    p: spec_fn(T) -> bool,
)
    ensures
        count(inserted(s, x, lt), p) == count(s, p) + if p(x) {
            1nat
        } else {
            0nat
        },
    decreases s.len(),
{
    if s.len() > 0 && lt(x, s.last()) {
        lemma_count_inserted(s.drop_last(), x, lt, p);
        lemma_count_push(inserted(s.drop_last(), x, lt), s.last(), p);
    } else {
        lemma_count_push(s, x, p);
    }
}

/// Leaving items out makes the count no greater.
pub proof fn lemma_count_filter<T>(s: Seq<T>, q: spec_fn(T) -> bool, p: spec_fn(T) -> bool)
    ensures
        count(s.filter(q), p) <= count(s, p),
    decreases s.len(),
{
    reveal(Seq::filter);
    if s.len() > 0 {
        lemma_count_filter(s.drop_last(), q, p);
        lemma_count_push(s.drop_last().filter(q), s.last(), p);
    }
}

/// Images that have the property alike count alike.
pub proof fn lemma_count_images<T, U>(
    s: Seq<T>,
    f: spec_fn(T) -> U,
    p: spec_fn(T) -> bool,
    q: spec_fn(U) -> bool,
)
    requires
        forall|x: T| #[trigger] p(x) == q(f(x)),
    ensures
        count(s.map_values(f), q) == count(s, p),
    decreases s.len(),
{
    let t = s.map_values(f);
    if s.len() > 0 {
        assert(t.drop_last() =~= s.drop_last().map_values(f));
        lemma_count_images(s.drop_last(), f, p, q);
        assert(p(s.last()) == q(f(s.last())));
    }
}

/// What stays of a list is what was in it and satisfies `p`.
pub proof fn lemma_filter_members<T>(s: Seq<T>, p: spec_fn(T) -> bool, x: T)
    ensures
        s.filter(p).contains(x) <==> s.contains(x) && p(x),
    decreases s.len(),
{
    reveal(Seq::filter);
    if s.len() > 0 {
        let front = s.drop_last();
        lemma_filter_members(front, p, x);
        let kept = front.filter(p);
        let all = s.filter(p);
        if front.contains(x) {
            let i = front.index_of(x);
            assert(s[i] == x);
        }
        if s.contains(x) && !front.contains(x) {
            let i = s.index_of(x);
            assert(i == s.len() - 1 || front[i] == x);
        }
        if kept.contains(x) {
            let i = kept.index_of(x);
            assert(all[i] == x);
        } else if all.contains(x) {
            let i = all.index_of(x);
            assert(i == kept.len() || kept[i] == x);
        }
        if p(s.last()) {
            assert(all[kept.len() as int] == s.last());
        }
        assert(s[s.len() - 1] == s.last());
    }
}

/// Sorting neither adds nor takes an item.
pub proof fn lemma_sorted_members<T>(s: Seq<T>, lt: spec_fn(T, T) -> bool, x: T)
    requires
        is_ranking(lt),
    ensures
        stable_sorted(s, lt).contains(x) <==> s.contains(x),
        stable_sorted(s, lt).len() == s.len(),
{
    broadcast use vstd::seq_lib::group_to_multiset_ensures;

    lemma_stable_sorted(s, lt);
    assert(stable_sorted(s, lt).contains(x) <==> stable_sorted(s, lt).to_multiset().count(x) > 0);
    assert(s.contains(x) <==> s.to_multiset().count(x) > 0);
}

/// Of items in order, the first of each run ascend.
pub proof fn lemma_runs_ascend<T>(s: Seq<T>, lt: spec_fn(T, T) -> bool)
    requires
        is_ranking(lt),
        in_order(s, lt),
    ensures
        forall|i: int, j: int|
            #![trigger runs(s, lt)[i], runs(s, lt)[j]]
            0 <= i < j < runs(s, lt).len() ==> lt(runs(s, lt)[i], runs(s, lt)[j]),
        forall|x: T| #[trigger] runs(s, lt).contains(x) ==> s.contains(x),
    decreases s.len(),
{
    if s.len() > 0 {
        let shorter = s.drop_last();
        assert(in_order(shorter, lt)) by {
            assert forall|i: int, j: int|
                #![trigger shorter[i], shorter[j]]
                0 <= i < j < shorter.len() implies !lt(shorter[j], shorter[i]) by {
                assert(s[i] == shorter[i] && s[j] == shorter[j]);
            }
        }
        lemma_runs_ascend(shorter, lt);
        let front = runs(shorter, lt);
        let all = runs(s, lt);
        let last = s.last();
        assert(s[s.len() - 1] == last);
        assert forall|x: T| #[trigger] all.contains(x) implies s.contains(x) by {
            let i = all.index_of(x);
            if i < front.len() {
                assert(front[i] == x);
                assert(front.contains(x));
                let k = shorter.index_of(x);
                assert(s[k] == x);
            }
        }
        if all.len() > front.len() && front.len() > 0 {
            let end = front.last();
            assert(front.contains(front[front.len() - 1]));
            let k = shorter.index_of(end);
            assert(s[k] == end);
            assert(!lt(last, end));
            assert(lt(end, last));
            assert forall|i: int, j: int|
                #![trigger all[i], all[j]]
                0 <= i < j < all.len() implies lt(all[i], all[j]) by {
                assert(all[i] == front[i]);
                if j < front.len() {
                    assert(all[j] == front[j]);
                } else if i < front.len() - 1 {
                    assert(lt(front[i], front[front.len() - 1]));
                    if !lt(front[i], last) {
                        assert(!lt(last, end));
                        assert(!lt(front[i], end));
                    }
                }
            }
        }
    }
}

/// A list of which all items satisfy `p` stays as it is.
pub proof fn lemma_filter_all<T>(s: Seq<T>, p: spec_fn(T) -> bool)
    requires
        forall|i: int| 0 <= i < s.len() ==> p(#[trigger] s[i]),
    ensures
        s.filter(p) == s,
    decreases s.len(),
{
    reveal(Seq::filter);
    if s.len() > 0 {
        let front = s.drop_last();
        assert forall|i: int| 0 <= i < front.len() implies p(#[trigger] front[i]) by {
            assert(front[i] == s[i]);
        }
        lemma_filter_all(front, p);
        assert(p(s[s.len() - 1]));
        assert(front.push(s.last()) =~= s);
    } else {
        assert(s.filter(p) =~= s);
    }
}

} // verus!
