//! Stable sorting by a strict order on keys.

use vstd::prelude::*;

verus! {

broadcast use vstd::seq_lib::group_seq_properties;

/// Values that can be put in order: `precedes` is a strict order, and
/// values that neither precede the other keep their relative order.
pub trait SortKey: Sized {
    /// Whether `self` goes strictly before `other`.
    spec fn precedes(self, other: Self) -> bool;

    proof fn precedes_irreflexive(a: Self)
        ensures
            !a.precedes(a),
    ;

    proof fn precedes_transitive(a: Self, b: Self, c: Self)
        requires
            a.precedes(b),
            b.precedes(c),
        ensures
            a.precedes(c),
    ;

    /// Whether `self` goes strictly before `other`.
    fn goes_before(&self, other: &Self) -> (r: bool)
        ensures
            r == self.precedes(*other),
    ;
}

/// The position at which `x` joins the sorted sequence `s`: after every
/// element that it does not go before, so that equal keys keep their order.
pub open spec fn insert_position<A>(s: Seq<A>, x: A, before: spec_fn(A, A) -> bool) -> int
    decreases s.len(),
{
    if s.len() == 0 {
        0
    } else if before(x, s[0]) {
        0
    } else {
        1 + insert_position(s.drop_first(), x, before)
    }
}

/// The stable insertion sort of `s` by the strict order `before`.
pub open spec fn sorted_by<A>(s: Seq<A>, before: spec_fn(A, A) -> bool) -> Seq<A>
    decreases s.len(),
{
    if s.len() == 0 {
        s
    } else {
        let prev = sorted_by(s.drop_last(), before);
        prev.insert(insert_position(prev, s.last(), before), s.last())
    }
}

/// The strict order of a [`SortKey`] type.
pub open spec fn key_order<T: SortKey>() -> spec_fn(T, T) -> bool {
    |a: T, b: T| a.precedes(b)
}

/// `before` is irreflexive and transitive.
pub open spec fn is_strict_order<A>(before: spec_fn(A, A) -> bool) -> bool {
    &&& forall|a: A| !(#[trigger] before(a, a))
    &&& forall|a: A, b: A, c: A| #[trigger] before(a, b) && #[trigger] before(b, c) ==> before(a, c)
}

/// No element of `s` goes before an element ahead of it.
pub open spec fn is_sorted_by<A>(s: Seq<A>, before: spec_fn(A, A) -> bool) -> bool {
    forall|i: int, j: int| 0 <= i < j < s.len() ==> !before(#[trigger] s[j], #[trigger] s[i])
}

proof fn lemma_insert_position<A>(s: Seq<A>, x: A, before: spec_fn(A, A) -> bool)
    ensures
        0 <= insert_position(s, x, before) <= s.len(),
        forall|i: int| 0 <= i < insert_position(s, x, before) ==> !before(x, #[trigger] s[i]),
        insert_position(s, x, before) < s.len() ==> before(x, s[insert_position(s, x, before)]),
    decreases s.len(),
{
    if s.len() > 0 && !before(x, s[0]) {
        lemma_insert_position(s.drop_first(), x, before);
        assert forall|i: int| 0 <= i < insert_position(s, x, before) implies !before(
            x,
            #[trigger] s[i],
        ) by {
            if i > 0 {
                assert(s[i] == s.drop_first()[i - 1]);
            }
        }
    }
}

/// The stable sort holds the same elements, each as often.
pub proof fn lemma_sorted_by_permutes<A>(s: Seq<A>, before: spec_fn(A, A) -> bool)
    ensures
        sorted_by(s, before).to_multiset() == s.to_multiset(),
        sorted_by(s, before).len() == s.len(),
    decreases s.len(),
{
    if s.len() > 0 {
        let prev = sorted_by(s.drop_last(), before);
        lemma_sorted_by_permutes(s.drop_last(), before);
        lemma_insert_position(prev, s.last(), before);
        let k = insert_position(prev, s.last(), before);
        let ins = prev.insert(k, s.last());
        assert(ins.remove(k) =~= prev);
        ins.to_multiset_ensures();
        assert(ins.to_multiset().remove(s.last()) =~= prev.to_multiset());
        assert(ins.contains(s.last())) by {
            assert(ins[k] == s.last());
        }
        assert(ins.to_multiset() =~= prev.to_multiset().insert(s.last()));
        s.drop_last().to_multiset_ensures();
        assert(s.drop_last().push(s.last()) =~= s);
    }
}

/// The stable sort by a strict order is sorted.
pub proof fn lemma_sorted_by_sorted<A>(s: Seq<A>, before: spec_fn(A, A) -> bool)
    requires
        is_strict_order(before),
    ensures
        is_sorted_by(sorted_by(s, before), before),
    decreases s.len(),
{
    if s.len() > 0 {
        let prev = sorted_by(s.drop_last(), before);
        let x = s.last();
        lemma_sorted_by_sorted(s.drop_last(), before);
        lemma_insert_position(prev, x, before);
        let k = insert_position(prev, x, before);
        let ins = prev.insert(k, x);
        assert forall|i: int, j: int| 0 <= i < j < ins.len() implies !before(
            #[trigger] ins[j],
            #[trigger] ins[i],
        ) by {
            if j < k {
                assert(ins[i] == prev[i] && ins[j] == prev[j]);
            } else if j == k {
                assert(ins[i] == prev[i]);
            } else if i == k {
                assert(ins[j] == prev[j - 1]);
                if before(x, prev[k]) && before(prev[j - 1], x) {
                    assert(before(prev[j - 1], prev[k]));
                }
            } else if i < k {
                assert(ins[i] == prev[i] && ins[j] == prev[j - 1]);
            } else {
                assert(ins[i] == prev[i - 1] && ins[j] == prev[j - 1]);
            }
        }
    }
}

proof fn lemma_insert_position_map<A, B>(
    s: Seq<A>,
    x: A,
    ba: spec_fn(A, A) -> bool,
    bb: spec_fn(B, B) -> bool,
    m: spec_fn(A) -> B,
)
    requires
        forall|p: A, q: A| #[trigger] ba(p, q) == bb(m(p), m(q)),
    ensures
        insert_position(s, x, ba) == insert_position(s.map_values(m), m(x), bb),
    decreases s.len(),
{
    if s.len() > 0 {
        assert(s.map_values(m)[0] == m(s[0]));
        assert(s.map_values(m).drop_first() =~= s.drop_first().map_values(m));
        lemma_insert_position_map(s.drop_first(), x, ba, bb, m);
    }
}

/// Sorting commutes with a map that carries the order along: sorting the
/// images by the image order gives the images of the sorted sequence.
pub proof fn lemma_sorted_by_map<A, B>(
    s: Seq<A>,
    ba: spec_fn(A, A) -> bool,
    bb: spec_fn(B, B) -> bool,
    m: spec_fn(A) -> B,
)
    requires
        forall|p: A, q: A| #[trigger] ba(p, q) == bb(m(p), m(q)),
    ensures
        sorted_by(s, ba).map_values(m) == sorted_by(s.map_values(m), bb),
    decreases s.len(),
{
    if s.len() > 0 {
        let prev = sorted_by(s.drop_last(), ba);
        lemma_sorted_by_map(s.drop_last(), ba, bb, m);
        lemma_sorted_by_permutes(s.drop_last(), ba);
        lemma_insert_position(prev, s.last(), ba);
        lemma_insert_position_map(prev, s.last(), ba, bb, m);
        assert(s.map_values(m).drop_last() =~= s.drop_last().map_values(m));
        assert(s.map_values(m).last() == m(s.last()));
        let k = insert_position(prev, s.last(), ba);
        assert(prev.insert(k, s.last()).map_values(m) =~= prev.map_values(m).insert(
            k,
            m(s.last()),
        ));
    }
}

/// Sorts `v` stably by the order of its element type.
pub fn stable_sort<T: SortKey>(v: Vec<T>) -> (r: Vec<T>)
    ensures
        r@ == sorted_by(v@, key_order::<T>()),
{
    let ghost input = v@;
    let ghost before = key_order::<T>();
    assert(input.len() == v.len());
    let mut rest = v;
    let mut out: Vec<T> = Vec::new();
    let mut i: usize = 0;
    assert(input.skip(0) =~= input);
    while rest.len() > 0
        invariant
            i <= input.len() <= usize::MAX,
            before == key_order::<T>(),
            rest@ == input.skip(i as int),
            out@ == sorted_by(input.take(i as int), before),
        decreases rest.len(),
    {
        let x = rest.remove(0);
        assert(input.take(i + 1).drop_last() =~= input.take(i as int));
        assert(input.take(i + 1).last() == x);
        let mut k: usize = 0;
        while k < out.len() && !x.goes_before(&out[k])
            invariant
                k <= out.len(),
                before == key_order::<T>(),
                insert_position(out@, x, before) == k + insert_position(
                    out@.skip(k as int),
                    x,
                    before,
                ),
            decreases out.len() - k,
        {
            assert(out@.skip(k as int).drop_first() =~= out@.skip(k + 1));
            assert(out@.skip(k as int)[0] == out@[k as int]);
            k = k + 1;
        }
        proof {
            if k < out.len() {
                assert(out@.skip(k as int)[0] == out@[k as int]);
            }
        }
        out.insert(k, x);
        i = i + 1;
        assert(rest@ =~= input.skip(i as int));
    }
    assert(input.take(input.len() as int) =~= input);
    out
}

} // verus!
