//! Stable sorting by an integer key, stated once for every kind of entry.

use vstd::prelude::*;

verus! {

/// Whether an entry with key `a` must stand before one with key `b`.
pub open spec fn goes_before(a: int, b: int, descending: bool) -> bool {
    if descending {
        a > b
    } else {
        a < b
    }
}

/// `sorted` with `e` put in behind every entry that does not have to stand
/// behind it.
pub open spec fn insert_stable<T>(sorted: Seq<T>, e: T, key: spec_fn(T) -> int, descending: bool) -> Seq<T>
    decreases sorted.len(),
{
    if sorted.len() == 0 {
        seq![e]
    } else if goes_before(key(e), key(sorted.last()), descending) {
        insert_stable(sorted.drop_last(), e, key, descending).push(sorted.last())
    } else {
        sorted.push(e)
    }
}

/// The entries of `input` in the order of their keys, entries of equal key in
/// the order they came in.
pub open spec fn stable_sort<T>(input: Seq<T>, key: spec_fn(T) -> int, descending: bool) -> Seq<T>
    decreases input.len(),
{
    if input.len() == 0 {
        Seq::empty()
    } else {
        insert_stable(stable_sort(input.drop_last(), key, descending), input.last(), key, descending)
    }
}

/// No entry stands before one that has to stand before it.
pub open spec fn is_ordered<T>(s: Seq<T>, key: spec_fn(T) -> int, descending: bool) -> bool {
    forall|i: int, j: int|
        0 <= i < j < s.len() ==> !goes_before(
            key(#[trigger] s[j]),
            key(#[trigger] s[i]),
            descending,
        )
}

/// Putting `e` into `sorted` puts it at `at`, where every entry from `at` on
/// has to stand behind `e` and the entry before `at` does not.
pub proof fn lemma_insert_stable_at<T>(
    sorted: Seq<T>,
    e: T,
    key: spec_fn(T) -> int,
    descending: bool,
    at: int,
)
    requires
        0 <= at <= sorted.len(),
        forall|k: int|
            at <= k < sorted.len() ==> goes_before(
                key(e),
                key(#[trigger] sorted[k]),
                descending,
            ),
        at > 0 ==> !goes_before(key(e), key(sorted[at - 1]), descending),
    ensures
        insert_stable(sorted, e, key, descending) == sorted.take(at).push(e) + sorted.skip(at),
    decreases sorted.len() - at,
{
    if at == sorted.len() {
        assert(sorted.take(at) == sorted);
        assert(sorted.push(e) + sorted.skip(at) == sorted.push(e));
        if sorted.len() == 0 {
            assert(seq![e] == sorted.push(e));
        }
    } else {
        let front = sorted.drop_last();
        lemma_insert_stable_at(front, e, key, descending, at);
        assert(front.take(at) == sorted.take(at));
        assert((front.take(at).push(e) + front.skip(at)).push(sorted.last()) == sorted.take(at).push(
            e,
        ) + sorted.skip(at));
    }
}

/// Putting an entry into an ordered sequence leaves it ordered, one longer,
/// and holding what it held and the entry.
pub proof fn lemma_insert_stable_ordered<T>(
    sorted: Seq<T>,
    e: T,
    key: spec_fn(T) -> int,
    descending: bool,
)
    requires
        is_ordered(sorted, key, descending),
    ensures
        is_ordered(insert_stable(sorted, e, key, descending), key, descending),
        insert_stable(sorted, e, key, descending).len() == sorted.len() + 1,
        insert_stable(sorted, e, key, descending).to_multiset() == sorted.to_multiset().insert(e),
    decreases sorted.len(),
{
    broadcast use vstd::seq_lib::group_to_multiset_ensures;

    let out = insert_stable(sorted, e, key, descending);
    if sorted.len() == 0 {
        assert(out == Seq::<T>::empty().push(e));
        assert(sorted == Seq::<T>::empty());
    } else if goes_before(key(e), key(sorted.last()), descending) {
        let front = sorted.drop_last();
        let last = sorted.last();
        assert forall|i: int, j: int| 0 <= i < j < front.len() implies !goes_before(
            key(#[trigger] front[j]),
            key(#[trigger] front[i]),
            descending,
        ) by {
            assert(front[i] == sorted[i] && front[j] == sorted[j]);
        }
        lemma_insert_stable_ordered(front, e, key, descending);
        let inner = insert_stable(front, e, key, descending);
        assert(out == inner.push(last));
        assert forall|i: int, j: int| 0 <= i < j < out.len() implies !goes_before(
            key(#[trigger] out[j]),
            key(#[trigger] out[i]),
            descending,
        ) by {
            if j < inner.len() {
                assert(out[i] == inner[i] && out[j] == inner[j]);
            } else {
                assert(out[j] == last);
                assert(out[i] == inner[i]);
                assert(inner.to_multiset().count(inner[i]) > 0);
                if inner[i] != e {
                    assert(front.to_multiset().count(inner[i]) > 0);
                    let k = choose|k: int| 0 <= k < front.len() && front[k] == inner[i];
                    assert(sorted[k] == inner[i]);
                    assert(sorted[sorted.len() - 1] == last);
                }
            }
        }
        assert(sorted == front.push(last));
        assert(out.to_multiset() == inner.to_multiset().insert(last));
        assert(sorted.to_multiset() == front.to_multiset().insert(last));
        assert(out.to_multiset() =~= sorted.to_multiset().insert(e));
    } else {
        assert(out == sorted.push(e));
        assert forall|i: int, j: int| 0 <= i < j < out.len() implies !goes_before(
            key(#[trigger] out[j]),
            key(#[trigger] out[i]),
            descending,
        ) by {
            if j < sorted.len() {
                assert(out[i] == sorted[i] && out[j] == sorted[j]);
            } else {
                assert(out[i] == sorted[i]);
                assert(!goes_before(
                    key(sorted[sorted.len() - 1]),
                    key(sorted[i]),
                    descending,
                ) || i == sorted.len() - 1);
            }
        }
    }
}

/// What comes out of the sort is ordered and holds exactly what went in.
pub proof fn lemma_stable_sort_is_ordered_permutation<T>(
    input: Seq<T>,
    key: spec_fn(T) -> int,
    descending: bool,
)
    ensures
        is_ordered(stable_sort(input, key, descending), key, descending),
        stable_sort(input, key, descending).len() == input.len(),
        stable_sort(input, key, descending).to_multiset() == input.to_multiset(),
    decreases input.len(),
{
    broadcast use vstd::seq_lib::group_to_multiset_ensures;

    if input.len() == 0 {
        assert(input == Seq::<T>::empty());
    } else {
        let front = input.drop_last();
        lemma_stable_sort_is_ordered_permutation(front, key, descending);
        lemma_insert_stable_ordered(stable_sort(front, key, descending), input.last(), key, descending);
        assert(input == front.push(input.last()));
        assert(input.to_multiset() == front.to_multiset().insert(input.last()));
    }
}

/// Putting `e` into `sorted` puts it at some place and moves nothing else:
/// the place is returned.
pub proof fn lemma_insert_stable_place<T>(
    sorted: Seq<T>,
    e: T,
    key: spec_fn(T) -> int,
    descending: bool,
) -> (at: int)
    ensures
        0 <= at <= sorted.len(),
        insert_stable(sorted, e, key, descending) == sorted.take(at).push(e) + sorted.skip(at),
    decreases sorted.len(),
{
    if sorted.len() == 0 {
        assert(seq![e] == sorted.take(0).push(e) + sorted.skip(0));
        0
    } else if goes_before(key(e), key(sorted.last()), descending) {
        let front = sorted.drop_last();
        let at = lemma_insert_stable_place(front, e, key, descending);
        assert(front.take(at) == sorted.take(at));
        assert((front.take(at).push(e) + front.skip(at)).push(sorted.last()) == sorted.take(at).push(
            e,
        ) + sorted.skip(at));
        at
    } else {
        let at = sorted.len() as int;
        assert(sorted.take(at) == sorted);
        assert(sorted.push(e) + sorted.skip(at) == sorted.push(e));
        at
    }
}

} // verus!
