//! Sequence functions that the checks are specified with, and facts about them.

use vstd::prelude::*;

verus! {

/// The sequences `f(list[0])`, `f(list[1])`, ... one after the other.
pub open spec fn concat_map<A, B>(list: Seq<A>, f: spec_fn(A) -> Seq<B>) -> Seq<B>
    decreases list.len(),
{
    if list.len() == 0 {
        Seq::empty()
    } else {
        concat_map(list.drop_last(), f) + f(list.last())
    }
}

/// The first result that `f` gives on the elements of `list`.
pub open spec fn first_some<A, B>(list: Seq<A>, f: spec_fn(A) -> Option<B>) -> Option<B>
    decreases list.len(),
{
    if list.len() == 0 {
        None
    } else {
        match first_some(list.drop_last(), f) {
            Some(b) => Some(b),
            None => f(list.last()),
        }
    }
}

/// Whether `f` gives nothing on the elements before position `i`.
pub open spec fn none_before<A, B>(list: Seq<A>, f: spec_fn(A) -> Option<B>, i: int) -> bool {
    forall|j: int| 0 <= j < i ==> #[trigger] f(list[j]) is None
}

/// The numbers below `n`, in order.
pub open spec fn indices(n: nat) -> Seq<usize> {
    Seq::new(n, |i: int| i as usize)
}

/// One more element of a list adds its own sequence at the end.
pub proof fn lemma_concat_map_step<A, B>(list: Seq<A>, f: spec_fn(A) -> Seq<B>, i: int)
    requires
        0 <= i < list.len(),
    ensures
        concat_map(list.take(i + 1), f) == concat_map(list.take(i), f) + f(list[i]),
{
    assert(list.take(i + 1).drop_last() =~= list.take(i));
}

/// The sum of the lengths of `f(list[0])`, `f(list[1])`, ...
pub open spec fn total_length<A, B>(list: Seq<A>, f: spec_fn(A) -> Seq<B>) -> nat
    decreases list.len(),
{
    if list.len() == 0 {
        0
    } else {
        f(list[0]).len() + total_length(list.drop_first(), f)
    }
}

/// The parts of a concatenation stand one after the other, and nothing stands between them.
pub proof fn lemma_total_length<A, B>(list: Seq<A>, f: spec_fn(A) -> Seq<B>)
    ensures
        concat_map(list, f).len() == total_length(list, f),
    decreases list.len(),
{
    if list.len() > 0 {
        lemma_total_length(list.drop_first(), f);
        lemma_concat_map_first(list, f);
    }
}

/// The concatenation begins with the first part.
pub proof fn lemma_concat_map_first<A, B>(list: Seq<A>, f: spec_fn(A) -> Seq<B>)
    requires
        list.len() > 0,
    ensures
        concat_map(list, f) == f(list[0]) + concat_map(list.drop_first(), f),
    decreases list.len(),
{
    if list.len() == 1 {
        reveal_with_fuel(concat_map, 2);
        assert(concat_map(list, f) =~= f(list[0]) + concat_map(list.drop_first(), f));
    } else {
        lemma_concat_map_first(list.drop_last(), f);
        assert(list.drop_last().drop_first() =~= list.drop_first().drop_last());
        assert(concat_map(list, f) =~= f(list[0]) + concat_map(list.drop_first(), f));
    }
}

/// What the first numbers give stands first.
pub proof fn lemma_prefix<B>(len: nat, f: spec_fn(usize) -> Seq<B>, k: nat)
    requires
        k <= len,
    ensures
        concat_map(indices(k), f) == concat_map(indices(len), f).take(
            concat_map(indices(k), f).len() as int,
        ),
        concat_map(indices(k), f).len() <= concat_map(indices(len), f).len(),
    decreases len - k,
{
    if k < len {
        lemma_prefix(len, f, k + 1);
        assert(indices(k + 1).drop_last() =~= indices(k));
        assert(concat_map(indices(k), f) =~= concat_map(indices(len), f).take(
            concat_map(indices(k), f).len() as int,
        ));
    } else {
        assert(concat_map(indices(len), f) =~= concat_map(indices(len), f).take(
            concat_map(indices(len), f).len() as int,
        ));
    }
}

/// An element of the concatenation comes from one of the parts, and every part is in it.
pub proof fn lemma_concat_map_contains<A, B>(list: Seq<A>, f: spec_fn(A) -> Seq<B>, b: B)
    ensures
        concat_map(list, f).contains(b) <==> exists|i: int|
            0 <= i < list.len() && #[trigger] f(list[i]).contains(b),
    decreases list.len(),
{
    let whole = concat_map(list, f);
    if list.len() > 0 {
        let front = list.drop_last();
        let head = concat_map(front, f);
        let tail = f(list.last());
        lemma_concat_map_contains(front, f, b);
        if whole.contains(b) {
            let k = choose|k: int| 0 <= k < whole.len() && whole[k] == b;
            if k < head.len() {
                assert(head[k] == b);
                let i = choose|i: int| 0 <= i < front.len() && #[trigger] f(front[i]).contains(b);
                assert(f(list[i]).contains(b));
            } else {
                assert(tail[k - head.len()] == b);
                assert(f(list[list.len() - 1]).contains(b));
            }
        }
        if exists|i: int| 0 <= i < list.len() && #[trigger] f(list[i]).contains(b) {
            let i = choose|i: int| 0 <= i < list.len() && #[trigger] f(list[i]).contains(b);
            if i < front.len() {
                assert(f(front[i]).contains(b));
                let k = choose|k: int| 0 <= k < head.len() && head[k] == b;
                assert(whole[k] == b);
            } else {
                let k = choose|k: int| 0 <= k < tail.len() && tail[k] == b;
                assert(whole[head.len() + k] == b);
            }
        }
    }
}

/// The concatenation is empty exactly when every part is.
pub proof fn lemma_concat_map_empty<A, B>(list: Seq<A>, f: spec_fn(A) -> Seq<B>)
    ensures
        concat_map(list, f).len() == 0 <==> (forall|i: int|
            0 <= i < list.len() ==> #[trigger] f(list[i]).len() == 0),
    decreases list.len(),
{
    if list.len() > 0 {
        let front = list.drop_last();
        lemma_concat_map_empty(front, f);
        if forall|i: int| 0 <= i < front.len() ==> #[trigger] f(front[i]).len() == 0 {
            if f(list.last()).len() == 0 {
                assert forall|i: int| 0 <= i < list.len() implies #[trigger] f(list[i]).len()
                    == 0 by {
                    if i < front.len() {
                        assert(f(front[i]).len() == 0);
                    }
                }
            } else {
                assert(f(list[list.len() - 1]).len() != 0);
            }
        } else {
            let i = choose|i: int| 0 <= i < front.len() && #[trigger] f(front[i]).len() != 0;
            assert(f(list[i]).len() != 0);
        }
    }
}

/// While nothing was found among the first `i` elements, the next one decides.
pub proof fn lemma_first_some_step<A, B>(list: Seq<A>, f: spec_fn(A) -> Option<B>, i: int)
    requires
        0 <= i < list.len(),
    ensures
        first_some(list.take(i + 1), f) == (match first_some(list.take(i), f) {
            Some(b) => Some(b),
            None => f(list[i]),
        }),
{
    assert(list.take(i + 1).drop_last() =~= list.take(i));
}

/// What was found in a prefix is what is found in the whole list.
pub proof fn lemma_first_some_prefix<A, B>(list: Seq<A>, f: spec_fn(A) -> Option<B>, i: int)
    requires
        0 <= i <= list.len(),
        first_some(list.take(i), f) is Some,
    ensures
        first_some(list, f) == first_some(list.take(i), f),
    decreases list.len() - i,
{
    if i < list.len() {
        lemma_first_some_step(list, f, i);
        lemma_first_some_prefix(list, f, i + 1);
    } else {
        assert(list.take(i) =~= list);
    }
}

/// A result is found exactly when some element gives one; it is that of the first such element.
pub proof fn lemma_first_some_exists<A, B>(list: Seq<A>, f: spec_fn(A) -> Option<B>)
    ensures
        first_some(list, f) is Some <==> exists|i: int|
            0 <= i < list.len() && #[trigger] f(list[i]) is Some,
        first_some(list, f) is Some ==> exists|i: int|
            0 <= i < list.len() && #[trigger] f(list[i]) == first_some(list, f) && none_before(
                list,
                f,
                i,
            ),
    decreases list.len(),
{
    if list.len() > 0 {
        let front = list.drop_last();
        lemma_first_some_exists(front, f);
        if first_some(front, f) is Some {
            let i = choose|i: int|
                0 <= i < front.len() && #[trigger] f(front[i]) == first_some(front, f)
                    && none_before(front, f, i);
            assert forall|j: int| 0 <= j < i implies #[trigger] f(list[j]) is None by {
                assert(f(front[j]) is None);
            }
            assert(none_before(list, f, i));
            assert(f(list[i]) == first_some(list, f));
        } else {
            assert forall|i: int| 0 <= i < front.len() implies #[trigger] f(list[i]) is None by {
                assert(f(front[i]) is None);
            }
            if f(list.last()) is Some {
                assert(none_before(list, f, list.len() - 1));
                assert(f(list[list.len() - 1]) == first_some(list, f));
            }
        }
    }
}

} // verus!
