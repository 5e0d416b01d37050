//! Document order: which nodes lie below a node, and in which order.

use vstd::prelude::*;

use crate::sequences::indices;
use crate::workspace::Node;

verus! {

/// Whether node `m` is node `n` or lies below it.
pub open spec fn within(nodes: Seq<Node>, m: int, n: int) -> bool
    decreases m,
{
    m == n || (0 <= m < nodes.len() && (nodes[m].parent matches Some(p) && p < m && within(
        nodes,
        p as int,
        n,
    )))
}

/// Whether the parent of node `i` is placed as document order asks: the first node is the root,
/// and every other node continues the node before it or one of the nodes around that one.
pub open spec fn parent_ok(nodes: Seq<Node>, i: int) -> bool {
    if i == 0 {
        nodes[i].parent is None
    } else {
        nodes[i].parent matches Some(p) && p < i && within(nodes, i - 1, p as int)
    }
}

/// Node `n` and the nodes below it, in document order.
pub open spec fn subtree(nodes: Seq<Node>, n: usize) -> Seq<usize> {
    indices(nodes.len()).filter(|m: usize| within(nodes, m as int, n as int))
}

/// The nodes form one tree in document order.
pub open spec fn parents_ok(nodes: Seq<Node>) -> bool {
    forall|i: int| 0 <= i < nodes.len() ==> #[trigger] parent_ok(nodes, i)
}

/// A node lies within another only if it does not stand before it.
pub proof fn lemma_within_order(nodes: Seq<Node>, m: int, n: int)
    requires
        within(nodes, m, n),
    ensures
        n <= m,
    decreases m,
{
    if m != n {
        let p = nodes[m].parent->0 as int;
        lemma_within_order(nodes, p, n);
    }
}

/// Lying within is transitive.
pub proof fn lemma_within_transitive(nodes: Seq<Node>, a: int, b: int, c: int)
    requires
        within(nodes, a, b),
        within(nodes, b, c),
    ensures
        within(nodes, a, c),
    decreases a,
{
    if a != b {
        lemma_within_transitive(nodes, nodes[a].parent->0 as int, b, c);
    }
}

/// Once document order has left the part of the tree below `n`, it does not come back to it.
pub proof fn lemma_within_contiguous(nodes: Seq<Node>, n: int, end: int, m: int)
    requires
        parents_ok(nodes),
        0 <= n < end <= m < nodes.len(),
        nodes[end].parent matches Some(p) && p < n,
    ensures
        !within(nodes, m, n),
    decreases m,
{
    assert(parent_ok(nodes, m));
    if within(nodes, m, n) {
        let p = nodes[m].parent->0 as int;
        lemma_within_order(nodes, p, n);
        if m > end {
            lemma_within_transitive(nodes, m - 1, p, n);
            lemma_within_contiguous(nodes, n, end, m - 1);
        }
    }
}

/// The part of the tree below `n` is the run of nodes from `n` up to the first later node whose
/// parent stands before `n`.
pub proof fn lemma_subtree(nodes: Seq<Node>, n: int, end: int)
    requires
        parents_ok(nodes),
        0 <= n < end <= nodes.len(),
        forall|m: int|
            n < m < end ==> (#[trigger] nodes[m].parent matches Some(p) && n <= p),
        end < nodes.len() ==> (nodes[end].parent matches Some(p) && p < n),
    ensures
        forall|m: int|
            0 <= m < nodes.len() ==> (#[trigger] within(nodes, m, n) <==> n <= m < end),
{
    assert forall|m: int| 0 <= m < nodes.len() implies (#[trigger] within(nodes, m, n) <==> n <= m
        < end) by {
        if m < n {
            if within(nodes, m, n) {
                lemma_within_order(nodes, m, n);
            }
        } else if m < end {
            lemma_subtree_inner(nodes, n, end, m);
        } else {
            lemma_within_contiguous(nodes, n, end, m);
        }
    }
}

proof fn lemma_subtree_inner(nodes: Seq<Node>, n: int, end: int, m: int)
    requires
        parents_ok(nodes),
        0 <= n <= m < end <= nodes.len(),
        forall|k: int|
            n < k < end ==> (#[trigger] nodes[k].parent matches Some(p) && n <= p),
    ensures
        within(nodes, m, n),
    decreases m,
{
    if m > n {
        assert(parent_ok(nodes, m));
        lemma_subtree_inner(nodes, n, end, nodes[m].parent->0 as int);
    }
}

/// Selecting a run of numbers from the numbers below `k`.
proof fn lemma_filter_run(k: nat, n: int, end: int, len: nat, keep: spec_fn(usize) -> bool)
    requires
        k <= len <= usize::MAX,
        0 <= n <= end <= len,
        forall|m: usize| m < len ==> (#[trigger] keep(m) <==> n <= m < end),
    ensures
        k <= n ==> indices(k).filter(keep) == Seq::<usize>::empty(),
        n <= k <= end ==> indices(k).filter(keep) == Seq::new(
            (k - n) as nat,
            |i: int| (n + i) as usize,
        ),
        end <= k ==> indices(k).filter(keep) == Seq::new(
            (end - n) as nat,
            |i: int| (n + i) as usize,
        ),
    decreases k,
{
    reveal(Seq::filter);
    if k > 0 {
        let j = (k - 1) as nat;
        lemma_filter_run(j, n, end, len, keep);
        assert(indices(k).drop_last() =~= indices(j));
        assert(indices(k).last() == j as usize);
        assert(keep(j as usize) <==> n <= j < end);
    }
}

/// The nodes of a part of a tree are nodes of the tree that lie in that part.
pub proof fn lemma_subtree_bounds(nodes: Seq<Node>, n: usize)
    requires
        nodes.len() <= usize::MAX,
    ensures
        forall|k: int|
            0 <= k < subtree(nodes, n).len() ==> (#[trigger] subtree(nodes, n)[k]) < nodes.len()
                && within(nodes, subtree(nodes, n)[k] as int, n as int),
        forall|m: usize|
            m < nodes.len() && within(nodes, m as int, n as int) ==> #[trigger] subtree(
                nodes,
                n,
            ).contains(m),
{
    let keep = |m: usize| within(nodes, m as int, n as int);
    let all = indices(nodes.len());
    assert forall|k: int| 0 <= k < subtree(nodes, n).len() implies (#[trigger] subtree(
        nodes,
        n,
    )[k]) < nodes.len() && within(nodes, subtree(nodes, n)[k] as int, n as int) by {
        all.lemma_filter_pred(keep, k);
        let m = subtree(nodes, n)[k];
        assert(all.filter(keep).contains(m));
        all.lemma_filter_contains_rev(keep, m);
    }
    assert forall|m: usize|
        m < nodes.len() && within(nodes, m as int, n as int) implies #[trigger] subtree(
        nodes,
        n,
    ).contains(m) by {
        assert(all[m as int] == m);
        all.lemma_filter_contains(keep, m as int);
    }
}

/// The nodes of a part of a tree are listed in document order.
pub proof fn lemma_subtree_sorted(nodes: Seq<Node>, n: usize)
    requires
        nodes.len() <= usize::MAX,
    ensures
        forall|i: int, j: int|
            0 <= i < j < subtree(nodes, n).len() ==> #[trigger] subtree(nodes, n)[i]
                < #[trigger] subtree(nodes, n)[j],
{
    lemma_filter_sorted(nodes.len(), |m: usize| within(nodes, m as int, n as int));
}

proof fn lemma_filter_sorted(k: nat, keep: spec_fn(usize) -> bool)
    requires
        k <= usize::MAX,
    ensures
        forall|i: int|
            0 <= i < indices(k).filter(keep).len() ==> #[trigger] indices(k).filter(keep)[i] < k,
        forall|i: int, j: int|
            0 <= i < j < indices(k).filter(keep).len() ==> #[trigger] indices(k).filter(keep)[i]
                < #[trigger] indices(k).filter(keep)[j],
    decreases k,
{
    reveal(Seq::filter);
    if k > 0 {
        let j = (k - 1) as nat;
        lemma_filter_sorted(j, keep);
        assert(indices(k).drop_last() =~= indices(j));
        assert(indices(k).last() == j);
        let front = indices(j).filter(keep);
        let all = indices(k).filter(keep);
        assert(all == if keep(j as usize) {
            front.push(j as usize)
        } else {
            front
        });
        assert forall|i: int| 0 <= i < all.len() implies #[trigger] all[i] < k by {
            if i < front.len() {
                assert(front[i] == all[i]);
            }
        }
        assert forall|a: int, b: int| 0 <= a < b < all.len() implies #[trigger] all[a]
            < #[trigger] all[b] by {
            assert(front[a] == all[a]);
            if b < front.len() {
                assert(front[b] == all[b]);
            }
        }
    }
}

/// Whether node `m` is node `n` or lies below it.
pub fn is_within(nodes: &Vec<Node>, m: usize, n: usize) -> (inside: bool)
    requires
        m < nodes@.len(),
        forall|i: int| 0 <= i <= m ==> #[trigger] parent_ok(nodes@, i),
    ensures
        inside == within(nodes@, m as int, n as int),
{
    let mut current: usize = m;
    while current != n
        invariant
            current <= m,
            m < nodes@.len(),
            forall|i: int| 0 <= i <= m ==> #[trigger] parent_ok(nodes@, i),
            within(nodes@, m as int, n as int) == within(nodes@, current as int, n as int),
        decreases current,
    {
        assert(parent_ok(nodes@, current as int));
        match nodes[current].parent {
            Some(p) => {
                current = p;
            },
            None => {
                return false;
            },
        }
    }
    true
}

/// Lists node `n` and the nodes below it, in document order.
pub fn descendants(nodes: &Vec<Node>, n: usize) -> (list: Vec<usize>)
    requires
        n < nodes@.len(),
        parents_ok(nodes@),
    ensures
        list@ == subtree(nodes@, n),
        forall|k: int| 0 <= k < list@.len() ==> #[trigger] list@[k] < nodes@.len(),
{
    let len: usize = nodes.len();
    let mut list: Vec<usize> = Vec::new();
    list.push(n);
    let mut m: usize = n + 1;
    while m < len
        invariant_except_break
            len == nodes@.len(),
            n < m <= nodes@.len(),
            n < nodes@.len(),
            parents_ok(nodes@),
            list@ == Seq::new((m - n) as nat, |i: int| (n + i) as usize),
            forall|k: int|
                n < k < m ==> (#[trigger] nodes@[k].parent matches Some(p) && n <= p),
        ensures
            n < m <= nodes@.len(),
            list@ == Seq::new((m - n) as nat, |i: int| (n + i) as usize),
            forall|k: int|
                n < k < m ==> (#[trigger] nodes@[k].parent matches Some(p) && n <= p),
            m < nodes@.len() ==> (nodes@[m as int].parent matches Some(p) && p < n),
        decreases len - m,
    {
        assert(parent_ok(nodes@, m as int));
        let below: bool = match nodes[m].parent {
            Some(p) => n <= p,
            None => false,
        };
        if !below {
            break;
        }
        list.push(m);
        m += 1;
    }
    proof {
        lemma_subtree(nodes@, n as int, m as int);
        let keep = |k: usize| within(nodes@, k as int, n as int);
        lemma_filter_run(nodes@.len(), n as int, m as int, nodes@.len(), keep);
    }
    list
}

} // verus!
