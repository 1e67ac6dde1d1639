use vstd::prelude::*;

verus! {

use crate::extended_tree::ExtendedTree;
use crate::structure::lemma_ancestor_interval;
use crate::structure::lemma_interval_ancestor;
use crate::structure::lemma_parent_in_subtree;

impl ExtendedTree {
    /// The preorder listing of the subtree rooted at `s`: exactly the node
    /// indices of the interval `[s, subtree_end_of(s))`, in index order.
    /// A fresh cursor started at `s` yields exactly these nodes in this
    /// order (see `ExtendedTreeCursor::next` and `collect_nodes`).
    pub open spec fn preorder_of(self, s: int) -> Seq<int> {
        Seq::new((self.subtree_end_of(s) - s) as nat, |k: int| s + k)
    }
}

/// Preorder law: within one walk, an ancestor always appears strictly
/// before each of its descendants.
pub proof fn lemma_preorder_ancestor_first(t: ExtendedTree, s: int, a: int, b: int)
    requires
        t.wf(),
        0 <= s < t.node_count(),
        t.in_subtree(s, a),
        t.in_subtree(s, b),
        t.is_ancestor(a, b),
    ensures
        0 <= a - s < b - s < t.preorder_of(s).len(),
        t.preorder_of(s)[a - s] == a,
        t.preorder_of(s)[b - s] == b,
{
    assert(t.node_ok(s));
    if a != s {
        lemma_ancestor_interval(t, s, a);
    }
    if b != s {
        lemma_ancestor_interval(t, s, b);
    }
    lemma_ancestor_interval(t, a, b);
}

/// Coverage law: the walk from `s` lists every node of `s`'s subtree --
/// `s` itself and each of its descendants -- exactly once, and nothing
/// else.
pub proof fn lemma_preorder_coverage(t: ExtendedTree, s: int)
    requires
        t.wf(),
        0 <= s < t.node_count(),
    ensures
        forall|j: int| #[trigger] t.preorder_of(s).contains(j) <==> t.in_subtree(s, j),
        forall|k1: int, k2: int|
            0 <= k1 < k2 < t.preorder_of(s).len() ==> t.preorder_of(s)[k1] != t.preorder_of(
                s,
            )[k2],
{
    assert(t.node_ok(s));
    assert forall|j: int| #[trigger] t.preorder_of(s).contains(j) implies t.in_subtree(s, j) by {
        let k = choose|k: int| 0 <= k < t.preorder_of(s).len() && t.preorder_of(s)[k] == j;
        if j != s {
            lemma_interval_ancestor(t, s, j);
        }
    }
    assert forall|j: int| t.in_subtree(s, j) implies #[trigger] t.preorder_of(s).contains(j) by {
        if j == s {
            assert(t.preorder_of(s)[0] == j);
        } else {
            lemma_ancestor_interval(t, s, j);
            assert(t.preorder_of(s)[j - s] == j);
        }
    }
}

/// Subtree-scoping law: the walk from `s` never lists `s`'s parent, any
/// other ancestor of `s`, or a sibling of `s`.
pub proof fn lemma_subtree_scoping(t: ExtendedTree, s: int, j: int)
    requires
        t.wf(),
        0 <= s < t.node_count(),
        0 <= j < t.node_count(),
        j == t.parent_of(s) || t.is_ancestor(j, s) || (j != s && t.parent_of(j) == t.parent_of(
            s,
        )),
    ensures
        !t.preorder_of(s).contains(j),
{
    assert(t.node_ok(s));
    assert(t.node_ok(j));
    if t.preorder_of(s).contains(j) {
        let k = choose|k: int| 0 <= k < t.preorder_of(s).len() && t.preorder_of(s)[k] == j;
        assert(s <= j < t.subtree_end_of(s));
        if j == t.parent_of(s) {
            // The parent sits strictly before s in preorder.
            assert(false);
        } else if t.is_ancestor(j, s) {
            lemma_ancestor_interval(t, j, s);
            assert(false);
        } else {
            // A sibling with the same parent cannot lie inside s's
            // interval: everything strictly inside has its parent at or
            // after s.
            assert(j > s);
            lemma_parent_in_subtree(t, s, j);
            assert(false);
        }
    }
}

} // verus!
