use vstd::prelude::*;

verus! {

use crate::extended_tree::ExtendedTree;

impl ExtendedTree {
    /// `a` is a strict ancestor of `b`: following parent links from `b`
    /// reaches `a`.
    pub open spec fn is_ancestor(self, a: int, b: int) -> bool
        decreases b,
    {
        if 0 < b < self.node_count() && 0 <= self.parent_of(b) < b {
            self.parent_of(b) == a || self.is_ancestor(a, self.parent_of(b))
        } else {
            false
        }
    }

    /// `j` lies in the subtree rooted at `s`: it is `s` itself or a
    /// descendant of `s`.
    pub open spec fn in_subtree(self, s: int, j: int) -> bool {
        j == s || self.is_ancestor(s, j)
    }
}

/// Every node strictly inside the subtree interval of `m` has its parent
/// inside that interval as well (at or after `m`, before the node itself).
pub proof fn lemma_parent_in_subtree(t: ExtendedTree, m: int, s: int)
    requires
        t.wf(),
        0 <= m < t.node_count(),
        m < s < t.subtree_end_of(m),
    ensures
        m <= t.parent_of(s) < s,
    decreases t.subtree_end_of(m) - m,
{
    assert(t.node_ok(m));
    assert(s < t.node_count());
    assert(t.node_ok(s));
    // m has a first child, namely m + 1.
    assert(t.parent_of(m + 1) == m);
    lemma_find_child(t, m, m + 1, s);
    let c = choose|c: int|
        0 < c < t.node_count() && t.parent_of(c) == m && c <= s < t.subtree_end_of(c);
    if c == s {
    } else {
        assert(t.node_ok(c));
        lemma_parent_in_subtree(t, c, s);
    }
}

/// Walking the sibling chain of `m`'s children from child `c` onward finds
/// the child whose subtree interval contains `s`.
proof fn lemma_find_child(t: ExtendedTree, m: int, c: int, s: int)
    requires
        t.wf(),
        0 <= m < t.node_count(),
        0 < c < t.node_count(),
        t.parent_of(c) == m,
        c <= s < t.subtree_end_of(m),
    ensures
        exists|c2: int|
            0 < c2 < t.node_count() && t.parent_of(c2) == m && c2 <= s < t.subtree_end_of(c2),
    decreases t.subtree_end_of(m) - c,
{
    assert(t.node_ok(c));
    assert(t.node_ok(m));
    if s < t.subtree_end_of(c) {
        assert(0 < c < t.node_count() && t.parent_of(c) == m && c <= s < t.subtree_end_of(c));
    } else {
        // s lies at or beyond the end of c's subtree, so c has a next
        // sibling, which starts exactly at that end.
        let c2 = t.subtree_end_of(c);
        assert(t.subtree_end_of(c) < t.subtree_end_of(m));
        assert(t.parent_of(c2) == m);
        lemma_find_child(t, m, c2, s);
    }
}

/// Subtree intervals nest: a node inside `i`'s interval has its whole
/// interval inside `i`'s.
pub proof fn lemma_nested(t: ExtendedTree, i: int, j: int)
    requires
        t.wf(),
        0 <= i < t.node_count(),
        i < j < t.subtree_end_of(i),
    ensures
        t.subtree_end_of(j) <= t.subtree_end_of(i),
    decreases j,
{
    assert(t.node_ok(i));
    assert(j < t.node_count());
    assert(t.node_ok(j));
    lemma_parent_in_subtree(t, i, j);
    let p = t.parent_of(j);
    if p == i {
    } else {
        lemma_nested(t, i, p);
    }
}

/// A strict descendant lies strictly inside its ancestor's subtree interval.
pub proof fn lemma_ancestor_interval(t: ExtendedTree, a: int, b: int)
    requires
        t.wf(),
        t.is_ancestor(a, b),
    ensures
        0 <= a < b < t.node_count(),
        b < t.subtree_end_of(a),
    decreases b,
{
    assert(t.node_ok(b));
    let p = t.parent_of(b);
    if p == a {
    } else {
        lemma_ancestor_interval(t, a, p);
        lemma_nested(t, a, p);
    }
}

/// A node strictly inside a subtree interval is a strict descendant of the
/// interval's root.
pub proof fn lemma_interval_ancestor(t: ExtendedTree, a: int, b: int)
    requires
        t.wf(),
        0 <= a < t.node_count(),
        a < b < t.subtree_end_of(a),
    ensures
        t.is_ancestor(a, b),
    decreases b,
{
    assert(t.node_ok(a));
    assert(b < t.node_count());
    assert(t.node_ok(b));
    lemma_parent_in_subtree(t, a, b);
    let p = t.parent_of(b);
    if p == a {
    } else {
        lemma_interval_ancestor(t, a, p);
    }
}

} // verus!
