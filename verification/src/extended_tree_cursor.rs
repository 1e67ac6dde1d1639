use vstd::prelude::*;

verus! {

use std::rc::Rc;
use crate::extended_node::ExtendedNode;
use crate::extended_tree::ExtendedTree;
use crate::structure::lemma_nested;
use crate::structure::lemma_parent_in_subtree;
use crate::with_source::WithSource;

/// A stateful preorder walker over one subtree of an `ExtendedTree`.
///
/// The cursor starts on the node `start` and yields, one `next` call at a
/// time, every node of the subtree `[start, subtree_end_of(start))` in
/// preorder — the node itself first, then its children left to right, each
/// followed by its own subtree.  The final node of the subtree is still
/// yielded; only the call after it reports exhaustion.  A cursor cannot be
/// rewound: restarting requires a fresh cursor.
pub struct ExtendedTreeCursor<'t> {
    pub tree: &'t ExtendedTree,
    pub start: usize,
    pub pos: usize,
    pub done: bool,
}

impl<'t> ExtendedTreeCursor<'t> {
    /// The cursor sits on a node of the subtree it was started on.
    pub open spec fn wf(self) -> bool {
        &&& self.tree.wf()
        &&& (self.start as int) < self.tree.node_count()
        &&& self.start <= self.pos
        &&& (self.pos as int) < self.tree.subtree_end_of(self.start as int)
    }

    /// A new walker over the whole tree, positioned on the root.
    pub fn new(tree: &'t ExtendedTree) -> (r: Self)
        requires
            tree.wf(),
        ensures
            r.tree == tree,
            r.start == 0,
            r.pos == 0,
            !r.done,
            r.wf(),
    {
        proof {
            assert(tree.node_ok(0));
        }
        ExtendedTreeCursor { tree, start: 0, pos: 0, done: false }
    }

    /// Descend to the first child of the current node, if it has one.
    /// In preorder storage the first child sits directly after its parent.
    fn goto_first_child(&mut self) -> (moved: bool)
        requires
            old(self).wf(),
        ensures
            final(self).tree == old(self).tree,
            final(self).start == old(self).start,
            final(self).done == old(self).done,
            moved == (old(self).tree.subtree_end_of(old(self).pos as int) > old(self).pos + 1),
            moved ==> final(self).pos == old(self).pos + 1,
            !moved ==> final(self).pos == old(self).pos,
            final(self).wf(),
    {
        proof {
            assert(self.tree.node_ok(self.start as int));
            assert(self.tree.node_ok(self.pos as int));
        }
        let se = self.tree.nodes[self.pos].subtree_end;
        if se > self.pos + 1 {
            proof {
                if self.pos != self.start {
                    lemma_nested(*self.tree, self.start as int, self.pos as int);
                }
            }
            self.pos = self.pos + 1;
            true
        } else {
            false
        }
    }

    /// Advance to the next sibling of the current node, if there is one and
    /// the current node is not the subtree root the walk is scoped to.  A
    /// sibling starts exactly where the current node's subtree interval
    /// ends.
    fn goto_next_sibling(&mut self) -> (moved: bool)
        requires
            old(self).wf(),
        ensures
            final(self).tree == old(self).tree,
            final(self).start == old(self).start,
            final(self).done == old(self).done,
            moved == (old(self).pos != old(self).start && old(self).tree.subtree_end_of(
                old(self).pos as int,
            ) < old(self).tree.subtree_end_of(old(self).tree.parent_of(old(self).pos as int))),
            moved ==> final(self).pos as int == old(self).tree.subtree_end_of(
                old(self).pos as int,
            ),
            !moved ==> final(self).pos == old(self).pos,
            final(self).wf(),
    {
        if self.pos == self.start {
            return false;
        }
        proof {
            assert(self.tree.node_ok(self.start as int));
            assert(self.tree.node_ok(self.pos as int));
            lemma_parent_in_subtree(*self.tree, self.start as int, self.pos as int);
        }
        let p = match self.tree.nodes[self.pos].parent {
            Some(p) => p,
            None => {
                proof {
                    assert(false);
                }
                0
            },
        };
        let se = self.tree.nodes[self.pos].subtree_end;
        let pe = self.tree.nodes[p].subtree_end;
        if se < pe {
            proof {
                assert(self.tree.node_ok(p as int));
                if (p as int) != (self.start as int) {
                    lemma_nested(*self.tree, self.start as int, p as int);
                }
            }
            self.pos = se;
            true
        } else {
            false
        }
    }

    /// Ascend to the parent of the current node, unless the cursor is
    /// already on the subtree root the walk is scoped to.
    fn goto_parent(&mut self) -> (moved: bool)
        requires
            old(self).wf(),
        ensures
            final(self).tree == old(self).tree,
            final(self).start == old(self).start,
            final(self).done == old(self).done,
            moved == (old(self).pos != old(self).start),
            moved ==> final(self).pos as int == old(self).tree.parent_of(old(self).pos as int)
                && final(self).pos < old(self).pos,
            !moved ==> final(self).pos == old(self).pos,
            final(self).wf(),
    {
        if self.pos == self.start {
            return false;
        }
        proof {
            assert(self.tree.node_ok(self.start as int));
            assert(self.tree.node_ok(self.pos as int));
            lemma_parent_in_subtree(*self.tree, self.start as int, self.pos as int);
        }
        let p = match self.tree.nodes[self.pos].parent {
            Some(p) => p,
            None => {
                proof {
                    assert(false);
                }
                0
            },
        };
        self.pos = p;
        true
    }

    /// Produce the node under the cursor and advance to its preorder
    /// successor within the start subtree: first child if any, else next
    /// sibling, else the next sibling of the nearest ancestor that has one.
    /// If no successor exists the produced node was the last one and the
    /// walk is exhausted; the node is still returned, and every later call
    /// returns `None`.
    pub fn next(&mut self) -> (r: Option<ExtendedNode<'t>>)
        requires
            old(self).wf(),
        ensures
            final(self).wf(),
            final(self).tree == old(self).tree,
            final(self).start == old(self).start,
            r is Some <==> !old(self).done,
            old(self).done ==> final(self).pos == old(self).pos && final(self).done,
            r matches Some(nd) ==> nd.tree == old(self).tree && nd.index == old(self).pos
                && nd.wf(),
            !old(self).done && old(self).pos + 1 < old(self).tree.subtree_end_of(
                old(self).start as int,
            ) ==> !final(self).done && final(self).pos == old(self).pos + 1,
            !old(self).done && old(self).pos + 1 == old(self).tree.subtree_end_of(
                old(self).start as int,
            ) ==> final(self).done,
    {
        if self.done {
            return None;
        }
        let node = ExtendedNode { tree: self.tree, index: self.pos };
        let ghost captured: int = self.pos as int;
        proof {
            assert(self.tree.node_ok(self.start as int));
            assert(self.tree.node_ok(self.pos as int));
        }
        if self.goto_first_child() {
            return Some(node);
        }
        if self.goto_next_sibling() {
            return Some(node);
        }
        // No child and no sibling: climb towards the start node, taking the
        // first further sibling found on the way; running out of ancestors
        // means the subtree is exhausted.
        let ghost t = *self.tree;
        let ghost start0: int = self.start as int;
        loop
            invariant_except_break
                !self.done,
                self.pos as int <= captured,
                t.subtree_end_of(self.pos as int) == captured + 1,
                self.pos == self.start || t.subtree_end_of(self.pos as int) == t.subtree_end_of(
                    t.parent_of(self.pos as int),
                ),
            invariant
                *self.tree == t,
                self.start as int == start0,
                self.wf(),
                t.subtree_end_of(start0) <= t.node_count(),
                captured < t.subtree_end_of(start0),
            ensures
                *self.tree == t,
                self.start as int == start0,
                self.wf(),
                self.done ==> captured + 1 == t.subtree_end_of(start0),
                !self.done ==> self.pos as int == captured + 1,
            decreases self.pos,
        {
            if !self.goto_parent() {
                self.done = true;
                break;
            }
            proof {
                assert(t.node_ok(self.pos as int));
            }
            if self.goto_next_sibling() {
                break;
            }
        }
        Some(node)
    }

    /// Drives the walk to exhaustion, returning the remaining nodes: the
    /// whole tail of the subtree's preorder listing, in order.
    pub fn collect_nodes(self) -> (v: Vec<ExtendedNode<'t>>)
        requires
            self.wf(),
        ensures
            self.done ==> v@.len() == 0,
            !self.done ==> v@.len() == self.tree.subtree_end_of(self.start as int) - self.pos,
            forall|k: int|
                0 <= k < v@.len() ==> (#[trigger] v@[k]).tree == self.tree && v@[k].index as int
                    == self.pos + k && v@[k].wf(),
    {
        let ghost t = self.tree;
        let ghost orig = self;
        let mut me = self;
        let mut v: Vec<ExtendedNode<'t>> = Vec::new();
        loop
            invariant
                me.tree == t,
                me.start == orig.start,
                me.wf(),
                orig.wf(),
                orig.done ==> me.done && me.pos == orig.pos && v@.len() == 0,
                !orig.done && !me.done ==> orig.pos <= me.pos && v@.len() == me.pos - orig.pos,
                !orig.done && me.done ==> v@.len() == t.subtree_end_of(orig.start as int)
                    - orig.pos,
                forall|k: int|
                    0 <= k < v@.len() ==> (#[trigger] v@[k]).tree == t && v@[k].index as int
                        == orig.pos + k && v@[k].wf(),
            ensures
                orig.done ==> v@.len() == 0,
                !orig.done ==> v@.len() == t.subtree_end_of(orig.start as int) - orig.pos,
                forall|k: int|
                    0 <= k < v@.len() ==> (#[trigger] v@[k]).tree == t && v@[k].index as int
                        == orig.pos + k && v@[k].wf(),
            decreases (if me.done {
                0int
            } else {
                t.subtree_end_of(me.start as int) - me.pos + 1
            }),
        {
            match me.next() {
                Some(nd) => {
                    v.push(nd);
                },
                None => {
                    break;
                },
            }
        }
        v
    }
}

impl<'t> WithSource for ExtendedTreeCursor<'t> {
    open spec fn complete_source(&self) -> Seq<char> {
        self.tree.source_code@
    }

    fn get_complete_source(&self) -> (r: Rc<String>) {
        Rc::clone(&self.tree.source_code)
    }
}

impl ExtendedTree {
    /// Starts a preorder walk over the whole tree, beginning at the root.
    pub fn walk<'t>(&'t self) -> (r: ExtendedTreeCursor<'t>)
        requires
            self.wf(),
        ensures
            r.tree == self,
            r.start == 0,
            r.pos == 0,
            !r.done,
            r.wf(),
    {
        ExtendedTreeCursor::new(self)
    }
}

} // verus!
