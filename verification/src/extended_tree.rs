use vstd::prelude::*;

verus! {

use std::rc::Rc;
use vstd::utf8::encode_utf8;
use vstd::utf8::is_char_boundary;
use crate::with_source::WithSource;

/// One node of a concrete syntax tree, stored in preorder position.
///
/// `parent` is the preorder index of the parent node (`None` for the root),
/// and `subtree_end` is one past the preorder index of the node's last
/// descendant, so the node's whole subtree occupies the index interval
/// `[i, subtree_end)`.  `start_byte` and `end_byte` give the half-open byte
/// range of the source text that the node spans.
pub struct RawNode {
    pub kind: String,
    pub start_byte: usize,
    pub end_byte: usize,
    pub parent: Option<usize>,
    pub subtree_end: usize,
}

/// A parsed tree: the shared source buffer plus its nodes in preorder.
pub struct ExtendedTree {
    pub source_code: Rc<String>,
    pub nodes: Vec<RawNode>,
}

impl ExtendedTree {
    /// Number of nodes in the tree.
    pub open spec fn node_count(self) -> int {
        self.nodes@.len() as int
    }

    /// Preorder index of node `i`'s parent, or -1 for the root.
    pub open spec fn parent_of(self, i: int) -> int {
        match self.nodes@[i].parent {
            Some(p) => p as int,
            None => -1,
        }
    }

    /// One past the preorder index of the last node in `i`'s subtree.
    pub open spec fn subtree_end_of(self, i: int) -> int {
        self.nodes@[i].subtree_end as int
    }

    pub open spec fn start_byte_of(self, i: int) -> int {
        self.nodes@[i].start_byte as int
    }

    pub open spec fn end_byte_of(self, i: int) -> int {
        self.nodes@[i].end_byte as int
    }

    pub open spec fn kind_of(self, i: int) -> Seq<char> {
        self.nodes@[i].kind@
    }

    /// The source buffer as UTF-8 bytes; node spans index into this sequence.
    pub open spec fn src_bytes(self) -> Seq<u8> {
        encode_utf8(self.source_code@)
    }

    /// The structural conditions on a single node.
    ///
    /// Together (over all nodes) these say that the nodes, in storage order,
    /// are a preorder listing of one rooted tree: every subtree is the
    /// contiguous interval `[i, subtree_end_of(i))`, a node's first child (if
    /// any) sits directly after it, and a sibling starts where the previous
    /// sibling's subtree ends.  The node's byte range must be a
    /// character-aligned span of the source buffer; a boundary at an index
    /// beyond the buffer is impossible, so the range also lies within it.
    pub open spec fn node_ok(self, i: int) -> bool {
        &&& i < self.subtree_end_of(i) <= self.node_count()
        &&& (i == 0 ==> self.parent_of(i) == -1 && self.subtree_end_of(i) == self.node_count())
        &&& (i > 0 ==> {
            &&& 0 <= self.parent_of(i) < i
            &&& i < self.subtree_end_of(self.parent_of(i))
            &&& self.subtree_end_of(i) <= self.subtree_end_of(self.parent_of(i))
        })
        &&& (self.subtree_end_of(i) > i + 1 ==> self.parent_of(i + 1) == i)
        &&& (i > 0 && self.subtree_end_of(i) < self.subtree_end_of(self.parent_of(i))
            ==> self.parent_of(self.subtree_end_of(i)) == self.parent_of(i))
        &&& self.start_byte_of(i) <= self.end_byte_of(i)
        &&& is_char_boundary(self.src_bytes(), self.start_byte_of(i))
        &&& is_char_boundary(self.src_bytes(), self.end_byte_of(i))
    }

    /// Well-formedness of the whole tree: at least the root, and every node
    /// structurally sound.
    pub open spec fn wf(self) -> bool {
        &&& self.node_count() >= 1
        &&& forall|i: int| 0 <= i < self.node_count() ==> #[trigger] self.node_ok(i)
    }

    /// Builds a tree from a shared source buffer and a preorder node
    /// listing, accepting the parts if and only if they satisfy the
    /// structural conditions of `wf`.
    pub fn from_parts(source: Rc<String>, nodes: Vec<RawNode>) -> (r: Option<ExtendedTree>)
        ensures
            r matches Some(t) ==> t.wf() && t.source_code@ == source@ && t.nodes@ == nodes@,
            r is None ==> forall|t: ExtendedTree|
                t.source_code@ == source@ && t.nodes@ == nodes@ ==> !t.wf(),
    {
        let t = ExtendedTree { source_code: source, nodes };
        let ok = t.validate();
        proof {
            assert forall|t2: ExtendedTree|
                #![trigger t2.wf()]
                t2.source_code@ == t.source_code@ && t2.nodes@ == t.nodes@ implies t2.wf()
                == t.wf() by {
                lemma_wf_depends_on_parts(t, t2);
            }
        }
        if ok {
            Some(t)
        } else {
            None
        }
    }

    /// Parses C# source text with the external grammar and builds the
    /// verified tree over it.  Returns `None` if the parser cannot be set
    /// up or fails to produce a tree, or if what it reports does not form a
    /// well-formed preorder tree over this buffer.
    pub fn from_source_code(source: &str) -> (r: Option<ExtendedTree>)
        ensures
            r matches Some(t) ==> t.wf() && t.source_code@ == source@,
    {
        ExtendedTree::new_shared(Rc::new(source.to_owned()))
    }

    /// As `from_source_code`, but sharing the given buffer instead of
    /// copying it.
    pub fn new(source: &Rc<String>) -> (r: Option<ExtendedTree>)
        ensures
            r matches Some(t) ==> t.wf() && t.source_code@ == source@,
    {
        ExtendedTree::new_shared(Rc::clone(source))
    }

    fn new_shared(source: Rc<String>) -> (r: Option<ExtendedTree>)
        ensures
            r matches Some(t) ==> t.wf() && t.source_code@ == source@,
    {
        let mut parser = crate::parsing::new_parser();
        let language = crate::parsing::csharp_language();
        if !crate::parsing::set_language(&mut parser, &language) {
            return None;
        }
        let tree = match crate::parsing::parse(&mut parser, source.as_str()) {
            Some(t) => t,
            None => {
                return None;
            },
        };
        let nodes = match collect_raw_nodes(&tree) {
            Some(n) => n,
            None => {
                return None;
            },
        };
        ExtendedTree::from_parts(source, nodes)
    }

    /// Runtime check of exactly the `wf` conditions.
    fn validate(&self) -> (ok: bool)
        ensures
            ok == self.wf(),
    {
        broadcast use vstd::utf8::encode_utf8_valid_utf8;

        let n = self.nodes.len();
        if n == 0 {
            return false;
        }
        let src: &str = self.source_code.as_str();
        let mut i: usize = 0;
        while i < n
            invariant
                n == self.node_count(),
                n >= 1,
                src@ == self.source_code@,
                0 <= i <= n,
                forall|j: int| 0 <= j < i ==> #[trigger] self.node_ok(j),
            decreases n - i,
        {
            let node = &self.nodes[i];
            let se = node.subtree_end;
            if !(i < se && se <= n) {
                proof {
                    assert(!self.node_ok(i as int));
                }
                return false;
            }
            if i == 0 {
                if !(node.parent.is_none() && se == n) {
                    proof {
                        assert(!self.node_ok(0));
                    }
                    return false;
                }
            } else {
                let p = match node.parent {
                    Some(p) => p,
                    None => {
                        proof {
                            assert(!self.node_ok(i as int));
                        }
                        return false;
                    },
                };
                if !(p < i) {
                    proof {
                        assert(!self.node_ok(i as int));
                    }
                    return false;
                }
                let pe = self.nodes[p].subtree_end;
                if !(i < pe && se <= pe) {
                    proof {
                        assert(!self.node_ok(i as int));
                    }
                    return false;
                }
                if se < pe {
                    proof {
                        assert(self.node_ok(p as int));
                        assert(se < n);
                    }
                    let sp = match self.nodes[se].parent {
                        Some(sp) => sp,
                        None => {
                            proof {
                                assert(!self.node_ok(i as int));
                            }
                            return false;
                        },
                    };
                    if sp != p {
                        proof {
                            assert(!self.node_ok(i as int));
                        }
                        return false;
                    }
                }
            }
            if se > i + 1 {
                let ok_child = match self.nodes[i + 1].parent {
                    Some(cp) => cp == i,
                    None => false,
                };
                if !ok_child {
                    proof {
                        assert(!self.node_ok(i as int));
                    }
                    return false;
                }
            }
            if !(node.start_byte <= node.end_byte) {
                proof {
                    assert(!self.node_ok(i as int));
                }
                return false;
            }
            if !src.is_char_boundary(node.start_byte) {
                proof {
                    assert(!self.node_ok(i as int));
                }
                return false;
            }
            if !src.is_char_boundary(node.end_byte) {
                proof {
                    assert(!self.node_ok(i as int));
                }
                return false;
            }
            proof {
                assert(self.node_ok(i as int));
            }
            i = i + 1;
        }
        true
    }
}

impl WithSource for ExtendedTree {
    open spec fn complete_source(&self) -> Seq<char> {
        self.source_code@
    }

    fn get_complete_source(&self) -> (r: Rc<String>) {
        Rc::clone(&self.source_code)
    }
}

/// Reads the node the external cursor currently sits on.  `subtree_end` is
/// a placeholder until the node's subtree is closed during the walk.
fn read_current_node(cursor: &tree_sitter::TreeCursor<'_>, parent: Option<usize>) -> RawNode {
    let node = crate::parsing::cursor_node(cursor);
    RawNode {
        kind: crate::parsing::node_kind(&node),
        start_byte: crate::parsing::node_start_byte(&node),
        end_byte: crate::parsing::node_end_byte(&node),
        parent,
        subtree_end: 0,
    }
}

/// Walks the external cursor depth-first over the whole parsed tree and
/// records each node in preorder, keeping a stack of the nodes whose
/// subtrees are still open.  Nothing is assumed about the cursor's answers:
/// whatever comes back is later checked by `from_parts`.  Returns `None` if
/// the cursor behaves inconsistently (claims to have no parent while nodes
/// are still open) or the walk refuses to end.
fn collect_raw_nodes(tree: &tree_sitter::Tree) -> Option<Vec<RawNode>> {
    let root = crate::parsing::root_node(tree);
    let mut cursor = crate::parsing::node_walk(&root);
    let mut nodes: Vec<RawNode> = Vec::new();
    nodes.push(read_current_node(&cursor, None));
    let mut stack: Vec<usize> = Vec::new();
    stack.push(0);
    let mut fuel: usize = usize::MAX;
    loop
        invariant
            stack@.len() >= 1,
            forall|k: int| 0 <= k < stack@.len() ==> #[trigger] stack@[k] < nodes@.len(),
        decreases fuel,
    {
        if fuel == 0 {
            return None;
        }
        fuel = fuel - 1;
        if crate::parsing::goto_first_child(&mut cursor) {
            let idx = nodes.len();
            let parent = stack[stack.len() - 1];
            nodes.push(read_current_node(&cursor, Some(parent)));
            stack.push(idx);
        } else {
            // The current node's subtree is complete; close it, and close
            // ancestors until one has a further sibling or none is open.
            loop
                invariant
                    forall|k: int| 0 <= k < stack@.len() ==> #[trigger] stack@[k]
                        < nodes@.len(),
                ensures
                    stack@.len() >= 1,
                    forall|k: int| 0 <= k < stack@.len() ==> #[trigger] stack@[k]
                        < nodes@.len(),
                decreases stack@.len(),
            {
                let top = match stack.pop() {
                    Some(t) => t,
                    None => {
                        return None;
                    },
                };
                let end = nodes.len();
                nodes[top].subtree_end = end;
                if stack.is_empty() {
                    return Some(nodes);
                }
                if crate::parsing::goto_next_sibling(&mut cursor) {
                    let idx = nodes.len();
                    let parent = stack[stack.len() - 1];
                    nodes.push(read_current_node(&cursor, Some(parent)));
                    stack.push(idx);
                    break;
                }
                if !crate::parsing::goto_parent(&mut cursor) {
                    return None;
                }
            }
        }
    }
}

/// Well-formedness is a function of the source text and the node listing
/// alone, not of the particular `Rc` allocation that holds them.
proof fn lemma_wf_depends_on_parts(t1: ExtendedTree, t2: ExtendedTree)
    requires
        t1.source_code@ == t2.source_code@,
        t1.nodes@ == t2.nodes@,
    ensures
        t1.wf() == t2.wf(),
{
    assert forall|i: int|
        #![trigger t1.node_ok(i)]
        #![trigger t2.node_ok(i)]
        0 <= i < t1.node_count() implies t1.node_ok(i) == t2.node_ok(i) by {
        assert(t1.src_bytes() == t2.src_bytes());
    }
}

} // verus!
