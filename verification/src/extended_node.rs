use vstd::prelude::*;

verus! {

use vstd::string::StringSliceAdditionalSpecFns;
use vstd::utf8::is_char_boundary;
use vstd::utf8::is_continuation_byte;
use vstd::utf8::is_char_boundary_iff_not_is_continuation_byte;
use vstd::utf8::valid_utf8;
use crate::extended_tree::ExtendedTree;
use crate::extended_tree_cursor::ExtendedTreeCursor;

/// One syntax node of a parsed tree, addressed by its preorder index and
/// carrying a handle to the tree (and thereby to the shared source buffer).
pub struct ExtendedNode<'t> {
    pub tree: &'t ExtendedTree,
    pub index: usize,
}

/// A character boundary can only lie inside or at the end of the buffer.
pub proof fn lemma_char_boundary_within(bytes: Seq<u8>, index: int)
    requires
        valid_utf8(bytes),
        is_char_boundary(bytes, index),
    ensures
        0 <= index <= bytes.len(),
{
    if index != 0 {
        // Unfolding the definition: a boundary at a negative index or past
        // the end is impossible.
        assert(!(index < 0 || bytes.len() < index));
    }
}

/// Returns the slice of `s` covering the byte range `[start, end)`, given
/// that both ends sit on character boundaries.
pub fn slice_by_byte_range<'a>(s: &'a str, start: usize, end: usize) -> (r: &'a str)
    requires
        start <= end,
        is_char_boundary(s.spec_bytes(), start as int),
        is_char_boundary(s.spec_bytes(), end as int),
    ensures
        r.spec_bytes() =~= s.spec_bytes().subrange(start as int, end as int),
{
    broadcast use vstd::utf8::encode_utf8_valid_utf8;
    broadcast use vstd::utf8::valid_utf8_split;
    broadcast use vstd::utf8::is_char_boundary_start_end_of_seq;

    let ghost whole: Seq<u8> = s.spec_bytes();
    proof {
        lemma_char_boundary_within(whole, end as int);
    }
    let (_pre, rest) = s.split_at(start);
    proof {
        let tail: Seq<u8> = rest.spec_bytes();
        let j: int = end - start;
        if j != 0 && j != tail.len() {
            assert(tail[j] == whole[end as int]);
            assert(!is_continuation_byte(whole[end as int])) by {
                is_char_boundary_iff_not_is_continuation_byte(whole, end as int);
            }
            assert(is_char_boundary(tail, j)) by {
                is_char_boundary_iff_not_is_continuation_byte(tail, j);
            }
        }
    }
    let (mid, _post) = rest.split_at(end - start);
    mid
}

impl<'t> ExtendedNode<'t> {
    pub open spec fn wf(self) -> bool {
        &&& self.tree.wf()
        &&& (self.index as int) < self.tree.node_count()
    }

    /// The byte range of the source buffer that this node spans.
    pub open spec fn spec_start_byte(self) -> int {
        self.tree.start_byte_of(self.index as int)
    }

    pub open spec fn spec_end_byte(self) -> int {
        self.tree.end_byte_of(self.index as int)
    }

    /// The exact source text this node spans, as UTF-8 bytes.
    pub open spec fn spec_text_bytes(self) -> Seq<u8> {
        self.tree.src_bytes().subrange(self.spec_start_byte(), self.spec_end_byte())
    }

    pub fn new(tree: &'t ExtendedTree, index: usize) -> (r: Self)
        requires
            tree.wf(),
            (index as int) < tree.node_count(),
        ensures
            r.tree == tree,
            r.index == index,
            r.wf(),
    {
        ExtendedNode { tree, index }
    }

    /// The grammar's label for this node.
    pub fn kind(&self) -> (r: &String)
        requires
            self.wf(),
        ensures
            r@ == self.tree.kind_of(self.index as int),
    {
        &self.tree.nodes[self.index].kind
    }

    pub fn start_byte(&self) -> (r: usize)
        requires
            self.wf(),
        ensures
            r as int == self.spec_start_byte(),
    {
        self.tree.nodes[self.index].start_byte
    }

    pub fn end_byte(&self) -> (r: usize)
        requires
            self.wf(),
        ensures
            r as int == self.spec_end_byte(),
    {
        self.tree.nodes[self.index].end_byte
    }

    /// Materializes the exact slice of the source buffer that this node
    /// spans.  The buffer itself is never copied; only the requested slice
    /// is, and only on this explicit call.
    pub fn get_source(&self) -> (r: String)
        requires
            self.wf(),
        ensures
            r@.len() == 0 <==> self.spec_start_byte() == self.spec_end_byte(),
            vstd::utf8::encode_utf8(r@) =~= self.spec_text_bytes(),
    {
        broadcast use vstd::utf8::encode_utf8_valid_utf8;

        proof {
            assert(self.tree.node_ok(self.index as int));
        }
        let node = &self.tree.nodes[self.index];
        let src: &str = self.tree.source_code.as_str();
        let slice = slice_by_byte_range(src, node.start_byte, node.end_byte);
        proof {
            // A character sequence is empty exactly when its encoding is.
            assert(slice.spec_bytes().len() == self.spec_end_byte() - self.spec_start_byte());
            if slice@.len() == 0 {
                assert(slice.spec_bytes() =~= Seq::<u8>::empty());
            } else {
                assert(slice.spec_bytes().len() >= vstd::utf8::encode_scalar(
                    slice@[0] as u32,
                ).len());
            }
        }
        slice.to_owned()
    }

    /// Starts a preorder walk over exactly this node's subtree.
    pub fn walk(&self) -> (r: ExtendedTreeCursor<'t>)
        requires
            self.wf(),
        ensures
            r.tree == self.tree,
            r.start == self.index,
            r.pos == self.index,
            !r.done,
            r.wf(),
    {
        proof {
            assert(self.tree.node_ok(self.index as int));
        }
        ExtendedTreeCursor { tree: self.tree, start: self.index, pos: self.index, done: false }
    }
}

} // verus!
