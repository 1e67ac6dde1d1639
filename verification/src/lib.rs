//! A concrete-syntax-tree walker with on-demand source-text recovery.
//!
//! A parsed tree owns one immutable source buffer and a preorder listing of
//! its nodes.  Cursors walk any subtree in preorder, yielding each node
//! exactly once, and every node can hand back the exact slice of the source
//! it spans without the buffer ever being copied per node.

pub mod extended_node;
pub mod extended_tree;
pub mod extended_tree_cursor;
pub mod parsing;
pub mod structure;
pub mod traversal_laws;
pub mod with_source;

pub use extended_node::ExtendedNode;
pub use extended_tree::ExtendedTree;
pub use extended_tree::RawNode;
pub use extended_tree_cursor::ExtendedTreeCursor;
pub use with_source::WithSource;
