use vstd::prelude::*;

verus! {

// Declarations of the tree-sitter types that the parsing front end touches.
// They are opaque here: values of these types are only carried between the
// trusted wrappers below, and everything read out of them is re-validated
// before the verified tree is built (see `ExtendedTree::from_parts`).
#[verifier::external_type_specification]
#[verifier::external_body]
pub struct ExParser(tree_sitter::Parser);

#[verifier::external_type_specification]
#[verifier::external_body]
pub struct ExLanguage(tree_sitter::Language);

#[verifier::external_type_specification]
#[verifier::external_body]
pub struct ExTree(tree_sitter::Tree);

#[verifier::external_type_specification]
#[verifier::external_body]
pub struct ExNode<'tree>(tree_sitter::Node<'tree>);

#[verifier::external_type_specification]
#[verifier::external_body]
pub struct ExTreeCursor<'tree>(tree_sitter::TreeCursor<'tree>);

/// Relies on tree_sitter::Parser::new: creates a parser with no language
/// assigned yet.
#[verifier::external_body]
pub(crate) fn new_parser() -> tree_sitter::Parser {
    tree_sitter::Parser::new()
}

/// Relies on tree_sitter_c_sharp::LANGUAGE and tree-sitter's
/// From<LanguageFn> for Language: the grammar handle for C#.
#[verifier::external_body]
pub(crate) fn csharp_language() -> tree_sitter::Language {
    tree_sitter::Language::from(tree_sitter_c_sharp::LANGUAGE)
}

/// Relies on tree_sitter::Parser::set_language: assigns the grammar to the
/// parser; fails if the grammar was built for an incompatible ABI version.
#[verifier::external_body]
pub(crate) fn set_language(parser: &mut tree_sitter::Parser, language: &tree_sitter::Language) -> bool {
    parser.set_language(language).is_ok()
}

/// Relies on tree_sitter::Parser::parse: parses the text into a concrete
/// syntax tree; returns None only if no language was assigned or parsing
/// was cancelled, never because of malformed input.
#[verifier::external_body]
pub(crate) fn parse(parser: &mut tree_sitter::Parser, text: &str) -> Option<tree_sitter::Tree> {
    parser.parse(text, None)
}

/// Relies on tree_sitter::Tree::root_node.
#[verifier::external_body]
pub(crate) fn root_node<'tree>(tree: &'tree tree_sitter::Tree) -> tree_sitter::Node<'tree> {
    tree.root_node()
}

/// Relies on tree_sitter::Node::walk: a cursor positioned on this node and
/// scoped to its subtree.
#[verifier::external_body]
pub(crate) fn node_walk<'tree>(node: &tree_sitter::Node<'tree>) -> tree_sitter::TreeCursor<'tree> {
    node.walk()
}

/// Relies on tree_sitter::TreeCursor::node: the node the cursor is on.
#[verifier::external_body]
pub(crate) fn cursor_node<'tree>(cursor: &tree_sitter::TreeCursor<'tree>) -> tree_sitter::Node<'tree> {
    cursor.node()
}

/// Relies on tree_sitter::Node::kind: the grammar's label for the node.
#[verifier::external_body]
pub(crate) fn node_kind(node: &tree_sitter::Node<'_>) -> String {
    node.kind().to_owned()
}

/// Relies on tree_sitter::Node::start_byte.
#[verifier::external_body]
pub(crate) fn node_start_byte(node: &tree_sitter::Node<'_>) -> usize {
    node.start_byte()
}

/// Relies on tree_sitter::Node::end_byte.
#[verifier::external_body]
pub(crate) fn node_end_byte(node: &tree_sitter::Node<'_>) -> usize {
    node.end_byte()
}

/// Relies on tree_sitter::TreeCursor::goto_first_child: true exactly when
/// the cursor moved to the first child of its current node.
#[verifier::external_body]
pub(crate) fn goto_first_child(cursor: &mut tree_sitter::TreeCursor<'_>) -> bool {
    cursor.goto_first_child()
}

/// Relies on tree_sitter::TreeCursor::goto_next_sibling: true exactly when
/// the cursor moved to the next sibling of its current node; never moves
/// outside the subtree the cursor was created on.
#[verifier::external_body]
pub(crate) fn goto_next_sibling(cursor: &mut tree_sitter::TreeCursor<'_>) -> bool {
    cursor.goto_next_sibling()
}

/// Relies on tree_sitter::TreeCursor::goto_parent: true exactly when the
/// cursor moved to the parent of its current node; false on the node the
/// cursor was created on.
#[verifier::external_body]
pub(crate) fn goto_parent(cursor: &mut tree_sitter::TreeCursor<'_>) -> bool {
    cursor.goto_parent()
}

} // verus!
