use std::rc::Rc;

use extended_tree::ExtendedTree;
use extended_tree::RawNode;
use extended_tree::WithSource;

fn raw(
    kind: &str,
    start_byte: usize,
    end_byte: usize,
    parent: Option<usize>,
    subtree_end: usize,
) -> RawNode {
    RawNode { kind: kind.to_string(), start_byte, end_byte, parent, subtree_end }
}

/// The tree for the input "a{b}": a compound node holding the leaf `a` and a
/// group, the group holding the `{` delimiter, the leaf `b` and the `}`
/// delimiter.
fn compound_tree() -> ExtendedTree {
    let source = Rc::new("a{b}".to_string());
    let nodes = vec![
        raw("compound", 0, 4, None, 6),
        raw("leaf", 0, 1, Some(0), 2),
        raw("group", 1, 4, Some(0), 6),
        raw("delimiter", 1, 2, Some(2), 4),
        raw("leaf", 2, 3, Some(2), 5),
        raw("delimiter", 3, 4, Some(2), 6),
    ];
    ExtendedTree::from_parts(source, nodes).unwrap()
}

#[test]
fn compound_input_is_walked_in_exact_preorder() {
    let tree = compound_tree();
    let nodes = tree.walk().collect_nodes();

    let kinds: Vec<&str> = nodes.iter().map(|n| n.kind().as_str()).collect();
    assert_eq!(
        kinds,
        vec!["compound", "leaf", "group", "delimiter", "leaf", "delimiter"]
    );

    let texts: Vec<String> = nodes.iter().map(|n| n.get_source()).collect();
    assert_eq!(texts, vec!["a{b}", "a", "{b}", "{", "b", "}"]);
}

#[test]
fn group_node_recovers_its_exact_text() {
    let tree = compound_tree();
    let nodes = tree.walk().collect_nodes();

    let group = nodes.iter().find(|n| n.kind().as_str() == "group").unwrap();
    assert_eq!(group.get_source(), "{b}");
    assert_eq!(group.start_byte(), 1);
    assert_eq!(group.end_byte(), 4);
}

#[test]
fn subtree_walk_stays_inside_the_start_node() {
    let tree = compound_tree();
    let nodes = tree.walk().collect_nodes();

    let group = nodes.iter().find(|n| n.kind().as_str() == "group").unwrap();
    let inner = group.walk().collect_nodes();

    let kinds: Vec<&str> = inner.iter().map(|n| n.kind().as_str()).collect();
    assert_eq!(kinds, vec!["group", "delimiter", "leaf", "delimiter"]);

    // Neither the parent compound node nor the earlier sibling leaf shows up.
    assert!(inner.iter().all(|n| n.kind().as_str() != "compound"));
    assert!(inner.iter().all(|n| n.get_source() != "a"));
}

#[test]
fn flat_sibling_list_is_walked_left_to_right() {
    let source = Rc::new("abc".to_string());
    let nodes = vec![
        raw("list", 0, 3, None, 4),
        raw("leaf", 0, 1, Some(0), 2),
        raw("leaf", 1, 2, Some(0), 3),
        raw("leaf", 2, 3, Some(0), 4),
    ];
    let tree = ExtendedTree::from_parts(source, nodes).unwrap();

    let walked = tree.walk().collect_nodes();
    let texts: Vec<String> = walked.iter().map(|n| n.get_source()).collect();
    assert_eq!(texts, vec!["abc", "a", "b", "c"]);
}

#[test]
fn zero_width_node_has_empty_text() {
    let source = Rc::new("xy".to_string());
    let nodes = vec![
        raw("root", 0, 2, None, 2),
        raw("missing", 1, 1, Some(0), 2),
    ];
    let tree = ExtendedTree::from_parts(source, nodes).unwrap();

    let walked = tree.walk().collect_nodes();
    assert_eq!(walked.len(), 2);
    assert_eq!(walked[1].get_source(), "");
}

#[test]
fn exhausted_cursor_keeps_reporting_exhaustion() {
    let tree = compound_tree();
    let mut it = tree.walk();
    let mut count = 0;
    while let Some(_) = it.next() {
        count += 1;
    }
    assert_eq!(count, 6);
    assert!(it.next().is_none());
    assert!(it.next().is_none());
}

#[test]
fn complete_source_is_shared_with_tree_and_cursor() {
    let tree = compound_tree();
    assert_eq!(tree.get_complete_source().as_str(), "a{b}");
    assert_eq!(tree.walk().get_complete_source().as_str(), "a{b}");
}

#[test]
fn from_parts_rejects_an_empty_node_list() {
    let source = Rc::new(String::new());
    assert!(ExtendedTree::from_parts(source, vec![]).is_none());
}

#[test]
fn from_parts_rejects_a_root_not_spanning_all_nodes() {
    let source = Rc::new("ab".to_string());
    let nodes = vec![
        raw("root", 0, 2, None, 1),
        raw("leaf", 0, 1, Some(0), 2),
    ];
    assert!(ExtendedTree::from_parts(source, nodes).is_none());
}

#[test]
fn from_parts_rejects_a_forward_parent_reference() {
    let source = Rc::new("ab".to_string());
    let nodes = vec![
        raw("root", 0, 2, None, 3),
        raw("leaf", 0, 1, Some(2), 2),
        raw("leaf", 1, 2, Some(0), 3),
    ];
    assert!(ExtendedTree::from_parts(source, nodes).is_none());
}

#[test]
fn from_parts_rejects_a_byte_range_outside_the_buffer() {
    let source = Rc::new("ab".to_string());
    let nodes = vec![raw("root", 0, 3, None, 1)];
    assert!(ExtendedTree::from_parts(source, nodes).is_none());
}

#[test]
fn from_parts_rejects_a_reversed_byte_range() {
    let source = Rc::new("ab".to_string());
    let nodes = vec![raw("root", 2, 1, None, 1)];
    assert!(ExtendedTree::from_parts(source, nodes).is_none());
}

#[test]
fn from_parts_rejects_a_range_splitting_a_character() {
    let source = Rc::new("\u{e9}x".to_string());
    // The first character is two bytes long, so a range ending at byte 1
    // would cut it apart.
    let nodes = vec![
        raw("root", 0, 3, None, 2),
        raw("leaf", 0, 1, Some(0), 2),
    ];
    assert!(ExtendedTree::from_parts(source, nodes).is_none());
}

#[test]
fn from_parts_accepts_multibyte_characters_on_boundaries() {
    let source = Rc::new("\u{e9}x".to_string());
    let nodes = vec![
        raw("root", 0, 3, None, 3),
        raw("leaf", 0, 2, Some(0), 2),
        raw("leaf", 2, 3, Some(0), 3),
    ];
    let tree = ExtendedTree::from_parts(source, nodes).unwrap();
    let walked = tree.walk().collect_nodes();
    assert_eq!(walked[1].get_source(), "\u{e9}");
    assert_eq!(walked[2].get_source(), "x");
}

#[test]
fn from_parts_rejects_a_detached_second_root() {
    let source = Rc::new("ab".to_string());
    let nodes = vec![
        raw("root", 0, 2, None, 2),
        raw("stray", 0, 1, None, 2),
    ];
    assert!(ExtendedTree::from_parts(source, nodes).is_none());
}
