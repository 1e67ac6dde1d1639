use extended_tree::ExtendedNode;
use extended_tree::ExtendedTree;

fn contains_node_with_kind_and_text(kind: &str, text: &str, nodes: &Vec<ExtendedNode>) {
    let contains = nodes
        .iter()
        .any(|n| n.kind().as_str() == kind && n.get_source().contains(text));

    if !contains {
        panic!("expected a node of kind {kind} whose text contains {text}, but none was found");
    }
}

#[test]
fn extended_tree_cursor_should_return_expected_elements() {
    let code = r#"
        using System;

        namespace HelloWorld
        {
            [ClassAttribute("AttributeValue")]
            class Program
            {
                [MethodAttribute("MethodAttributeValue1", "MethodAttributeValue2")]
                public Task Run() {}

                static void Main(string[] args)
                {
                    Console.WriteLine("Hello, World!");
                    // this is a comment
                }
            }
        }
        "#;

    let tree = ExtendedTree::from_source_code(code).unwrap();

    let nodes = tree.walk().collect_nodes();

    contains_node_with_kind_and_text("using_directive", "using System;", &nodes);

    contains_node_with_kind_and_text("namespace_declaration", "namespace HelloWorld", &nodes);

    contains_node_with_kind_and_text("attribute", r#"ClassAttribute("AttributeValue")"#, &nodes);

    contains_node_with_kind_and_text("class_declaration", "class Program", &nodes);

    contains_node_with_kind_and_text(
        "attribute",
        r#"MethodAttribute("MethodAttributeValue1", "MethodAttributeValue2")"#,
        &nodes,
    );

    contains_node_with_kind_and_text("method_declaration", r#"public Task Run() {}"#, &nodes);

    contains_node_with_kind_and_text(
        "method_declaration",
        r#"static void Main(string[] args)"#,
        &nodes,
    );

    contains_node_with_kind_and_text(
        "expression_statement",
        r#"Console.WriteLine("Hello, World!");"#,
        &nodes,
    );

    contains_node_with_kind_and_text("comment", r#" this is a comment"#, &nodes);
}

#[test]
fn should_be_able_to_create_cursor_from_node() {
    let code = r#"
            static void Main(string[] args)
            {
                Console.WriteLine("Hello, World!");
                // this is a comment
            }
        "#;

    let tree = ExtendedTree::from_source_code(code).unwrap();

    let mut it = tree.walk();

    let mut found = None;
    while let Some(n) = it.next() {
        if n.kind().as_str() == "local_function_statement" {
            found = Some(n);
            break;
        }
    }
    let method_node = found.unwrap();

    assert_eq!(method_node.kind().as_str(), "local_function_statement");

    let method_nodes = method_node.walk().collect_nodes();

    contains_node_with_kind_and_text(
        "local_function_statement",
        r#"static void Main(string[] args)"#,
        &method_nodes,
    );

    contains_node_with_kind_and_text(
        "expression_statement",
        r#"Console.WriteLine("Hello, World!");"#,
        &method_nodes,
    );

    contains_node_with_kind_and_text("comment", " this is a comment", &method_nodes);
}

#[test]
fn extended_tree_cursor_should_be_well_behaved_for_empty_input() {
    let code = "";

    let tree = ExtendedTree::from_source_code(code).unwrap();

    let nodes = tree.walk().collect_nodes();

    // The walk yields the childless root itself as its one node; that node
    // spans no text at all.
    assert_eq!(nodes.len(), 1);
    assert!(nodes[0].get_source().is_empty());
}
