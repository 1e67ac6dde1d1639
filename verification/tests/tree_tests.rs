use extended_tree::ExtendedTree;

const CODE: &str = r#"
        using System;

        namespace HelloWorld
        {
            [ClassAttribute("AttributeValue")]
            class Program
            {
                [MethodAttribute("MethodAttributeValue1", "MethodAttributeValue2")]
                public Task Run() {}

                static void Main(string[] args)
                {
                    Console.WriteLine("Hello, World!");
                    // this is a comment
                }
            }
        }
        "#;

#[test]
fn extended_tree_should_return_expected_elements() {
    let tree = ExtendedTree::from_source_code(CODE).unwrap();

    let mut it = tree.walk();

    let mut found = None;
    while let Some(n) = it.next() {
        if n.kind().as_str() == "class_declaration" {
            found = Some(n);
            break;
        }
    }
    let node = found.unwrap();

    assert!(node.get_source().contains("class Program"));
}
