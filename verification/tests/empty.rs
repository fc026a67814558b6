use letter::parser::Parser;
use letter::tree::Tree;

/// The node of a numeric literal whose digits spell `value`.
fn number(value: f64) -> Tree {
    Tree::NumericLiteral { value: format!("{}", value) }
}

fn assert_tree(expected: Tree, source: &str) {
    assert_eq!(Parser::parse(source.to_string()), Ok(expected));
}

#[test]
fn test_parse_simple_empty_statement() {
    let expected = Tree::Program {
        body: Box::new(vec![
            Tree::EmptyStatement,
        ]),
    };
    assert_tree(expected, ";");
}

#[test]
fn test_parse_empty_statements() {
    let expected = Tree::Program {
        body: Box::new(vec![
            Tree::EmptyStatement,
            Tree::ExpressionStatement {
                expression: Box::new(number(42.0)),
            },
            Tree::EmptyStatement,
            Tree::ExpressionStatement {
                expression: Box::new(Tree::StringLiteral { value: "Hello".to_owned() }),
            }
        ]),
    };
    assert_tree(expected, ";\n42;\n;\n'Hello';");
}
