use letter::errors::Error;
use letter::parser::Parser;
use letter::tree::Tree;

/// The node of a numeric literal whose digits spell `value`.
fn number(value: f64) -> Tree {
    Tree::NumericLiteral { value: format!("{}", value) }
}

fn assert_tree(expected: Tree, source: &str) {
    assert_eq!(Parser::parse(source.to_string()), Ok(expected));
}

fn assert_syntax_error(expected: Error, source: &str) {
    assert_eq!(Parser::parse(source.to_string()), Err(expected));
}

#[test]
fn test_parse_empty_block() {
    let expected = Tree::Program {
        body: Box::new(vec![
            Tree::BlockStatement { body: Box::new(vec![]) }
        ]),
    };
    assert_tree(expected, "{}");
}

#[test]
fn test_parse_block_statements() {
    let expected = Tree::Program {
        body: Box::new(vec![
            Tree::ExpressionStatement {
                expression: Box::new(number(42.0)),
            },
            Tree::BlockStatement {
                body: Box::new(vec![
                    Tree::ExpressionStatement {
                        expression: Box::new(Tree::StringLiteral { value: "Hello".to_owned() }),
                    }
                ])
            },
            Tree::ExpressionStatement {
                expression: Box::new(Tree::StringLiteral { value: "Hello".to_owned() }),
            }
        ]),
    };
    assert_tree(expected, "42; { //Commenting 42 -> 42;\n 'Hello'; } \"Hello\";");
}

#[test]
fn test_parse_nested_block_statements() {
    let expected = Tree::Program {
        body: Box::new(vec![
            Tree::BlockStatement {
                body: Box::new(vec![
                    Tree::BlockStatement {
                        body: Box::new(vec![
                            Tree::ExpressionStatement {
                                expression: Box::new(number(42.0)),
                            },
                            Tree::BlockStatement {
                                body: Box::new(vec![
                                    Tree::ExpressionStatement {
                                        expression: Box::new(Tree::StringLiteral { value: "Hello".to_owned() }),
                                    }
                                ])
                            },
                        ])
                    },
                    Tree::BlockStatement {
                        body: Box::new(vec![])
                    },
                ])
            },
        ]),
    };
    assert_tree(expected, "{{ 42; { 'Hello'; } }{}}");
}

#[test]
fn test_parse_invalid_block_statement() {
    let expected = Error::Syntax("Unexpected token EOF, expected Identifier!".to_string());
    assert_syntax_error(expected, "{");
}
