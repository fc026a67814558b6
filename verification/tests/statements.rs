use letter::errors::Error;
use letter::parser::statements::{BlockStatementParsable, EmptyStatementParsable};
use letter::parser::Parser;
use letter::token::TokenType;
use letter::tree::Tree;

fn number(value: f64) -> Tree {
    Tree::NumericLiteral { value: format!("{}", value) }
}

fn statement(expression: Tree) -> Tree {
    Tree::ExpressionStatement { expression: Box::new(expression) }
}

fn program(body: Vec<Tree>) -> Tree {
    Tree::Program { body: Box::new(body) }
}

fn block(body: Vec<Tree>) -> Tree {
    Tree::BlockStatement { body: Box::new(body) }
}

fn parse(source: &str) -> Result<Tree, Error> {
    Parser::parse(source.to_string())
}

fn syntax(message: &str) -> Result<Tree, Error> {
    Err(Error::Syntax(message.to_string()))
}

#[test]
fn test_parse_number_statement() {
    assert_eq!(parse("42;"), Ok(program(vec![statement(number(42.0))])));
}

#[test]
fn test_parse_two_empty_statements() {
    assert_eq!(parse(";;"), Ok(program(vec![Tree::EmptyStatement, Tree::EmptyStatement])));
}

#[test]
fn test_parse_unterminated_block_names_end_of_input() {
    assert_eq!(parse("{"), syntax("Unexpected token EOF, expected Identifier!"));
    assert_eq!(parse("{ 1;"), syntax("Unexpected token EOF, expected Identifier!"));
    assert_eq!(parse("{ 1"), syntax("Unexpected token EOF, expected SemiColon!"));
}

#[test]
fn test_parse_stray_closing_bracket() {
    assert_eq!(parse("}"), syntax("Unexpected token CurlyBracketClose, expected Identifier!"));
    assert_eq!(parse("1; }"), syntax("Unexpected token CurlyBracketClose, expected Identifier!"));
}

#[test]
fn test_parse_needs_a_statement() {
    assert_eq!(parse(""), syntax("Unexpected token EOF, expected Identifier!"));
    assert_eq!(parse(" \n "), syntax("Unexpected token EOF, expected Identifier!"));
}

#[test]
fn test_parse_ignores_white_space_and_comments() {
    let plain = parse("x=1;{2;}");
    assert_eq!(plain, parse("  x = 1 ;\n{\n\t2 ;\n}\n"));
    assert_eq!(plain, parse("// head\nx = /* in between */ 1; { 2; /* tail */ } // end"));
    assert_eq!(plain, parse("/**/x/**/=/**/1/**/;/**/{/**/2/**/;/**/}/**/"));
    assert_eq!(
        plain,
        Ok(program(vec![
            statement(Tree::AssignmentExpression {
                operator: "=".to_string(),
                left: Box::new(Tree::Identifier { name: "x".to_string() }),
                right: Box::new(number(1.0)),
            }),
            block(vec![statement(number(2.0))]),
        ]))
    );
}

#[test]
fn test_parse_comment_hides_code() {
    assert_eq!(parse("1; // 2;\n3;"), Ok(program(vec![statement(number(1.0)), statement(number(3.0))])));
    assert_eq!(parse("1; /* 2; */ 3;"), Ok(program(vec![statement(number(1.0)), statement(number(3.0))])));
}

#[test]
fn test_block_statement_rule() {
    let mut parser = Parser::new("{ ; } 1".to_string()).unwrap();
    assert_eq!(parser.block_statement(), Ok(block(vec![Tree::EmptyStatement])));
    assert_eq!(parser.lookahead_type(), TokenType::Number);
    assert_eq!(
        parser.block_statement(),
        Err(Error::Syntax("Unexpected token Number, expected CurlyBracketOpen!".to_string()))
    );
}

#[test]
fn test_empty_statement_rule() {
    let mut parser = Parser::new("; x".to_string()).unwrap();
    assert_eq!(parser.empty_statement(), Ok(Tree::EmptyStatement));
    assert_eq!(
        parser.empty_statement(),
        Err(Error::Syntax("Unexpected token Identifier, expected SemiColon!".to_string()))
    );
}

#[test]
fn test_statement_list_stops_before_its_stop() {
    let mut parser = Parser::new("1; 2; } 3;".to_string()).unwrap();
    assert_eq!(
        parser.statement_list(TokenType::CurlyBracketClose),
        Ok(vec![statement(number(1.0)), statement(number(2.0))])
    );
    assert_eq!(parser.lookahead_type(), TokenType::CurlyBracketClose);
}

#[test]
fn test_tree_builders() {
    assert_eq!(Tree::program(vec![Tree::EmptyStatement]), program(vec![Tree::EmptyStatement]));
    assert_eq!(Tree::block(vec![]), block(vec![]));
    assert_eq!(
        Tree::call(number(1.0), vec![number(2.0)]),
        Tree::CallExpression { callee: Box::new(number(1.0)), arguments: Box::new(vec![number(2.0)]) }
    );
}
