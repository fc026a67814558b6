use letter::errors::Error;
use letter::token::{Token, TokenType};

#[test]
fn test_error_text() {
    let syntax = Error::Syntax("no".to_string());
    let runtime = Error::Runtime("division".to_string());
    assert_eq!(syntax.describe(), "SyntaxError: no");
    assert_eq!(runtime.describe(), "RuntimeError: division");
    assert_eq!(syntax.message(), "no");
    assert_eq!(runtime.message(), "division");
    assert_ne!(Error::Syntax("x".to_string()), Error::Runtime("x".to_string()));
}

#[test]
fn test_token_names() {
    assert_eq!(TokenType::EOF.name(), "EOF");
    assert_eq!(TokenType::Identifier.name(), "Identifier");
    assert_eq!(TokenType::SemiColon.name(), "SemiColon");
    assert_eq!(TokenType::CurlyBracketOpen.name(), "CurlyBracketOpen");
    assert_eq!(TokenType::ComplexAssignmentOperator.name(), "ComplexAssignmentOperator");
    let all = [
        TokenType::Number,
        TokenType::String,
        TokenType::Identifier,
        TokenType::SemiColon,
        TokenType::Comma,
        TokenType::Dot,
        TokenType::CurlyBracketOpen,
        TokenType::CurlyBracketClose,
        TokenType::ParenthesisOpen,
        TokenType::ParenthesisClose,
        TokenType::SquareBracketOpen,
        TokenType::SquareBracketClose,
        TokenType::SimpleAssignmentOperator,
        TokenType::ComplexAssignmentOperator,
        TokenType::AdditiveOperator,
        TokenType::MultiplicativeOperator,
        TokenType::RelationalOperator,
        TokenType::EqualityOperator,
        TokenType::LogicalAndOperator,
        TokenType::LogicalOrOperator,
        TokenType::UnaryOperator,
        TokenType::EOF,
    ];
    for kind in all {
        assert_eq!(kind.name(), format!("{:?}", kind));
    }
}

#[test]
fn test_end_token() {
    let end = Token::end();
    assert_eq!(end, Token { token_type: TokenType::EOF, value: String::new() });
    assert_eq!(end.duplicate(), end);
    let word = Token { token_type: TokenType::Identifier, value: "word".to_string() };
    assert_eq!(word.duplicate(), word);
}
