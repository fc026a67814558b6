use letter::errors::Error;
use letter::token::{Token, TokenType};
use letter::tokenizer::{leading_lexeme, rule, Tokenizer, RULE_COUNT};

fn token(token_type: TokenType, value: &str) -> Token {
    Token { token_type, value: value.to_string() }
}

fn tokens(source: &str) -> Result<Vec<Token>, Error> {
    let mut tokenizer = Tokenizer::new(source.to_string());
    let mut found = Vec::new();
    while let Some(next) = tokenizer.get_next_token()? {
        found.push(next);
    }
    Ok(found)
}

#[test]
fn test_lex_number_and_string() {
    assert_eq!(
        tokens("42 'Hello' \"World\""),
        Ok(vec![
            token(TokenType::Number, "42"),
            token(TokenType::String, "'Hello'"),
            token(TokenType::String, "\"World\""),
        ])
    );
}

#[test]
fn test_lex_every_kind() {
    assert_eq!(
        tokens("; , . { } ( ) [ ] = += -= *= /= + - * / < > <= >= == != && || ! name _n1 7"),
        Ok(vec![
            token(TokenType::SemiColon, ";"),
            token(TokenType::Comma, ","),
            token(TokenType::Dot, "."),
            token(TokenType::CurlyBracketOpen, "{"),
            token(TokenType::CurlyBracketClose, "}"),
            token(TokenType::ParenthesisOpen, "("),
            token(TokenType::ParenthesisClose, ")"),
            token(TokenType::SquareBracketOpen, "["),
            token(TokenType::SquareBracketClose, "]"),
            token(TokenType::SimpleAssignmentOperator, "="),
            token(TokenType::ComplexAssignmentOperator, "+="),
            token(TokenType::ComplexAssignmentOperator, "-="),
            token(TokenType::ComplexAssignmentOperator, "*="),
            token(TokenType::ComplexAssignmentOperator, "/="),
            token(TokenType::AdditiveOperator, "+"),
            token(TokenType::AdditiveOperator, "-"),
            token(TokenType::MultiplicativeOperator, "*"),
            token(TokenType::MultiplicativeOperator, "/"),
            token(TokenType::RelationalOperator, "<"),
            token(TokenType::RelationalOperator, ">"),
            token(TokenType::RelationalOperator, "<="),
            token(TokenType::RelationalOperator, ">="),
            token(TokenType::EqualityOperator, "=="),
            token(TokenType::EqualityOperator, "!="),
            token(TokenType::LogicalAndOperator, "&&"),
            token(TokenType::LogicalOrOperator, "||"),
            token(TokenType::UnaryOperator, "!"),
            token(TokenType::Identifier, "name"),
            token(TokenType::Identifier, "_n1"),
            token(TokenType::Number, "7"),
        ])
    );
}

#[test]
fn test_lex_without_spaces() {
    assert_eq!(
        tokens("a+=b==c;"),
        Ok(vec![
            token(TokenType::Identifier, "a"),
            token(TokenType::ComplexAssignmentOperator, "+="),
            token(TokenType::Identifier, "b"),
            token(TokenType::EqualityOperator, "=="),
            token(TokenType::Identifier, "c"),
            token(TokenType::SemiColon, ";"),
        ])
    );
}

#[test]
fn test_lex_skips_white_space_and_comments() {
    assert_eq!(
        tokens("  // first\n\t1 /* two\n lines */ 2 /**/ // last"),
        Ok(vec![token(TokenType::Number, "1"), token(TokenType::Number, "2")])
    );
    assert_eq!(tokens("   \n\t "), Ok(vec![]));
    assert_eq!(tokens("// only a comment"), Ok(vec![]));
    assert_eq!(tokens(""), Ok(vec![]));
}

#[test]
fn test_lex_block_comment_ends_at_first_close() {
    assert_eq!(
        tokens("/* a */ 1 /* b */"),
        Ok(vec![token(TokenType::Number, "1")])
    );
    assert_eq!(
        tokens("1; /* c */ 2;"),
        Ok(vec![
            token(TokenType::Number, "1"),
            token(TokenType::SemiColon, ";"),
            token(TokenType::Number, "2"),
            token(TokenType::SemiColon, ";"),
        ])
    );
}

#[test]
fn test_lex_first_rule_wins() {
    // A digit begins a number, so the identifier starts behind the digits.
    assert_eq!(
        tokens("12ab"),
        Ok(vec![token(TokenType::Number, "12"), token(TokenType::Identifier, "ab")])
    );
    // `==` is tried before `=`.
    assert_eq!(
        tokens("==="),
        Ok(vec![
            token(TokenType::EqualityOperator, "=="),
            token(TokenType::SimpleAssignmentOperator, "="),
        ])
    );
}

#[test]
fn test_lex_string_spans_to_last_quote_of_line() {
    assert_eq!(
        tokens("'a' + 'b'\n'c'"),
        Ok(vec![token(TokenType::String, "'a' + 'b'"), token(TokenType::String, "'c'")])
    );
}

#[test]
fn test_lex_text_beyond_ascii() {
    assert_eq!(
        tokens("'h\u{e9}llo' x"),
        Ok(vec![token(TokenType::String, "'h\u{e9}llo'"), token(TokenType::Identifier, "x")])
    );
    assert_eq!(tokens("\u{e9}"), Err(Error::Syntax("Unexpected token: \u{e9}".to_string())));
    assert_eq!(tokens("1 \u{20ac}2"), Err(Error::Syntax("Unexpected token: \u{20ac}".to_string())));
}

#[test]
fn test_lex_unexpected_character() {
    assert_eq!(tokens("42 @"), Err(Error::Syntax("Unexpected token: @".to_string())));
    assert_eq!(tokens("#"), Err(Error::Syntax("Unexpected token: #".to_string())));
    assert_eq!(tokens("\"open"), Err(Error::Syntax("Unexpected token: \"".to_string())));
    assert_eq!(tokens("a & b"), Err(Error::Syntax("Unexpected token: &".to_string())));
}

#[test]
fn test_lex_stays_stuck() {
    let mut tokenizer = Tokenizer::new("1 @ 2".to_string());
    assert_eq!(tokenizer.get_next_token(), Ok(Some(token(TokenType::Number, "1"))));
    let stuck = Err(Error::Syntax("Unexpected token: @".to_string()));
    assert_eq!(tokenizer.get_next_token(), stuck);
    assert_eq!(tokenizer.get_next_token(), stuck);
    assert!(tokenizer.has_tokens());
}

#[test]
fn test_lex_end_is_not_a_failure() {
    let mut tokenizer = Tokenizer::new("x ".to_string());
    assert!(tokenizer.has_tokens());
    assert_eq!(tokenizer.get_next_token(), Ok(Some(token(TokenType::Identifier, "x"))));
    assert!(tokenizer.has_tokens());
    assert_eq!(tokenizer.get_next_token(), Ok(None));
    assert!(!tokenizer.has_tokens());
    assert_eq!(tokenizer.get_next_token(), Ok(None));
}

#[test]
fn test_lex_same_text_same_tokens() {
    let source = "x = y + 42; // note\n{ 'text'; }";
    assert_eq!(tokens(source), tokens(source));
}

#[test]
fn test_lex_again_from_each_boundary() {
    let source = "x = y + 42; /* note */ { 'text'; }";
    let all = tokens(source).unwrap();
    let mut tokenizer = Tokenizer::new(source.to_string());
    let mut rest = source;
    for count in 0..all.len() {
        assert_eq!(tokens(rest), Ok(all[count..].to_vec()));
        let next = tokenizer.get_next_token().unwrap().unwrap();
        let start = rest.find(next.value.as_str()).unwrap();
        rest = &rest[start + next.value.len()..];
    }
    assert_eq!(tokens(rest), Ok(vec![]));
}

#[test]
fn test_leading_lexeme() {
    assert_eq!(leading_lexeme("abc", Some((0, 3))), Some(3));
    assert_eq!(leading_lexeme("abc", Some((0, 1))), Some(1));
    assert_eq!(leading_lexeme("abc", None), None);
    // A match that begins behind the start is no lexeme.
    assert_eq!(leading_lexeme("abc", Some((1, 3))), None);
    // Nor is an empty match, or one that ends beyond the text.
    assert_eq!(leading_lexeme("abc", Some((0, 0))), None);
    assert_eq!(leading_lexeme("abc", Some((0, 4))), None);
    assert_eq!(leading_lexeme("", Some((0, 0))), None);
    // Nor one that ends inside a character.
    assert_eq!(leading_lexeme("\u{e9}a", Some((0, 1))), None);
    assert_eq!(leading_lexeme("\u{e9}a", Some((0, 2))), Some(2));
    assert_eq!(leading_lexeme("\u{e9}a", Some((0, 3))), Some(3));
}

#[test]
fn test_rule_table() {
    assert_eq!(RULE_COUNT, 25);
    assert_eq!(rule(0), (None, r"^\s+"));
    assert_eq!(rule(1), (None, r"^//.*"));
    assert_eq!(rule(2), (None, r"^/\*[\s\S]*?\*/"));
    assert_eq!(rule(12), (Some(TokenType::Number), r"^\d+"));
    assert_eq!(rule(23), (Some(TokenType::String), "^\".*\""));
    assert_eq!(rule(24), (Some(TokenType::String), "^'.*'"));
    for index in 3..RULE_COUNT {
        let (kind, _) = rule(index);
        assert!(kind.is_some());
        assert_ne!(kind, Some(TokenType::EOF));
    }
}
