use vstd::prelude::*;

verus! {

/// The kind of a token. Every token has exactly one kind, and the kind decides
/// which grammar rules may consume it.
#[derive(Debug, PartialEq, Eq, Clone, Copy, Structural)]
pub enum TokenType {
    Number,
    String,
    Identifier,
    SemiColon,
    Comma,
    Dot,
    CurlyBracketOpen,
    CurlyBracketClose,
    ParenthesisOpen,
    ParenthesisClose,
    SquareBracketOpen,
    SquareBracketClose,
    SimpleAssignmentOperator,
    ComplexAssignmentOperator,
    AdditiveOperator,
    MultiplicativeOperator,
    RelationalOperator,
    EqualityOperator,
    LogicalAndOperator,
    LogicalOrOperator,
    UnaryOperator,
    EOF,
}

impl TokenType {
    /// The name of the kind as it appears in messages.
    pub open spec fn spec_name(self) -> Seq<char> {
        match self {
            TokenType::Number => "Number"@,
            TokenType::String => "String"@,
            TokenType::Identifier => "Identifier"@,
            TokenType::SemiColon => "SemiColon"@,
            TokenType::Comma => "Comma"@,
            TokenType::Dot => "Dot"@,
            TokenType::CurlyBracketOpen => "CurlyBracketOpen"@,
            TokenType::CurlyBracketClose => "CurlyBracketClose"@,
            TokenType::ParenthesisOpen => "ParenthesisOpen"@,
            TokenType::ParenthesisClose => "ParenthesisClose"@,
            TokenType::SquareBracketOpen => "SquareBracketOpen"@,
            TokenType::SquareBracketClose => "SquareBracketClose"@,
            TokenType::SimpleAssignmentOperator => "SimpleAssignmentOperator"@,
            TokenType::ComplexAssignmentOperator => "ComplexAssignmentOperator"@,
            TokenType::AdditiveOperator => "AdditiveOperator"@,
            TokenType::MultiplicativeOperator => "MultiplicativeOperator"@,
            TokenType::RelationalOperator => "RelationalOperator"@,
            TokenType::EqualityOperator => "EqualityOperator"@,
            TokenType::LogicalAndOperator => "LogicalAndOperator"@,
            TokenType::LogicalOrOperator => "LogicalOrOperator"@,
            TokenType::UnaryOperator => "UnaryOperator"@,
            TokenType::EOF => "EOF"@,
        }
    }

    /// The name of the kind as it appears in messages.
    pub fn name(self) -> (text: &'static str)
        ensures
            text@ == self.spec_name(),
    {
        match self {
            TokenType::Number => "Number",
            TokenType::String => "String",
            TokenType::Identifier => "Identifier",
            TokenType::SemiColon => "SemiColon",
            TokenType::Comma => "Comma",
            TokenType::Dot => "Dot",
            TokenType::CurlyBracketOpen => "CurlyBracketOpen",
            TokenType::CurlyBracketClose => "CurlyBracketClose",
            TokenType::ParenthesisOpen => "ParenthesisOpen",
            TokenType::ParenthesisClose => "ParenthesisClose",
            TokenType::SquareBracketOpen => "SquareBracketOpen",
            TokenType::SquareBracketClose => "SquareBracketClose",
            TokenType::SimpleAssignmentOperator => "SimpleAssignmentOperator",
            TokenType::ComplexAssignmentOperator => "ComplexAssignmentOperator",
            TokenType::AdditiveOperator => "AdditiveOperator",
            TokenType::MultiplicativeOperator => "MultiplicativeOperator",
            TokenType::RelationalOperator => "RelationalOperator",
            TokenType::EqualityOperator => "EqualityOperator",
            TokenType::LogicalAndOperator => "LogicalAndOperator",
            TokenType::LogicalOrOperator => "LogicalOrOperator",
            TokenType::UnaryOperator => "UnaryOperator",
            TokenType::EOF => "EOF",
        }
    }
}

/// A classified piece of the source text. It does not change once the lexer
/// has produced it.
#[derive(Debug, PartialEq, Eq, Clone)]
pub struct Token {
    pub token_type: TokenType,
    pub value: String,
}

/// The mathematical value of a [`Token`]: its kind and the characters it spans.
pub struct Lexeme {
    pub kind: TokenType,
    pub text: Seq<char>,
}

impl View for Token {
    type V = Lexeme;

    open spec fn view(&self) -> Lexeme {
        Lexeme { kind: self.token_type, text: self.value@ }
    }
}

impl Lexeme {
    /// The marker that stands for the end of the input.
    pub open spec fn end() -> Lexeme {
        Lexeme { kind: TokenType::EOF, text: Seq::empty() }
    }
}

impl Token {
    /// The marker that stands for the end of the input.
    pub fn end() -> (token: Token)
        ensures
            token@ == Lexeme::end(),
    {
        Token { token_type: TokenType::EOF, value: String::new() }
    }

    /// A copy of the token.
    pub fn duplicate(&self) -> (token: Token)
        ensures
            token@ == self@,
    {
        Token { token_type: self.token_type, value: self.value.clone() }
    }
}

} // verus!
