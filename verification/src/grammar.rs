use vstd::prelude::*;
use crate::errors::Failure;
use crate::stream::{
    advanced, eat, lemma_skipped_text_leaves_no_token, stream, Step, Stream,
};
use crate::token::{Lexeme, TokenType};
use crate::tokenizer::{first_rule, rule_kind, unexpected_character};
use crate::tree::{Node, Tree};

verus! {

/// A level of binary operators. The levels are listed from the one that binds
/// loosest to the one that binds tightest.
#[derive(Debug, PartialEq, Eq, Clone, Copy, Structural)]
pub enum Precedence {
    LogicalOr,
    LogicalAnd,
    Equality,
    Relational,
    Additive,
    Multiplicative,
}

impl Precedence {
    /// The kind of the operator tokens of the level.
    pub open spec fn operator(self) -> TokenType {
        match self {
            Precedence::LogicalOr => TokenType::LogicalOrOperator,
            Precedence::LogicalAnd => TokenType::LogicalAndOperator,
            Precedence::Equality => TokenType::EqualityOperator,
            Precedence::Relational => TokenType::RelationalOperator,
            Precedence::Additive => TokenType::AdditiveOperator,
            Precedence::Multiplicative => TokenType::MultiplicativeOperator,
        }
    }

    /// The level that binds next tighter, `None` for the tightest.
    pub open spec fn tighter(self) -> Option<Precedence> {
        match self {
            Precedence::LogicalOr => Some(Precedence::LogicalAnd),
            Precedence::LogicalAnd => Some(Precedence::Equality),
            Precedence::Equality => Some(Precedence::Relational),
            Precedence::Relational => Some(Precedence::Additive),
            Precedence::Additive => Some(Precedence::Multiplicative),
            Precedence::Multiplicative => None,
        }
    }

    /// The number of levels that bind tighter.
    pub open spec fn depth(self) -> nat {
        match self {
            Precedence::LogicalOr => 5,
            Precedence::LogicalAnd => 4,
            Precedence::Equality => 3,
            Precedence::Relational => 2,
            Precedence::Additive => 1,
            Precedence::Multiplicative => 0,
        }
    }

    /// The node for `left operator right` at this level: a logical expression
    /// at the two logical levels, a binary expression at the others.
    pub open spec fn node(self, operator: Seq<char>, left: Node, right: Node) -> Node {
        match self {
            Precedence::LogicalOr | Precedence::LogicalAnd => Node::LogicalExpression {
                operator,
                left: Box::new(left),
                right: Box::new(right),
            },
            _ => Node::BinaryExpression { operator, left: Box::new(left), right: Box::new(right) },
        }
    }
}

impl Precedence {
    /// The kind of the operator tokens of the level.
    pub fn operator_type(self) -> (kind: TokenType)
        ensures
            kind == self.operator(),
    {
        match self {
            Precedence::LogicalOr => TokenType::LogicalOrOperator,
            Precedence::LogicalAnd => TokenType::LogicalAndOperator,
            Precedence::Equality => TokenType::EqualityOperator,
            Precedence::Relational => TokenType::RelationalOperator,
            Precedence::Additive => TokenType::AdditiveOperator,
            Precedence::Multiplicative => TokenType::MultiplicativeOperator,
        }
    }

    /// The level that binds next tighter, `None` for the tightest.
    pub fn next(self) -> (level: Option<Precedence>)
        ensures
            level == self.tighter(),
    {
        match self {
            Precedence::LogicalOr => Some(Precedence::LogicalAnd),
            Precedence::LogicalAnd => Some(Precedence::Equality),
            Precedence::Equality => Some(Precedence::Relational),
            Precedence::Relational => Some(Precedence::Additive),
            Precedence::Additive => Some(Precedence::Multiplicative),
            Precedence::Multiplicative => None,
        }
    }

    /// The tree for `left operator right` at this level.
    pub fn build(self, operator: String, left: Tree, right: Tree) -> (tree: Tree)
        ensures
            tree@ == self.node(operator@, left@, right@),
    {
        match self {
            Precedence::LogicalOr | Precedence::LogicalAnd => Tree::LogicalExpression {
                operator,
                left: Box::new(left),
                right: Box::new(right),
            },
            _ => Tree::BinaryExpression { operator, left: Box::new(left), right: Box::new(right) },
        }
    }
}

/// The message of the failure at an assignment whose left side is no
/// identifier.
pub open spec fn invalid_assignment_target() -> Seq<char> {
    "Invalid left-hand side in assignment expression, expected Identifier!"@
}

/// Whether a token of this kind is an assignment operator, simple or complex.
pub open spec fn is_assignment_operator(kind: TokenType) -> bool {
    kind == TokenType::SimpleAssignmentOperator || kind == TokenType::ComplexAssignmentOperator
}

/// AssignmentOperator: a simple or a complex assignment operator.
pub open spec fn assignment_operator(s: Stream) -> Step<Lexeme> {
    if s.lookahead().kind == TokenType::SimpleAssignmentOperator {
        eat(s, TokenType::SimpleAssignmentOperator)
    } else {
        eat(s, TokenType::ComplexAssignmentOperator)
    }
}

/// Only an identifier can stand on the left of an assignment.
pub open spec fn check_valid_assignment_target(node: Node) -> Result<Node, Failure> {
    if node is Identifier {
        Ok(node)
    } else {
        Err(Failure::Syntax(invalid_assignment_target()))
    }
}

/// The text of a string token without the quote at each end.
pub open spec fn unquote(text: Seq<char>) -> Seq<char> {
    if text.len() >= 2 {
        text.subrange(1, text.len() - 1)
    } else {
        Seq::empty()
    }
}

/// NumericLiteral: a number token. The node keeps its digits.
pub open spec fn numeric_literal(s: Stream) -> Step<Node> {
    let token = eat(s, TokenType::Number);
    match token.outcome {
        Err(failure) => Step { outcome: Err(failure), rest: token.rest },
        Ok(number) => Step {
            outcome: Ok(Node::NumericLiteral { value: number.text }),
            rest: token.rest,
        },
    }
}

/// StringLiteral: a string token. The node keeps what stands between the
/// quotes.
pub open spec fn string_literal(s: Stream) -> Step<Node> {
    let token = eat(s, TokenType::String);
    match token.outcome {
        Err(failure) => Step { outcome: Err(failure), rest: token.rest },
        Ok(string) => Step {
            outcome: Ok(Node::StringLiteral { value: unquote(string.text) }),
            rest: token.rest,
        },
    }
}

/// Identifier: an identifier token.
pub open spec fn identifier(s: Stream) -> Step<Node> {
    let token = eat(s, TokenType::Identifier);
    match token.outcome {
        Err(failure) => Step { outcome: Err(failure), rest: token.rest },
        Ok(name) => Step { outcome: Ok(Node::Identifier { name: name.text }), rest: token.rest },
    }
}

/// Expression: an assignment expression.
pub open spec fn expression(s: Stream) -> Step<Node>
    decreases s.tokens.len(), 22nat,
{
    assignment_expression(s)
}

/// AssignmentExpression: a logical-or expression, or an identifier, an
/// assignment operator and an assignment expression. Assignment associates to
/// the right. The left side is checked when the operator has been consumed and
/// before the right side is parsed.
pub open spec fn assignment_expression(s: Stream) -> Step<Node>
    decreases s.tokens.len(), 21nat,
{
    let left = binary_expression(Precedence::LogicalOr, s);
    match left.outcome {
        Err(_) => left,
        Ok(target) => if !is_assignment_operator(left.rest.lookahead().kind)
            || left.rest.tokens.len() > s.tokens.len() {
            left
        } else {
            let sign = assignment_operator(left.rest);
            match sign.outcome {
                Err(failure) => Step { outcome: Err(failure), rest: sign.rest },
                Ok(operator) => match check_valid_assignment_target(target) {
                    Err(failure) => Step { outcome: Err(failure), rest: sign.rest },
                    Ok(_) => {
                        let right = assignment_expression(sign.rest);
                        match right.outcome {
                            Err(_) => right,
                            Ok(value) => Step {
                                outcome: Ok(
                                    Node::AssignmentExpression {
                                        operator: operator.text,
                                        left: Box::new(target),
                                        right: Box::new(value),
                                    },
                                ),
                                rest: right.rest,
                            },
                        }
                    },
                },
            }
        },
    }
}

/// A chain of operands of one level, joined by the operators of that level.
/// The chain associates to the left.
pub open spec fn binary_expression(level: Precedence, s: Stream) -> Step<Node>
    decreases s.tokens.len(), 2 * level.depth() + 10,
{
    let first = operand(level, s);
    match first.outcome {
        Err(_) => first,
        Ok(left) => if first.rest.tokens.len() <= s.tokens.len() {
            binary_tail(level, left, first.rest)
        } else {
            first
        },
    }
}

/// An operand of a level: a chain of the next tighter level, and a unary
/// expression at the tightest.
pub open spec fn operand(level: Precedence, s: Stream) -> Step<Node>
    decreases s.tokens.len(), 2 * level.depth() + 9,
{
    match level.tighter() {
        Some(next) => binary_expression(next, s),
        None => unary_expression(s),
    }
}

/// What follows the first operand of a chain, `left` being what the chain has
/// come to so far: as long as an operator of the level is next, it and one more
/// operand are folded into `left`.
pub open spec fn binary_tail(level: Precedence, left: Node, s: Stream) -> Step<Node>
    decreases s.tokens.len(), 0nat,
{
    if s.lookahead().kind != level.operator() {
        Step { outcome: Ok(left), rest: s }
    } else {
        let sign = eat(s, level.operator());
        match sign.outcome {
            Err(failure) => Step { outcome: Err(failure), rest: sign.rest },
            Ok(operator) => {
                let second = operand(level, sign.rest);
                match second.outcome {
                    Err(_) => second,
                    Ok(right) => if second.rest.tokens.len() <= sign.rest.tokens.len() {
                        binary_tail(level, level.node(operator.text, left, right), second.rest)
                    } else {
                        second
                    },
                }
            },
        }
    }
}

/// UnaryExpression: a left-hand-side expression, with at most one of `+`, `-`
/// and `!` in front of it.
pub open spec fn unary_expression(s: Stream) -> Step<Node>
    decreases s.tokens.len(), 8nat,
{
    if s.lookahead().kind == TokenType::AdditiveOperator || s.lookahead().kind
        == TokenType::UnaryOperator {
        let sign = eat(s, s.lookahead().kind);
        match sign.outcome {
            Err(failure) => Step { outcome: Err(failure), rest: sign.rest },
            Ok(operator) => {
                let inner = left_hand_side_expression(sign.rest);
                match inner.outcome {
                    Err(_) => inner,
                    Ok(argument) => Step {
                        outcome: Ok(
                            Node::UnaryExpression {
                                operator: operator.text,
                                argument: Box::new(argument),
                            },
                        ),
                        rest: inner.rest,
                    },
                }
            },
        }
    } else {
        left_hand_side_expression(s)
    }
}

/// LeftHandSideExpression: a call or member expression.
pub open spec fn left_hand_side_expression(s: Stream) -> Step<Node>
    decreases s.tokens.len(), 7nat,
{
    call_member_expression(s)
}

/// CallOrMemberExpression: a primary expression, then any number of member
/// accesses and calls.
pub open spec fn call_member_expression(s: Stream) -> Step<Node>
    decreases s.tokens.len(), 6nat,
{
    let first = primary_expression(s);
    match first.outcome {
        Err(_) => first,
        Ok(base) => if first.rest.tokens.len() <= s.tokens.len() {
            member_tail(base, first.rest)
        } else {
            first
        },
    }
}

/// What follows the primary expression of a call or member expression,
/// `object` being what has been built so far: `.name`, `[expression]` and
/// `(arguments)`, each folded into `object`, as long as one of them is next.
pub open spec fn member_tail(object: Node, s: Stream) -> Step<Node>
    decreases s.tokens.len(), 0nat,
{
    if s.lookahead().kind == TokenType::Dot {
        let dot = eat(s, TokenType::Dot);
        match dot.outcome {
            Err(failure) => Step { outcome: Err(failure), rest: dot.rest },
            Ok(_) => {
                let name = identifier(dot.rest);
                match name.outcome {
                    Err(_) => name,
                    Ok(property) => member_tail(
                        Node::MemberExpression {
                            object: Box::new(object),
                            property: Box::new(property),
                            computed: false,
                        },
                        name.rest,
                    ),
                }
            },
        }
    } else if s.lookahead().kind == TokenType::SquareBracketOpen {
        let open = eat(s, TokenType::SquareBracketOpen);
        match open.outcome {
            Err(failure) => Step { outcome: Err(failure), rest: open.rest },
            Ok(_) => {
                let index = expression(open.rest);
                match index.outcome {
                    Err(_) => index,
                    Ok(property) => {
                        let close = eat(index.rest, TokenType::SquareBracketClose);
                        match close.outcome {
                            Err(failure) => Step { outcome: Err(failure), rest: close.rest },
                            Ok(_) => {
                                let member = Node::MemberExpression {
                                    object: Box::new(object),
                                    property: Box::new(property),
                                    computed: true,
                                };
                                if close.rest.tokens.len() < s.tokens.len() {
                                    member_tail(member, close.rest)
                                } else {
                                    Step { outcome: Ok(member), rest: close.rest }
                                }
                            },
                        }
                    },
                }
            },
        }
    } else if s.lookahead().kind == TokenType::ParenthesisOpen {
        let open = eat(s, TokenType::ParenthesisOpen);
        match open.outcome {
            Err(failure) => Step { outcome: Err(failure), rest: open.rest },
            Ok(_) => {
                let list = arguments(open.rest);
                match list.outcome {
                    Err(failure) => Step { outcome: Err(failure), rest: list.rest },
                    Ok(values) => {
                        let close = eat(list.rest, TokenType::ParenthesisClose);
                        match close.outcome {
                            Err(failure) => Step { outcome: Err(failure), rest: close.rest },
                            Ok(_) => {
                                let call = Node::CallExpression {
                                    callee: Box::new(object),
                                    arguments: values,
                                };
                                if close.rest.tokens.len() < s.tokens.len() {
                                    member_tail(call, close.rest)
                                } else {
                                    Step { outcome: Ok(call), rest: close.rest }
                                }
                            },
                        }
                    },
                }
            },
        }
    } else {
        Step { outcome: Ok(object), rest: s }
    }
}

/// Arguments: what stands between the parentheses of a call, which may be
/// nothing.
pub open spec fn arguments(s: Stream) -> Step<Seq<Node>>
    decreases s.tokens.len(), 24nat,
{
    if s.lookahead().kind == TokenType::ParenthesisClose {
        Step { outcome: Ok(Seq::empty()), rest: s }
    } else {
        argument_list(Seq::empty(), s)
    }
}

/// ArgumentList: assignment expressions with a comma between each two. `done`
/// holds the arguments that stand before the stream.
pub open spec fn argument_list(done: Seq<Node>, s: Stream) -> Step<Seq<Node>>
    decreases s.tokens.len(), 23nat,
{
    let next = assignment_expression(s);
    match next.outcome {
        Err(failure) => Step { outcome: Err(failure), rest: next.rest },
        Ok(argument) => if next.rest.lookahead().kind != TokenType::Comma
            || next.rest.tokens.len() > s.tokens.len() {
            Step { outcome: Ok(done.push(argument)), rest: next.rest }
        } else {
            let comma = eat(next.rest, TokenType::Comma);
            match comma.outcome {
                Err(failure) => Step { outcome: Err(failure), rest: comma.rest },
                Ok(_) => argument_list(done.push(argument), comma.rest),
            }
        },
    }
}

/// PrimaryExpression: a literal, an expression in parentheses, or an
/// identifier. Whatever begins none of the others is taken for an identifier.
pub open spec fn primary_expression(s: Stream) -> Step<Node>
    decreases s.tokens.len(), 5nat,
{
    match s.lookahead().kind {
        TokenType::Number => numeric_literal(s),
        TokenType::String => string_literal(s),
        TokenType::ParenthesisOpen => parenthesized_expression(s),
        _ => identifier(s),
    }
}

/// ParenthesizedExpression: an expression between `(` and `)`. The parentheses
/// leave no node of their own.
pub open spec fn parenthesized_expression(s: Stream) -> Step<Node>
    decreases s.tokens.len(), 4nat,
{
    let open = eat(s, TokenType::ParenthesisOpen);
    match open.outcome {
        Err(failure) => Step { outcome: Err(failure), rest: open.rest },
        Ok(_) => {
            let inner = expression(open.rest);
            match inner.outcome {
                Err(_) => inner,
                Ok(node) => {
                    let close = eat(inner.rest, TokenType::ParenthesisClose);
                    match close.outcome {
                        Err(failure) => Step { outcome: Err(failure), rest: close.rest },
                        Ok(_) => Step { outcome: Ok(node), rest: close.rest },
                    }
                },
            }
        },
    }
}

/// EmptyStatement: a semicolon.
pub open spec fn empty_statement(s: Stream) -> Step<Node> {
    let token = eat(s, TokenType::SemiColon);
    match token.outcome {
        Err(failure) => Step { outcome: Err(failure), rest: token.rest },
        Ok(_) => Step { outcome: Ok(Node::EmptyStatement), rest: token.rest },
    }
}

/// ExpressionStatement: an expression and a semicolon.
pub open spec fn expression_statement(s: Stream) -> Step<Node> {
    let inner = expression(s);
    match inner.outcome {
        Err(_) => inner,
        Ok(node) => {
            let token = eat(inner.rest, TokenType::SemiColon);
            match token.outcome {
                Err(failure) => Step { outcome: Err(failure), rest: token.rest },
                Ok(_) => Step {
                    outcome: Ok(Node::ExpressionStatement { expression: Box::new(node) }),
                    rest: token.rest,
                },
            }
        },
    }
}

/// Statement: a block where `{` is next, an empty statement where `;` is next,
/// and an expression statement otherwise.
pub open spec fn statement(s: Stream) -> Step<Node>
    decreases s.tokens.len(), 2nat,
{
    match s.lookahead().kind {
        TokenType::SemiColon => empty_statement(s),
        TokenType::CurlyBracketOpen => block_statement(s),
        _ => expression_statement(s),
    }
}

/// BlockStatement: `{`, a statement list unless `}` comes next, and `}`.
pub open spec fn block_statement(s: Stream) -> Step<Node>
    decreases s.tokens.len(), 1nat,
{
    let open = eat(s, TokenType::CurlyBracketOpen);
    match open.outcome {
        Err(failure) => Step { outcome: Err(failure), rest: open.rest },
        Ok(_) => {
            let list = if open.rest.lookahead().kind == TokenType::CurlyBracketClose {
                Step { outcome: Ok(Seq::empty()), rest: open.rest }
            } else {
                statement_list(open.rest, TokenType::CurlyBracketClose)
            };
            match list.outcome {
                Err(failure) => Step { outcome: Err(failure), rest: list.rest },
                Ok(body) => {
                    let close = eat(list.rest, TokenType::CurlyBracketClose);
                    match close.outcome {
                        Err(failure) => Step { outcome: Err(failure), rest: close.rest },
                        Ok(_) => Step {
                            outcome: Ok(Node::BlockStatement { body }),
                            rest: close.rest,
                        },
                    }
                },
            }
        },
    }
}

/// StatementList: one statement, and then statements until a token of kind
/// `stop` is next. The list does not consume that token.
pub open spec fn statement_list(s: Stream, stop: TokenType) -> Step<Seq<Node>>
    decreases s.tokens.len(), 4nat,
{
    statements(Seq::empty(), s, stop)
}

/// The rest of a statement list, `done` holding the statements that stand
/// before the stream.
pub open spec fn statements(done: Seq<Node>, s: Stream, stop: TokenType) -> Step<Seq<Node>>
    decreases s.tokens.len(), 3nat,
{
    let next = statement(s);
    match next.outcome {
        Err(failure) => Step { outcome: Err(failure), rest: next.rest },
        Ok(node) => if next.rest.lookahead().kind == stop || next.rest.tokens.len()
            >= s.tokens.len() {
            Step { outcome: Ok(done.push(node)), rest: next.rest }
        } else {
            statements(done.push(node), next.rest, stop)
        },
    }
}

/// Program: a statement list that ends where the input ends.
pub open spec fn program(s: Stream) -> Step<Node> {
    let list = statement_list(s, TokenType::EOF);
    match list.outcome {
        Err(failure) => Step { outcome: Err(failure), rest: list.rest },
        Ok(body) => Step { outcome: Ok(Node::Program { body }), rest: list.rest },
    }
}

/// The result of parsing a whole text, given in its UTF-8 form: the failure of
/// the lexer where it has no first token, and else the program that the tokens
/// make, or the first failure on the way.
pub open spec fn parse_source(bytes: Seq<u8>) -> Result<Node, Failure> {
    if !stream(bytes).ready() {
        Err(Failure::Syntax(unexpected_character(stream(bytes).stop->0)))
    } else {
        program(stream(bytes)).outcome
    }
}

/// An expression never gives tokens back, and where it succeeds it has
/// consumed at least one. With the lemmas that follow, one for each rule, this
/// shows that the comparisons of lengths in the rules above always hold: they
/// are there to make the definitions well-founded and change no result.
pub proof fn lemma_expression_advances(s: Stream)
    ensures
        advanced(s, expression(s).rest, expression(s).outcome is Ok),
    decreases s.tokens.len(), 22nat,
{
    lemma_assignment_expression_advances(s);
}

/// The same of an assignment expression.
pub proof fn lemma_assignment_expression_advances(s: Stream)
    ensures
        advanced(
            s,
            assignment_expression(s).rest,
            assignment_expression(s).outcome is Ok,
        ),
    decreases s.tokens.len(), 21nat,
{
    lemma_binary_expression_advances(Precedence::LogicalOr, s);
    let left = binary_expression(Precedence::LogicalOr, s);
    if left.outcome is Ok && is_assignment_operator(left.rest.lookahead().kind) {
        let sign = assignment_operator(left.rest);
        if sign.outcome is Ok {
            lemma_assignment_expression_advances(sign.rest);
        }
    }
}

/// The same of a chain of binary operators, at every level.
pub proof fn lemma_binary_expression_advances(level: Precedence, s: Stream)
    ensures
        advanced(
            s,
            binary_expression(level, s).rest,
            binary_expression(level, s).outcome is Ok,
        ),
    decreases s.tokens.len(), 2 * level.depth() + 10,
{
    lemma_operand_advances(level, s);
    let first = operand(level, s);
    if first.outcome is Ok {
        lemma_binary_tail_advances(level, first.outcome->Ok_0, first.rest);
    }
}

/// The same of an operand of a chain.
pub proof fn lemma_operand_advances(level: Precedence, s: Stream)
    ensures
        advanced(s, operand(level, s).rest, operand(level, s).outcome is Ok),
    decreases s.tokens.len(), 2 * level.depth() + 9,
{
    match level.tighter() {
        Some(next) => lemma_binary_expression_advances(next, s),
        None => lemma_unary_expression_advances(s),
    }
}

/// What follows the first operand of a chain never gives tokens back. It may
/// consume none: a chain can end at once.
pub proof fn lemma_binary_tail_advances(level: Precedence, left: Node, s: Stream)
    ensures
        binary_tail(level, left, s).rest.tokens.len() <= s.tokens.len(),
    decreases s.tokens.len(), 0nat,
{
    if s.lookahead().kind == level.operator() {
        let sign = eat(s, level.operator());
        if sign.outcome is Ok {
            lemma_operand_advances(level, sign.rest);
            let second = operand(level, sign.rest);
            if second.outcome is Ok {
                lemma_binary_tail_advances(
                    level,
                    level.node(sign.outcome->Ok_0.text, left, second.outcome->Ok_0),
                    second.rest,
                );
            }
        }
    }
}

/// The same of a unary expression.
pub proof fn lemma_unary_expression_advances(s: Stream)
    ensures
        advanced(s, unary_expression(s).rest, unary_expression(s).outcome is Ok),
    decreases s.tokens.len(), 8nat,
{
    if s.lookahead().kind == TokenType::AdditiveOperator || s.lookahead().kind
        == TokenType::UnaryOperator {
        let sign = eat(s, s.lookahead().kind);
        if sign.outcome is Ok {
            lemma_left_hand_side_expression_advances(sign.rest);
        }
    } else {
        lemma_left_hand_side_expression_advances(s);
    }
}

/// The same of a left-hand-side expression.
pub proof fn lemma_left_hand_side_expression_advances(s: Stream)
    ensures
        advanced(
            s,
            left_hand_side_expression(s).rest,
            left_hand_side_expression(s).outcome is Ok,
        ),
    decreases s.tokens.len(), 7nat,
{
    lemma_call_member_expression_advances(s);
}

/// The same of a call or member expression.
pub proof fn lemma_call_member_expression_advances(s: Stream)
    ensures
        advanced(
            s,
            call_member_expression(s).rest,
            call_member_expression(s).outcome is Ok,
        ),
    decreases s.tokens.len(), 6nat,
{
    lemma_primary_expression_advances(s);
    let first = primary_expression(s);
    if first.outcome is Ok {
        lemma_member_tail_advances(first.outcome->Ok_0, first.rest);
    }
}

/// What follows the primary expression of a call or member expression never
/// gives tokens back. It may consume none.
pub proof fn lemma_member_tail_advances(object: Node, s: Stream)
    ensures
        member_tail(object, s).rest.tokens.len() <= s.tokens.len(),
    decreases s.tokens.len(), 0nat,
{
    if s.lookahead().kind == TokenType::Dot {
        let dot = eat(s, TokenType::Dot);
        if dot.outcome is Ok {
            let name = identifier(dot.rest);
            if name.outcome is Ok {
                lemma_member_tail_advances(
                    Node::MemberExpression {
                        object: Box::new(object),
                        property: Box::new(name.outcome->Ok_0),
                        computed: false,
                    },
                    name.rest,
                );
            }
        }
    } else if s.lookahead().kind == TokenType::SquareBracketOpen {
        let open = eat(s, TokenType::SquareBracketOpen);
        if open.outcome is Ok {
            lemma_expression_advances(open.rest);
            let index = expression(open.rest);
            if index.outcome is Ok {
                let close = eat(index.rest, TokenType::SquareBracketClose);
                if close.outcome is Ok {
                    lemma_member_tail_advances(
                        Node::MemberExpression {
                            object: Box::new(object),
                            property: Box::new(index.outcome->Ok_0),
                            computed: true,
                        },
                        close.rest,
                    );
                }
            }
        }
    } else if s.lookahead().kind == TokenType::ParenthesisOpen {
        let open = eat(s, TokenType::ParenthesisOpen);
        if open.outcome is Ok {
            lemma_arguments_advances(open.rest);
            let list = arguments(open.rest);
            if list.outcome is Ok {
                let close = eat(list.rest, TokenType::ParenthesisClose);
                if close.outcome is Ok {
                    lemma_member_tail_advances(
                        Node::CallExpression {
                            callee: Box::new(object),
                            arguments: list.outcome->Ok_0,
                        },
                        close.rest,
                    );
                }
            }
        }
    }
}

/// The arguments of a call never give tokens back. They may consume none: a
/// call can have no arguments.
pub proof fn lemma_arguments_advances(s: Stream)
    ensures
        arguments(s).rest.tokens.len() <= s.tokens.len(),
    decreases s.tokens.len(), 24nat,
{
    if s.lookahead().kind != TokenType::ParenthesisClose {
        lemma_argument_list_advances(Seq::empty(), s);
    }
}

/// An argument list never gives tokens back, and where it succeeds it has
/// consumed at least one.
pub proof fn lemma_argument_list_advances(done: Seq<Node>, s: Stream)
    ensures
        advanced(s, argument_list(done, s).rest, argument_list(done, s).outcome is Ok),
    decreases s.tokens.len(), 23nat,
{
    lemma_assignment_expression_advances(s);
    let next = assignment_expression(s);
    if next.outcome is Ok && next.rest.lookahead().kind == TokenType::Comma {
        let comma = eat(next.rest, TokenType::Comma);
        if comma.outcome is Ok {
            lemma_argument_list_advances(done.push(next.outcome->Ok_0), comma.rest);
        }
    }
}

/// The same of a primary expression.
pub proof fn lemma_primary_expression_advances(s: Stream)
    ensures
        advanced(s, primary_expression(s).rest, primary_expression(s).outcome is Ok),
    decreases s.tokens.len(), 5nat,
{
    if s.lookahead().kind == TokenType::ParenthesisOpen {
        lemma_parenthesized_expression_advances(s);
    }
}

/// The same of an expression in parentheses.
pub proof fn lemma_parenthesized_expression_advances(s: Stream)
    ensures
        advanced(
            s,
            parenthesized_expression(s).rest,
            parenthesized_expression(s).outcome is Ok,
        ),
    decreases s.tokens.len(), 4nat,
{
    let open = eat(s, TokenType::ParenthesisOpen);
    if open.outcome is Ok {
        lemma_expression_advances(open.rest);
    }
}

/// A statement never gives tokens back, and where it succeeds it has consumed
/// at least one.
pub proof fn lemma_statement_advances(s: Stream)
    ensures
        advanced(s, statement(s).rest, statement(s).outcome is Ok),
    decreases s.tokens.len(), 2nat,
{
    match s.lookahead().kind {
        TokenType::SemiColon => {},
        TokenType::CurlyBracketOpen => lemma_block_statement_advances(s),
        _ => lemma_expression_advances(s),
    }
}

/// The same of a block.
pub proof fn lemma_block_statement_advances(s: Stream)
    ensures
        advanced(s, block_statement(s).rest, block_statement(s).outcome is Ok),
    decreases s.tokens.len(), 1nat,
{
    let open = eat(s, TokenType::CurlyBracketOpen);
    if open.outcome is Ok && open.rest.lookahead().kind != TokenType::CurlyBracketClose {
        lemma_statements_advance(Seq::empty(), open.rest, TokenType::CurlyBracketClose);
    }
}

/// A statement list never gives tokens back; where it succeeds it has
/// consumed at least one token and stands before a token of kind `stop`.
pub proof fn lemma_statements_advance(done: Seq<Node>, s: Stream, stop: TokenType)
    ensures
        advanced(s, statements(done, s, stop).rest, statements(done, s, stop).outcome is Ok),
        statements(done, s, stop).outcome is Ok ==> statements(done, s, stop).rest.lookahead().kind
            == stop,
    decreases s.tokens.len(), 3nat,
{
    lemma_statement_advances(s);
    let next = statement(s);
    if next.outcome is Ok && next.rest.lookahead().kind != stop {
        lemma_statements_advance(done.push(next.outcome->Ok_0), next.rest, stop);
    }
}

/// What parsing a text yields depends on its token stream alone: two texts
/// with the same stream have the same result, however they differ in white
/// space and comments.
pub proof fn lemma_parse_depends_on_tokens(first: Seq<u8>, second: Seq<u8>)
    requires
        stream(first) == stream(second),
    ensures
        parse_source(first) == parse_source(second),
{
}

/// White space and comments do not affect the result of parsing: where the
/// first rule that applies to a text is one that skips, the text and what
/// stands behind the skipped part have the same result.
pub proof fn lemma_parse_ignores_skipped_text(bytes: Seq<u8>, index: int, length: usize)
    requires
        first_rule(bytes, 0) == Some((index, length)),
        rule_kind(index) is None,
    ensures
        parse_source(bytes) == parse_source(bytes.subrange(length as int, bytes.len() as int)),
{
    lemma_skipped_text_leaves_no_token(bytes, index, length);
}

} // verus!
