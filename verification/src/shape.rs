use vstd::prelude::*;
use crate::grammar::{
    argument_list, arguments, assignment_expression, assignment_operator, binary_expression,
    binary_tail, block_statement, call_member_expression, expression, identifier,
    is_assignment_operator, left_hand_side_expression, member_tail, operand, parenthesized_expression,
    parse_source, primary_expression, program, statement, statements, unary_expression, Precedence,
};
use crate::stream::{eat, stream, Stream};
use crate::token::TokenType;
use crate::tree::{all_expressions, all_statements, Node};

verus! {

/// Whether a rule yielded a well-formed expression, if it yielded a tree.
pub open spec fn yields_expression(outcome: Result<Node, crate::errors::Failure>) -> bool {
    outcome matches Ok(node) ==> node.is_expression() && node.well_formed()
}

/// Whether a rule yielded a well-formed statement, if it yielded a tree.
pub open spec fn yields_statement(outcome: Result<Node, crate::errors::Failure>) -> bool {
    outcome matches Ok(node) ==> node.is_statement() && node.well_formed()
}

/// What the rule for expressions yields is a well-formed expression. So it is
/// with each rule below it, by the lemmas that follow.
pub proof fn lemma_expression_shape(s: Stream)
    ensures
        yields_expression(expression(s).outcome),
    decreases s.tokens.len(), 22nat,
{
    lemma_assignment_expression_shape(s);
}

/// An assignment expression is well-formed: its left side is an identifier.
pub proof fn lemma_assignment_expression_shape(s: Stream)
    ensures
        yields_expression(assignment_expression(s).outcome),
    decreases s.tokens.len(), 21nat,
{
    lemma_binary_expression_shape(Precedence::LogicalOr, s);
    let left = binary_expression(Precedence::LogicalOr, s);
    if left.outcome is Ok && is_assignment_operator(left.rest.lookahead().kind)
        && left.rest.tokens.len() <= s.tokens.len() {
        let sign = assignment_operator(left.rest);
        if sign.outcome is Ok {
            lemma_assignment_expression_shape(sign.rest);
        }
    }
}

/// A chain of binary operators is well-formed, at every level.
pub proof fn lemma_binary_expression_shape(level: Precedence, s: Stream)
    ensures
        yields_expression(binary_expression(level, s).outcome),
    decreases s.tokens.len(), 2 * level.depth() + 10,
{
    lemma_operand_shape(level, s);
    let first = operand(level, s);
    if first.outcome is Ok && first.rest.tokens.len() <= s.tokens.len() {
        lemma_binary_tail_shape(level, first.outcome->Ok_0, first.rest);
    }
}

/// An operand of a chain is well-formed.
pub proof fn lemma_operand_shape(level: Precedence, s: Stream)
    ensures
        yields_expression(operand(level, s).outcome),
    decreases s.tokens.len(), 2 * level.depth() + 9,
{
    match level.tighter() {
        Some(next) => lemma_binary_expression_shape(next, s),
        None => lemma_unary_expression_shape(s),
    }
}

/// Folding operators and operands into a well-formed expression leaves it
/// well-formed.
pub proof fn lemma_binary_tail_shape(level: Precedence, left: Node, s: Stream)
    requires
        left.is_expression(),
        left.well_formed(),
    ensures
        yields_expression(binary_tail(level, left, s).outcome),
    decreases s.tokens.len(), 0nat,
{
    if s.lookahead().kind == level.operator() {
        let sign = eat(s, level.operator());
        if sign.outcome is Ok {
            lemma_operand_shape(level, sign.rest);
            let second = operand(level, sign.rest);
            if second.outcome is Ok && second.rest.tokens.len() <= sign.rest.tokens.len() {
                lemma_binary_tail_shape(
                    level,
                    level.node(sign.outcome->Ok_0.text, left, second.outcome->Ok_0),
                    second.rest,
                );
            }
        }
    }
}

/// A unary expression is well-formed.
pub proof fn lemma_unary_expression_shape(s: Stream)
    ensures
        yields_expression(unary_expression(s).outcome),
    decreases s.tokens.len(), 8nat,
{
    if s.lookahead().kind == TokenType::AdditiveOperator || s.lookahead().kind
        == TokenType::UnaryOperator {
        let sign = eat(s, s.lookahead().kind);
        if sign.outcome is Ok {
            lemma_left_hand_side_expression_shape(sign.rest);
        }
    } else {
        lemma_left_hand_side_expression_shape(s);
    }
}

/// A left-hand-side expression is well-formed.
pub proof fn lemma_left_hand_side_expression_shape(s: Stream)
    ensures
        yields_expression(left_hand_side_expression(s).outcome),
    decreases s.tokens.len(), 7nat,
{
    lemma_call_member_expression_shape(s);
}

/// A call or member expression is well-formed.
pub proof fn lemma_call_member_expression_shape(s: Stream)
    ensures
        yields_expression(call_member_expression(s).outcome),
    decreases s.tokens.len(), 6nat,
{
    lemma_primary_expression_shape(s);
    let first = primary_expression(s);
    if first.outcome is Ok && first.rest.tokens.len() <= s.tokens.len() {
        lemma_member_tail_shape(first.outcome->Ok_0, first.rest);
    }
}

/// Folding member accesses and calls into a well-formed expression leaves it
/// well-formed: the property behind a dot is an identifier.
pub proof fn lemma_member_tail_shape(object: Node, s: Stream)
    requires
        object.is_expression(),
        object.well_formed(),
    ensures
        yields_expression(member_tail(object, s).outcome),
    decreases s.tokens.len(), 0nat,
{
    if s.lookahead().kind == TokenType::Dot {
        let dot = eat(s, TokenType::Dot);
        if dot.outcome is Ok {
            let name = identifier(dot.rest);
            if name.outcome is Ok {
                assert(name.outcome->Ok_0 is Identifier);
                assert(name.outcome->Ok_0.well_formed());
                lemma_member_tail_shape(
                    Node::MemberExpression {
                        object: Box::new(object),
                        property: Box::new(name.outcome->Ok_0),
                        computed: false,
                    },
                    name.rest,
                );
            }
        }
    } else if s.lookahead().kind == TokenType::SquareBracketOpen {
        let open = eat(s, TokenType::SquareBracketOpen);
        if open.outcome is Ok {
            lemma_expression_shape(open.rest);
            let index = expression(open.rest);
            if index.outcome is Ok {
                let close = eat(index.rest, TokenType::SquareBracketClose);
                if close.outcome is Ok && close.rest.tokens.len() < s.tokens.len() {
                    lemma_member_tail_shape(
                        Node::MemberExpression {
                            object: Box::new(object),
                            property: Box::new(index.outcome->Ok_0),
                            computed: true,
                        },
                        close.rest,
                    );
                }
            }
        }
    } else if s.lookahead().kind == TokenType::ParenthesisOpen {
        let open = eat(s, TokenType::ParenthesisOpen);
        if open.outcome is Ok {
            lemma_arguments_shape(open.rest);
            let list = arguments(open.rest);
            if list.outcome is Ok {
                let close = eat(list.rest, TokenType::ParenthesisClose);
                if close.outcome is Ok && close.rest.tokens.len() < s.tokens.len() {
                    lemma_member_tail_shape(
                        Node::CallExpression {
                            callee: Box::new(object),
                            arguments: list.outcome->Ok_0,
                        },
                        close.rest,
                    );
                }
            }
        }
    }
}

/// The arguments of a call are well-formed expressions.
pub proof fn lemma_arguments_shape(s: Stream)
    ensures
        arguments(s).outcome matches Ok(list) ==> all_expressions(list),
    decreases s.tokens.len(), 24nat,
{
    if s.lookahead().kind != TokenType::ParenthesisClose {
        lemma_argument_list_shape(Seq::empty(), s);
    }
}

/// An argument list adds well-formed expressions to those before it.
pub proof fn lemma_argument_list_shape(done: Seq<Node>, s: Stream)
    requires
        all_expressions(done),
    ensures
        argument_list(done, s).outcome matches Ok(list) ==> all_expressions(list),
    decreases s.tokens.len(), 23nat,
{
    lemma_assignment_expression_shape(s);
    let next = assignment_expression(s);
    if next.outcome is Ok && next.rest.lookahead().kind == TokenType::Comma
        && next.rest.tokens.len() <= s.tokens.len() {
        let comma = eat(next.rest, TokenType::Comma);
        if comma.outcome is Ok {
            lemma_argument_list_shape(done.push(next.outcome->Ok_0), comma.rest);
        }
    }
}

/// A primary expression is well-formed.
pub proof fn lemma_primary_expression_shape(s: Stream)
    ensures
        yields_expression(primary_expression(s).outcome),
    decreases s.tokens.len(), 5nat,
{
    if s.lookahead().kind == TokenType::ParenthesisOpen {
        lemma_parenthesized_expression_shape(s);
    }
}

/// An expression in parentheses is well-formed.
pub proof fn lemma_parenthesized_expression_shape(s: Stream)
    ensures
        yields_expression(parenthesized_expression(s).outcome),
    decreases s.tokens.len(), 4nat,
{
    let open = eat(s, TokenType::ParenthesisOpen);
    if open.outcome is Ok {
        lemma_expression_shape(open.rest);
    }
}

/// What the rule for statements yields is a well-formed statement.
pub proof fn lemma_statement_shape(s: Stream)
    ensures
        yields_statement(statement(s).outcome),
    decreases s.tokens.len(), 2nat,
{
    match s.lookahead().kind {
        TokenType::SemiColon => {},
        TokenType::CurlyBracketOpen => lemma_block_statement_shape(s),
        _ => lemma_expression_shape(s),
    }
}

/// A block is a well-formed statement.
pub proof fn lemma_block_statement_shape(s: Stream)
    ensures
        yields_statement(block_statement(s).outcome),
    decreases s.tokens.len(), 1nat,
{
    let open = eat(s, TokenType::CurlyBracketOpen);
    if open.outcome is Ok && open.rest.lookahead().kind != TokenType::CurlyBracketClose {
        lemma_statements_shape(Seq::empty(), open.rest, TokenType::CurlyBracketClose);
    }
}

/// A statement list adds well-formed statements to those before it, at least
/// one.
pub proof fn lemma_statements_shape(done: Seq<Node>, s: Stream, stop: TokenType)
    requires
        all_statements(done),
    ensures
        statements(done, s, stop).outcome matches Ok(list) ==> all_statements(list) && list.len()
            > done.len(),
    decreases s.tokens.len(), 3nat,
{
    lemma_statement_shape(s);
    let next = statement(s);
    if next.outcome is Ok && next.rest.lookahead().kind != stop && next.rest.tokens.len()
        < s.tokens.len() {
        lemma_statements_shape(done.push(next.outcome->Ok_0), next.rest, stop);
    }
}

/// Every program that parsing yields is well-formed and has at least one
/// statement. In particular the left side of every assignment in it is an
/// identifier.
pub proof fn lemma_parse_yields_well_formed(bytes: Seq<u8>)
    ensures
        parse_source(bytes) matches Ok(tree) ==> {
            &&& tree.well_formed()
            &&& tree matches Node::Program { body }
            &&& body.len() > 0
        },
{
    lemma_statements_shape(Seq::empty(), stream(bytes), TokenType::EOF);
}

} // verus!
