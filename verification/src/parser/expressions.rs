use vstd::prelude::*;
use vstd::string::StrSliceExecFns;
use vstd::string::StringExecFns;
use crate::errors::Error;
use crate::grammar;
use crate::grammar::Precedence;
use crate::parser::eatable::Eatable;
use crate::stream::advanced;
use crate::parser::{list_result, token_result, tree_result, Parser};
use crate::token::{Token, TokenType};
use crate::tree::{models, Tree};

verus! {

/// The rule for assignment expressions, and what it is made of.
pub trait AssignmentExpressionParsable {
    /// AssignmentExpression: a logical-or expression, or a left-hand-side
    /// expression, an assignment operator and an assignment expression.
    fn assignment_expression(&mut self) -> Result<Tree, Error>;

    /// Whether the lookahead is an assignment operator.
    fn is_assignment_operator(&self) -> bool;

    /// Whether `node` can stand on the left of an assignment: the node itself
    /// if it can, a failure if not.
    fn check_valid_assignment_target(&mut self, node: Tree) -> Result<Tree, Error>;

    /// AssignmentOperator: a simple or a complex assignment operator.
    fn assignment_operator(&mut self) -> Result<Token, Error>;
}

/// The text of a string token without the quote at each end.
pub fn unquote(text: &str) -> (inner: String)
    ensures
        inner@ == grammar::unquote(text@),
{
    let length = text.unicode_len();
    if length >= 2 {
        text.substring_char(1, length - 1).to_owned()
    } else {
        String::new()
    }
}

impl AssignmentExpressionParsable for Parser {
    fn assignment_expression(&mut self) -> (result: Result<Tree, Error>)
        ensures
            tree_result(result) == grammar::assignment_expression(old(self)@).outcome,
            final(self)@ == grammar::assignment_expression(old(self)@).rest,
            advanced(old(self)@, final(self)@, result is Ok),
        decreases old(self)@.tokens.len(), 21nat,
    {
        let left = match self.binary_expression(Precedence::LogicalOr) {
            Ok(tree) => tree,
            Err(error) => {
                return Err(error);
            },
        };
        if !self.is_assignment_operator() {
            return Ok(left);
        }
        let operator = match self.assignment_operator() {
            Ok(token) => token.value,
            Err(error) => {
                return Err(error);
            },
        };
        let left = match self.check_valid_assignment_target(left) {
            Ok(tree) => tree,
            Err(error) => {
                return Err(error);
            },
        };
        let right = match self.assignment_expression() {
            Ok(tree) => tree,
            Err(error) => {
                return Err(error);
            },
        };
        Ok(Tree::AssignmentExpression { operator, left: Box::new(left), right: Box::new(right) })
    }

    fn is_assignment_operator(&self) -> (found: bool)
        ensures
            found == grammar::is_assignment_operator(self@.lookahead().kind),
    {
        match self.lookahead_type() {
            TokenType::SimpleAssignmentOperator | TokenType::ComplexAssignmentOperator => true,
            _ => false,
        }
    }

    fn check_valid_assignment_target(&mut self, node: Tree) -> (result: Result<Tree, Error>)
        ensures
            tree_result(result) == grammar::check_valid_assignment_target(node@),
            final(self)@ == old(self)@,
    {
        if let Tree::Identifier { .. } = node {
            return Ok(node);
        }
        Err(
            Error::Syntax(
                String::from_str(
                    "Invalid left-hand side in assignment expression, expected Identifier!",
                ),
            ),
        )
    }

    fn assignment_operator(&mut self) -> (result: Result<Token, Error>)
        ensures
            token_result(result) == grammar::assignment_operator(old(self)@).outcome,
            final(self)@ == grammar::assignment_operator(old(self)@).rest,
    {
        match self.lookahead_type() {
            TokenType::SimpleAssignmentOperator => self.eat(TokenType::SimpleAssignmentOperator),
            _ => self.eat(TokenType::ComplexAssignmentOperator),
        }
    }
}

impl Parser {
    /// Expression: an assignment expression.
    pub fn expression(&mut self) -> (result: Result<Tree, Error>)
        ensures
            tree_result(result) == grammar::expression(old(self)@).outcome,
            final(self)@ == grammar::expression(old(self)@).rest,
            advanced(old(self)@, final(self)@, result is Ok),
        decreases old(self)@.tokens.len(), 22nat,
    {
        self.assignment_expression()
    }

    /// A chain of operands of `level`, joined by the operators of that level
    /// and folded from the left.
    pub fn binary_expression(&mut self, level: Precedence) -> (result: Result<Tree, Error>)
        ensures
            tree_result(result) == grammar::binary_expression(level, old(self)@).outcome,
            final(self)@ == grammar::binary_expression(level, old(self)@).rest,
            advanced(old(self)@, final(self)@, result is Ok),
        decreases old(self)@.tokens.len(), 2 * level.depth() + 10,
    {
        let mut left = match self.operand(level) {
            Ok(tree) => tree,
            Err(error) => {
                return Err(error);
            },
        };
        loop
            invariant
                grammar::binary_tail(level, left@, self@) == grammar::binary_expression(
                    level,
                    old(self)@,
                ),
                self@.tokens.len() < old(self)@.tokens.len(),
            decreases self@.tokens.len(),
        {
            if self.lookahead_type() != level.operator_type() {
                return Ok(left);
            }
            let operator = match self.eat(level.operator_type()) {
                Ok(token) => token.value,
                Err(error) => {
                    return Err(error);
                },
            };
            let right = match self.operand(level) {
                Ok(tree) => tree,
                Err(error) => {
                    return Err(error);
                },
            };
            left = level.build(operator, left, right);
        }
    }

    /// An operand of `level`: a chain of the next tighter level, and a unary
    /// expression at the tightest.
    pub fn operand(&mut self, level: Precedence) -> (result: Result<Tree, Error>)
        ensures
            tree_result(result) == grammar::operand(level, old(self)@).outcome,
            final(self)@ == grammar::operand(level, old(self)@).rest,
            advanced(old(self)@, final(self)@, result is Ok),
        decreases old(self)@.tokens.len(), 2 * level.depth() + 9,
    {
        match level.next() {
            Some(next) => self.binary_expression(next),
            None => self.unary_expression(),
        }
    }

    /// UnaryExpression: a left-hand-side expression, with at most one of `+`,
    /// `-` and `!` in front of it.
    pub fn unary_expression(&mut self) -> (result: Result<Tree, Error>)
        ensures
            tree_result(result) == grammar::unary_expression(old(self)@).outcome,
            final(self)@ == grammar::unary_expression(old(self)@).rest,
            advanced(old(self)@, final(self)@, result is Ok),
        decreases old(self)@.tokens.len(), 8nat,
    {
        let kind = self.lookahead_type();
        if kind == TokenType::AdditiveOperator || kind == TokenType::UnaryOperator {
            let operator = match self.eat(kind) {
                Ok(token) => token.value,
                Err(error) => {
                    return Err(error);
                },
            };
            let argument = match self.left_hand_side_expression() {
                Ok(tree) => tree,
                Err(error) => {
                    return Err(error);
                },
            };
            Ok(Tree::UnaryExpression { operator, argument: Box::new(argument) })
        } else {
            self.left_hand_side_expression()
        }
    }

    /// LeftHandSideExpression: a call or member expression.
    pub fn left_hand_side_expression(&mut self) -> (result: Result<Tree, Error>)
        ensures
            tree_result(result) == grammar::left_hand_side_expression(old(self)@).outcome,
            final(self)@ == grammar::left_hand_side_expression(old(self)@).rest,
            advanced(old(self)@, final(self)@, result is Ok),
        decreases old(self)@.tokens.len(), 7nat,
    {
        self.call_member_expression()
    }

    /// CallOrMemberExpression: a primary expression, then any number of member
    /// accesses and calls, folded from the left.
    pub fn call_member_expression(&mut self) -> (result: Result<Tree, Error>)
        ensures
            tree_result(result) == grammar::call_member_expression(old(self)@).outcome,
            final(self)@ == grammar::call_member_expression(old(self)@).rest,
            advanced(old(self)@, final(self)@, result is Ok),
        decreases old(self)@.tokens.len(), 6nat,
    {
        let mut object = match self.primary_expression() {
            Ok(tree) => tree,
            Err(error) => {
                return Err(error);
            },
        };
        loop
            invariant
                grammar::member_tail(object@, self@) == grammar::call_member_expression(
                    old(self)@,
                ),
                self@.tokens.len() < old(self)@.tokens.len(),
            decreases self@.tokens.len(),
        {
            let kind = self.lookahead_type();
            if kind == TokenType::Dot {
                match self.eat(TokenType::Dot) {
                    Ok(_) => {},
                    Err(error) => {
                        return Err(error);
                    },
                }
                let property = match self.identifier() {
                    Ok(tree) => tree,
                    Err(error) => {
                        return Err(error);
                    },
                };
                object =
                Tree::MemberExpression {
                    object: Box::new(object),
                    property: Box::new(property),
                    computed: false,
                };
            } else if kind == TokenType::SquareBracketOpen {
                match self.eat(TokenType::SquareBracketOpen) {
                    Ok(_) => {},
                    Err(error) => {
                        return Err(error);
                    },
                }
                let property = match self.expression() {
                    Ok(tree) => tree,
                    Err(error) => {
                        return Err(error);
                    },
                };
                match self.eat(TokenType::SquareBracketClose) {
                    Ok(_) => {},
                    Err(error) => {
                        return Err(error);
                    },
                }
                object =
                Tree::MemberExpression {
                    object: Box::new(object),
                    property: Box::new(property),
                    computed: true,
                };
            } else if kind == TokenType::ParenthesisOpen {
                match self.eat(TokenType::ParenthesisOpen) {
                    Ok(_) => {},
                    Err(error) => {
                        return Err(error);
                    },
                }
                let arguments = match self.arguments() {
                    Ok(list) => list,
                    Err(error) => {
                        return Err(error);
                    },
                };
                match self.eat(TokenType::ParenthesisClose) {
                    Ok(_) => {},
                    Err(error) => {
                        return Err(error);
                    },
                }
                object = Tree::call(object, arguments);
            } else {
                return Ok(object);
            }
        }
    }

    /// Arguments: what stands between the parentheses of a call: nothing, or
    /// assignment expressions with a comma between each two.
    pub fn arguments(&mut self) -> (result: Result<Vec<Tree>, Error>)
        ensures
            list_result(result) == grammar::arguments(old(self)@).outcome,
            final(self)@ == grammar::arguments(old(self)@).rest,
            final(self)@.tokens.len() <= old(self)@.tokens.len(),
        decreases old(self)@.tokens.len(), 24nat,
    {
        let mut list: Vec<Tree> = Vec::new();
        assert(models(list@) =~= Seq::empty());
        if self.lookahead_type() == TokenType::ParenthesisClose {
            return Ok(list);
        }
        loop
            invariant
                grammar::argument_list(models(list@), self@) == grammar::arguments(old(self)@),
                self@.tokens.len() <= old(self)@.tokens.len(),
            decreases self@.tokens.len(),
        {
            let argument = match self.assignment_expression() {
                Ok(tree) => tree,
                Err(error) => {
                    return Err(error);
                },
            };
            assert(models(list@.push(argument)) =~= models(list@).push(argument@));
            list.push(argument);
            if self.lookahead_type() != TokenType::Comma {
                return Ok(list);
            }
            match self.eat(TokenType::Comma) {
                Ok(_) => {},
                Err(error) => {
                    return Err(error);
                },
            }
        }
    }

    /// PrimaryExpression: a literal, an expression in parentheses, or an
    /// identifier.
    pub fn primary_expression(&mut self) -> (result: Result<Tree, Error>)
        ensures
            tree_result(result) == grammar::primary_expression(old(self)@).outcome,
            final(self)@ == grammar::primary_expression(old(self)@).rest,
            advanced(old(self)@, final(self)@, result is Ok),
        decreases old(self)@.tokens.len(), 5nat,
    {
        match self.lookahead_type() {
            TokenType::Number => self.numeric_literal(),
            TokenType::String => self.string_literal(),
            TokenType::ParenthesisOpen => self.parenthesized_expression(),
            _ => self.identifier(),
        }
    }

    /// ParenthesizedExpression: an expression between `(` and `)`.
    pub fn parenthesized_expression(&mut self) -> (result: Result<Tree, Error>)
        ensures
            tree_result(result) == grammar::parenthesized_expression(old(self)@).outcome,
            final(self)@ == grammar::parenthesized_expression(old(self)@).rest,
            advanced(old(self)@, final(self)@, result is Ok),
        decreases old(self)@.tokens.len(), 4nat,
    {
        match self.eat(TokenType::ParenthesisOpen) {
            Ok(_) => {},
            Err(error) => {
                return Err(error);
            },
        }
        let inner = match self.expression() {
            Ok(tree) => tree,
            Err(error) => {
                return Err(error);
            },
        };
        match self.eat(TokenType::ParenthesisClose) {
            Ok(_) => Ok(inner),
            Err(error) => Err(error),
        }
    }

    /// NumericLiteral: a number token. The tree keeps its digits.
    pub fn numeric_literal(&mut self) -> (result: Result<Tree, Error>)
        ensures
            tree_result(result) == grammar::numeric_literal(old(self)@).outcome,
            final(self)@ == grammar::numeric_literal(old(self)@).rest,
            advanced(old(self)@, final(self)@, result is Ok),
    {
        match self.eat(TokenType::Number) {
            Ok(token) => Ok(Tree::NumericLiteral { value: token.value }),
            Err(error) => Err(error),
        }
    }

    /// StringLiteral: a string token. The tree keeps what stands between the
    /// quotes.
    pub fn string_literal(&mut self) -> (result: Result<Tree, Error>)
        ensures
            tree_result(result) == grammar::string_literal(old(self)@).outcome,
            final(self)@ == grammar::string_literal(old(self)@).rest,
            advanced(old(self)@, final(self)@, result is Ok),
    {
        match self.eat(TokenType::String) {
            Ok(token) => Ok(Tree::StringLiteral { value: unquote(token.value.as_str()) }),
            Err(error) => Err(error),
        }
    }

    /// Identifier: an identifier token.
    pub fn identifier(&mut self) -> (result: Result<Tree, Error>)
        ensures
            tree_result(result) == grammar::identifier(old(self)@).outcome,
            final(self)@ == grammar::identifier(old(self)@).rest,
            advanced(old(self)@, final(self)@, result is Ok),
    {
        match self.eat(TokenType::Identifier) {
            Ok(token) => Ok(Tree::Identifier { name: token.value }),
            Err(error) => Err(error),
        }
    }
}

} // verus!
