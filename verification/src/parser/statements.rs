use vstd::prelude::*;
use vstd::utf8::encode_utf8;
use crate::errors::Error;
use crate::grammar;
use crate::parser::eatable::Eatable;
use crate::shape::lemma_parse_yields_well_formed;
use crate::stream::advanced;
use crate::parser::{list_result, tree_result, Parser};
use crate::token::TokenType;
use crate::tree::{models, Tree};

verus! {

/// The rule for blocks.
pub trait BlockStatementParsable {
    /// BlockStatement: `{`, an optional statement list, and `}`.
    fn block_statement(&mut self) -> Result<Tree, Error>;
}

/// The rule for empty statements.
pub trait EmptyStatementParsable {
    /// EmptyStatement: a semicolon.
    fn empty_statement(&mut self) -> Result<Tree, Error>;
}

impl BlockStatementParsable for Parser {
    fn block_statement(&mut self) -> (result: Result<Tree, Error>)
        ensures
            tree_result(result) == grammar::block_statement(old(self)@).outcome,
            final(self)@ == grammar::block_statement(old(self)@).rest,
            advanced(old(self)@, final(self)@, result is Ok),
        decreases old(self)@.tokens.len(), 1nat,
    {
        match self.eat(TokenType::CurlyBracketOpen) {
            Ok(_) => {},
            Err(error) => {
                return Err(error);
            },
        }
        let body = match self.lookahead_type() {
            TokenType::CurlyBracketClose => {
                let empty: Vec<Tree> = Vec::new();
                assert(models(empty@) =~= Seq::empty());
                empty
            },
            _ => match self.statement_list(TokenType::CurlyBracketClose) {
                Ok(list) => list,
                Err(error) => {
                    return Err(error);
                },
            },
        };
        match self.eat(TokenType::CurlyBracketClose) {
            Ok(_) => Ok(Tree::block(body)),
            Err(error) => Err(error),
        }
    }
}

impl EmptyStatementParsable for Parser {
    fn empty_statement(&mut self) -> (result: Result<Tree, Error>)
        ensures
            tree_result(result) == grammar::empty_statement(old(self)@).outcome,
            final(self)@ == grammar::empty_statement(old(self)@).rest,
            advanced(old(self)@, final(self)@, result is Ok),
    {
        match self.eat(TokenType::SemiColon) {
            Ok(_) => Ok(Tree::EmptyStatement),
            Err(error) => Err(error),
        }
    }
}

impl Parser {
    /// Statement: a block, an empty statement or an expression statement, as
    /// the lookahead decides.
    pub fn statement(&mut self) -> (result: Result<Tree, Error>)
        ensures
            tree_result(result) == grammar::statement(old(self)@).outcome,
            final(self)@ == grammar::statement(old(self)@).rest,
            advanced(old(self)@, final(self)@, result is Ok),
        decreases old(self)@.tokens.len(), 2nat,
    {
        match self.lookahead_type() {
            TokenType::SemiColon => self.empty_statement(),
            TokenType::CurlyBracketOpen => self.block_statement(),
            _ => self.expression_statement(),
        }
    }

    /// ExpressionStatement: an expression and a semicolon.
    pub fn expression_statement(&mut self) -> (result: Result<Tree, Error>)
        ensures
            tree_result(result) == grammar::expression_statement(old(self)@).outcome,
            final(self)@ == grammar::expression_statement(old(self)@).rest,
            advanced(old(self)@, final(self)@, result is Ok),
    {
        let expression = match self.expression() {
            Ok(tree) => tree,
            Err(error) => {
                return Err(error);
            },
        };
        match self.eat(TokenType::SemiColon) {
            Ok(_) => Ok(Tree::ExpressionStatement { expression: Box::new(expression) }),
            Err(error) => Err(error),
        }
    }

    /// StatementList: one statement, and then statements until a token of kind
    /// `stop` is the lookahead. That token is not consumed.
    pub fn statement_list(&mut self, stop: TokenType) -> (result: Result<Vec<Tree>, Error>)
        ensures
            list_result(result) == grammar::statement_list(old(self)@, stop).outcome,
            final(self)@ == grammar::statement_list(old(self)@, stop).rest,
            advanced(old(self)@, final(self)@, result is Ok),
            result is Ok ==> final(self)@.lookahead().kind == stop,
        decreases old(self)@.tokens.len(), 4nat,
    {
        let mut list: Vec<Tree> = Vec::new();
        assert(models(list@) =~= Seq::empty());
        loop
            invariant
                grammar::statements(models(list@), self@, stop) == grammar::statement_list(
                    old(self)@,
                    stop,
                ),
                self@.tokens.len() <= old(self)@.tokens.len(),
            decreases self@.tokens.len(),
        {
            let node = match self.statement() {
                Ok(tree) => tree,
                Err(error) => {
                    return Err(error);
                },
            };
            assert(models(list@.push(node)) =~= models(list@).push(node@));
            list.push(node);
            if self.lookahead_type() == stop {
                return Ok(list);
            }
        }
    }

    /// Program: a statement list that ends where the input ends.
    pub fn program(&mut self) -> (result: Result<Tree, Error>)
        ensures
            tree_result(result) == grammar::program(old(self)@).outcome,
            final(self)@ == grammar::program(old(self)@).rest,
            result is Ok ==> final(self)@.tokens.len() == 0,
    {
        match self.statement_list(TokenType::EOF) {
            Ok(body) => Ok(Tree::program(body)),
            Err(error) => Err(error),
        }
    }

    /// Parses a whole source text into its program. The program is
    /// well-formed and holds at least one statement.
    pub fn parse(content_string: String) -> (result: Result<Tree, Error>)
        ensures
            tree_result(result) == grammar::parse_source(encode_utf8(content_string@)),
            result matches Ok(tree) ==> tree@.well_formed(),
    {
        proof {
            lemma_parse_yields_well_formed(encode_utf8(content_string@));
        }
        match Parser::new(content_string) {
            Ok(mut parser) => parser.program(),
            Err(error) => Err(error),
        }
    }
}

} // verus!
