use vstd::prelude::*;
use vstd::utf8::encode_utf8;
use crate::errors::{Error, Failure};
use crate::stream::{stream, Stream};
use crate::token::{Lexeme, Token, TokenType};
use crate::tokenizer::{lemma_scan_advances, unexpected_character, Tokenizer};
use crate::tree::{models, Node, Tree};

pub mod eatable;
pub mod expressions;
pub mod statements;

verus! {

/// A recursive-descent parser with one token of lookahead. It owns the lexer
/// and holds, at all times, the one token that it has fetched and not yet
/// consumed.
pub struct Parser {
    tokenizer: Tokenizer,
    lookahead: Token,
}

/// The mathematical value of what a grammar rule hands back.
pub open spec fn tree_result(result: Result<Tree, Error>) -> Result<Node, Failure> {
    match result {
        Ok(tree) => Ok(tree@),
        Err(error) => Err(error@),
    }
}

/// The mathematical value of what consuming a token hands back.
pub open spec fn token_result(result: Result<Token, Error>) -> Result<Lexeme, Failure> {
    match result {
        Ok(token) => Ok(token@),
        Err(error) => Err(error@),
    }
}

/// The mathematical value of what a rule for a list hands back.
pub open spec fn list_result(result: Result<Vec<Tree>, Error>) -> Result<Seq<Node>, Failure> {
    match result {
        Ok(trees) => Ok(models(trees@)),
        Err(error) => Err(error@),
    }
}

impl View for Parser {
    type V = Stream;

    /// The tokens that the parser has not consumed, the lookahead first.
    closed spec fn view(&self) -> Stream {
        if self.lookahead.token_type == TokenType::EOF {
            Stream { tokens: Seq::empty(), stop: None }
        } else {
            Stream {
                tokens: seq![self.lookahead@] + stream(self.tokenizer.remaining()).tokens,
                stop: stream(self.tokenizer.remaining()).stop,
            }
        }
    }
}

impl Parser {
    /// A parser at the start of `content_string`, with the first token as its
    /// lookahead. Where the text has no first token because no rule of the
    /// lexer applies, that is the failure.
    pub fn new(content_string: String) -> (result: Result<Parser, Error>)
        ensures
            match result {
                Ok(parser) => parser@ == stream(encode_utf8(content_string@)),
                Err(error) => {
                    &&& stream(encode_utf8(content_string@)).stop matches Some(found)
                    &&& error@ == Failure::Syntax(unexpected_character(found))
                },
            },
            result is Ok <==> stream(encode_utf8(content_string@)).ready(),
    {
        let mut tokenizer = Tokenizer::new(content_string);
        proof {
            lemma_scan_advances(tokenizer.remaining());
        }
        match tokenizer.get_next_token() {
            Err(error) => Err(error),
            Ok(None) => Ok(Parser { tokenizer, lookahead: Token::end() }),
            Ok(Some(lookahead)) => Ok(Parser { tokenizer, lookahead }),
        }
    }

    /// The kind of the lookahead.
    pub fn lookahead_type(&self) -> (kind: TokenType)
        ensures
            kind == self@.lookahead().kind,
    {
        self.lookahead.token_type
    }
}

} // verus!
