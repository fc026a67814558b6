use vstd::prelude::*;
use vstd::string::StringExecFns;
use crate::errors::Error;
use crate::parser::{token_result, Parser};
use crate::stream;
use crate::token::{Token, TokenType};
use crate::tokenizer::{lemma_scan_advances, lemma_scan_stuck};

verus! {

/// The one primitive by which a grammar rule consumes a token.
pub trait Eatable {
    /// Consumes the lookahead if it is of kind `token_type` and fetches the
    /// next token in its place; fails if it is of another kind.
    fn eat(&mut self, token_type: TokenType) -> Result<Token, Error>;
}

impl Eatable for Parser {
    fn eat(&mut self, token_type: TokenType) -> (result: Result<Token, Error>)
        ensures
            token_result(result) == stream::eat(old(self)@, token_type).outcome,
            final(self)@ == stream::eat(old(self)@, token_type).rest,
    {
        proof {
            lemma_scan_advances(self.tokenizer.remaining());
            lemma_scan_stuck(self.tokenizer.remaining());
        }
        if self.lookahead.token_type != token_type {
            let mut message = String::from_str("Unexpected token ");
            message.append(self.lookahead.token_type.name());
            message.append(", expected ");
            message.append(token_type.name());
            message.append("!");
            return Err(Error::Syntax(message));
        }
        if self.lookahead.token_type == TokenType::EOF {
            return Ok(Token::end());
        }
        match self.tokenizer.get_next_token() {
            Err(error) => Err(error),
            Ok(next) => {
                let token = match next {
                    Some(token) => token,
                    None => Token::end(),
                };
                let eaten = self.lookahead.duplicate();
                self.lookahead = token;
                proof {
                    let ahead = stream::stream(old(self).tokenizer.remaining());
                    assert((seq![eaten@] + ahead.tokens).drop_first() =~= ahead.tokens);
                    assert(self@.tokens =~= old(self)@.tail().tokens);
                }
                Ok(eaten)
            },
        }
    }
}

} // verus!
