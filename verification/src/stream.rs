use vstd::prelude::*;
use crate::errors::Failure;
use crate::token::{Lexeme, TokenType};
use vstd::utf8::valid_utf8;
use crate::tokenizer::{
    first_rule, lemma_first_rule_bounds, lemma_scan_advances, rule_kind, scan, unexpected_character,
    Scan,
};

verus! {

/// What the lexer makes of a text: the tokens in the order in which it finds
/// them, and, where it gets stuck, the character at which it does.
pub struct Stream {
    pub tokens: Seq<Lexeme>,
    pub stop: Option<char>,
}

/// The token stream of `bytes`, the UTF-8 form of a text. Text that the lexer
/// skips leaves nothing in it.
pub open spec fn stream(bytes: Seq<u8>) -> Stream
    decreases bytes.len(),
    via stream_decreases
{
    match scan(bytes) {
        Scan::End => Stream { tokens: Seq::empty(), stop: None },
        Scan::Unexpected { found, rest } => Stream { tokens: Seq::empty(), stop: Some(found) },
        Scan::Token { lexeme, rest } => Stream {
            tokens: seq![lexeme] + stream(rest).tokens,
            stop: stream(rest).stop,
        },
    }
}

#[via_fn]
proof fn stream_decreases(bytes: Seq<u8>) {
    lemma_scan_advances(bytes);
}

impl Stream {
    /// The token that a parser at the start of the stream looks at: the first
    /// token, or the end marker where none is left.
    pub open spec fn lookahead(self) -> Lexeme {
        if self.tokens.len() > 0 {
            self.tokens[0]
        } else {
            Lexeme::end()
        }
    }

    /// The stream behind its first token.
    pub open spec fn tail(self) -> Stream {
        Stream { tokens: self.tokens.drop_first(), stop: self.stop }
    }

    /// Whether a parser can stand at the start of the stream: it has a token to
    /// look at, or the lexer came to the end of the text.
    pub open spec fn ready(self) -> bool {
        self.tokens.len() > 0 || self.stop is None
    }
}

/// The outcome of one grammar rule applied to a stream: what it built or why
/// it failed, and the stream that it left.
pub struct Step<T> {
    pub outcome: Result<T, Failure>,
    pub rest: Stream,
}

/// Whether a rule that began at `before` and ended at `after` moved forward:
/// it never gives tokens back, and where it succeeded it consumed at least one.
pub open spec fn advanced(before: Stream, after: Stream, succeeded: bool) -> bool {
    &&& after.tokens.len() <= before.tokens.len()
    &&& succeeded ==> after.tokens.len() < before.tokens.len()
}

/// The message of the failure at a token of another kind than the grammar
/// asks for.
pub open spec fn unexpected_token(found: TokenType, expected: TokenType) -> Seq<char> {
    "Unexpected token "@ + found.spec_name() + ", expected "@ + expected.spec_name() + "!"@
}

/// Consuming one token of kind `expected`. It fails, and leaves the stream as
/// it is, where the lookahead is of another kind, and where the lexer is stuck
/// right behind the lookahead. Otherwise it yields the lookahead and moves to
/// the next token.
pub open spec fn eat(s: Stream, expected: TokenType) -> Step<Lexeme> {
    if s.lookahead().kind != expected {
        Step {
            outcome: Err(Failure::Syntax(unexpected_token(s.lookahead().kind, expected))),
            rest: s,
        }
    } else if s.tokens.len() == 0 {
        Step { outcome: Ok(s.lookahead()), rest: s }
    } else if s.tokens.len() == 1 && s.stop is Some {
        Step { outcome: Err(Failure::Syntax(unexpected_character(s.stop->0))), rest: s }
    } else {
        Step { outcome: Ok(s.lookahead()), rest: s.tail() }
    }
}

/// The text that is left of `bytes` when the lexer has handed out `count`
/// tokens: the boundary behind the last of them.
pub open spec fn rest_after(bytes: Seq<u8>, count: nat) -> Seq<u8>
    decreases count,
{
    if count == 0 {
        bytes
    } else {
        match scan(bytes) {
            Scan::Token { lexeme, rest } => rest_after(rest, (count - 1) as nat),
            _ => bytes,
        }
    }
}

/// Lexing again from a boundary that the lexer produced yields the tokens that
/// followed that boundary, and the same end: no token is split, and lexing the
/// same text twice gives the same stream. The text at the boundary is again a
/// text.
pub proof fn lemma_relex_at_boundary(bytes: Seq<u8>, count: nat)
    requires
        count <= stream(bytes).tokens.len(),
    ensures
        stream(rest_after(bytes, count)).tokens == stream(bytes).tokens.skip(count as int),
        stream(rest_after(bytes, count)).stop == stream(bytes).stop,
        valid_utf8(bytes) ==> valid_utf8(rest_after(bytes, count)),
    decreases count,
{
    if count == 0 {
        assert(stream(bytes).tokens.skip(0) =~= stream(bytes).tokens);
    } else {
        lemma_scan_advances(bytes);
        match scan(bytes) {
            Scan::Token { lexeme, rest } => {
                lemma_relex_at_boundary(rest, (count - 1) as nat);
                assert((seq![lexeme] + stream(rest).tokens).skip(count as int) =~= stream(
                    rest,
                ).tokens.skip(count - 1));
            },
            _ => {},
        }
    }
}

/// Text that the lexer skips leaves nothing in the stream: where the first
/// rule that applies to a text is one that skips, the stream of the text is
/// the stream of what stands behind the skipped part.
pub proof fn lemma_skipped_text_leaves_no_token(bytes: Seq<u8>, index: int, length: usize)
    requires
        first_rule(bytes, 0) == Some((index, length)),
        rule_kind(index) is None,
    ensures
        stream(bytes) == stream(bytes.subrange(length as int, bytes.len() as int)),
{
    lemma_first_rule_bounds(bytes, 0);
}

/// The same between two tokens: where, behind the first `count` tokens of a
/// text, the first rule that applies is one that skips, the tokens that follow
/// are those of the text behind the skipped part.
pub proof fn lemma_skipped_text_between_tokens(
    bytes: Seq<u8>,
    count: nat,
    index: int,
    length: usize,
)
    requires
        count <= stream(bytes).tokens.len(),
        first_rule(rest_after(bytes, count), 0) == Some((index, length)),
        rule_kind(index) is None,
    ensures
        stream(bytes).tokens.skip(count as int) == stream(
            rest_after(bytes, count).subrange(
                length as int,
                rest_after(bytes, count).len() as int,
            ),
        ).tokens,
        stream(bytes).stop == stream(
            rest_after(bytes, count).subrange(
                length as int,
                rest_after(bytes, count).len() as int,
            ),
        ).stop,
{
    lemma_relex_at_boundary(bytes, count);
    lemma_skipped_text_leaves_no_token(rest_after(bytes, count), index, length);
}

} // verus!
