use vstd::prelude::*;
use vstd::string::StringExecFns;
use vstd::string::StrSliceExecFns;
use vstd::string::StringSliceAdditionalSpecFns;
use vstd::utf8::*;
use regex::Regex;
use crate::errors::{Error, Failure};
use crate::token::{Lexeme, Token, TokenType};

verus! {

/// Where the leftmost match of `pattern` in `text` starts and ends, as byte
/// offsets into the UTF-8 form of `text`. `None` where nothing in `text`
/// matches, and where `pattern` is no regular expression.
pub uninterp spec fn regex_search(pattern: Seq<char>, text: Seq<char>) -> Option<(usize, usize)>;

/// Compiles `pattern` with `regex::Regex::new` and searches `text` with
/// `Regex::find`. The contract gives the outcome a name and claims nothing
/// else of it: the offsets of the match come from `Match::start` and
/// `Match::end`, and a pattern that does not compile counts as no match.
#[verifier::external_body]
fn search(pattern: &str, text: &str) -> (found: Option<(usize, usize)>)
    ensures
        found == regex_search(pattern@, text@),
{
    match Regex::new(pattern) {
        Ok(expression) => match expression.find(text) {
            Some(matched) => Some((matched.start(), matched.end())),
            None => None,
        },
        Err(_) => None,
    }
}

/// The number of bytes that a search result lets the lexer consume from the
/// start of `bytes`: the match has to begin at the start, be non-empty and end
/// inside the text on a character boundary.
pub open spec fn lexeme_len(bytes: Seq<u8>, found: Option<(usize, usize)>) -> Option<usize> {
    match found {
        Some((start, end)) => if start == 0 && 0 < end <= bytes.len() && is_char_boundary(
            bytes,
            end as int,
        ) {
            Some(end)
        } else {
            None
        },
        None => None,
    }
}

/// Decides whether a search result is a lexeme at the start of `text`, and if
/// so how many bytes long it is.
pub fn leading_lexeme(text: &str, found: Option<(usize, usize)>) -> (length: Option<usize>)
    ensures
        length == lexeme_len(text.spec_bytes(), found),
{
    match found {
        Some((start, end)) => {
            if start == 0 && 0 < end && end <= text.as_bytes().len() && text.is_char_boundary(end) {
                Some(end)
            } else {
                None
            }
        },
        None => None,
    }
}

/// The number of rules in the lexer's table.
pub const RULE_COUNT: usize = 25;

/// The kind of token that rule `index` of the table produces, `None` for a
/// rule whose matches are skipped: white space, a comment up to the end of the
/// line, a comment between `/*` and the next `*/`. A rule with a smaller index
/// is tried first.
pub open spec fn rule_kind(index: int) -> Option<TokenType> {
    if index == 0 {
        None
    } else if index == 1 {
        None
    } else if index == 2 {
        None
    } else if index == 3 {
        Some(TokenType::SemiColon)
    } else if index == 4 {
        Some(TokenType::CurlyBracketOpen)
    } else if index == 5 {
        Some(TokenType::CurlyBracketClose)
    } else if index == 6 {
        Some(TokenType::ParenthesisOpen)
    } else if index == 7 {
        Some(TokenType::ParenthesisClose)
    } else if index == 8 {
        Some(TokenType::SquareBracketOpen)
    } else if index == 9 {
        Some(TokenType::SquareBracketClose)
    } else if index == 10 {
        Some(TokenType::Comma)
    } else if index == 11 {
        Some(TokenType::Dot)
    } else if index == 12 {
        Some(TokenType::Number)
    } else if index == 13 {
        Some(TokenType::Identifier)
    } else if index == 14 {
        Some(TokenType::EqualityOperator)
    } else if index == 15 {
        Some(TokenType::SimpleAssignmentOperator)
    } else if index == 16 {
        Some(TokenType::ComplexAssignmentOperator)
    } else if index == 17 {
        Some(TokenType::AdditiveOperator)
    } else if index == 18 {
        Some(TokenType::MultiplicativeOperator)
    } else if index == 19 {
        Some(TokenType::RelationalOperator)
    } else if index == 20 {
        Some(TokenType::LogicalAndOperator)
    } else if index == 21 {
        Some(TokenType::LogicalOrOperator)
    } else if index == 22 {
        Some(TokenType::UnaryOperator)
    } else if index == 23 {
        Some(TokenType::String)
    } else {
        Some(TokenType::String)
    }
}

/// The regular expression of rule `index` of the table.
pub open spec fn rule_pattern(index: int) -> Seq<char> {
    if index == 0 {
        r"^\s+"@
    } else if index == 1 {
        r"^//.*"@
    } else if index == 2 {
        r"^/\*[\s\S]*?\*/"@
    } else if index == 3 {
        r"^;"@
    } else if index == 4 {
        r"^\{"@
    } else if index == 5 {
        r"^\}"@
    } else if index == 6 {
        r"^\("@
    } else if index == 7 {
        r"^\)"@
    } else if index == 8 {
        r"^\["@
    } else if index == 9 {
        r"^\]"@
    } else if index == 10 {
        r"^,"@
    } else if index == 11 {
        r"^\."@
    } else if index == 12 {
        r"^\d+"@
    } else if index == 13 {
        r"^[A-Za-z_][A-Za-z0-9_]*"@
    } else if index == 14 {
        r"^[=!]="@
    } else if index == 15 {
        r"^="@
    } else if index == 16 {
        r"^[*/+\-]="@
    } else if index == 17 {
        r"^[+\-]"@
    } else if index == 18 {
        r"^[*/]"@
    } else if index == 19 {
        r"^[><]=?"@
    } else if index == 20 {
        r"^&&"@
    } else if index == 21 {
        r"^\|\|"@
    } else if index == 22 {
        r"^!"@
    } else if index == 23 {
        r#"^".*""#@
    } else {
        r"^'.*'"@
    }
}

/// Rule `index` of the table: what its matches become, and its regular
/// expression.
pub fn rule(index: usize) -> (entry: (Option<TokenType>, &'static str))
    requires
        index < RULE_COUNT,
    ensures
        entry.0 == rule_kind(index as int),
        entry.1@ == rule_pattern(index as int),
{
    if index == 0 {
        (None, r"^\s+")
    } else if index == 1 {
        (None, r"^//.*")
    } else if index == 2 {
        (None, r"^/\*[\s\S]*?\*/")
    } else if index == 3 {
        (Some(TokenType::SemiColon), r"^;")
    } else if index == 4 {
        (Some(TokenType::CurlyBracketOpen), r"^\{")
    } else if index == 5 {
        (Some(TokenType::CurlyBracketClose), r"^\}")
    } else if index == 6 {
        (Some(TokenType::ParenthesisOpen), r"^\(")
    } else if index == 7 {
        (Some(TokenType::ParenthesisClose), r"^\)")
    } else if index == 8 {
        (Some(TokenType::SquareBracketOpen), r"^\[")
    } else if index == 9 {
        (Some(TokenType::SquareBracketClose), r"^\]")
    } else if index == 10 {
        (Some(TokenType::Comma), r"^,")
    } else if index == 11 {
        (Some(TokenType::Dot), r"^\.")
    } else if index == 12 {
        (Some(TokenType::Number), r"^\d+")
    } else if index == 13 {
        (Some(TokenType::Identifier), r"^[A-Za-z_][A-Za-z0-9_]*")
    } else if index == 14 {
        (Some(TokenType::EqualityOperator), r"^[=!]=")
    } else if index == 15 {
        (Some(TokenType::SimpleAssignmentOperator), r"^=")
    } else if index == 16 {
        (Some(TokenType::ComplexAssignmentOperator), r"^[*/+\-]=")
    } else if index == 17 {
        (Some(TokenType::AdditiveOperator), r"^[+\-]")
    } else if index == 18 {
        (Some(TokenType::MultiplicativeOperator), r"^[*/]")
    } else if index == 19 {
        (Some(TokenType::RelationalOperator), r"^[><]=?")
    } else if index == 20 {
        (Some(TokenType::LogicalAndOperator), r"^&&")
    } else if index == 21 {
        (Some(TokenType::LogicalOrOperator), r"^\|\|")
    } else if index == 22 {
        (Some(TokenType::UnaryOperator), r"^!")
    } else if index == 23 {
        (Some(TokenType::String), r#"^".*""#)
    } else {
        (Some(TokenType::String), r"^'.*'")
    }
}

/// The first rule, from rule `from` on, that yields a lexeme at the start of
/// `bytes`: its index in the table and the length of the lexeme in bytes.
pub open spec fn first_rule(bytes: Seq<u8>, from: int) -> Option<(int, usize)>
    decreases RULE_COUNT - from,
{
    if from < 0 || from >= RULE_COUNT {
        None
    } else {
        match lexeme_len(bytes, regex_search(rule_pattern(from), decode_utf8(bytes))) {
            Some(length) => Some((from, length)),
            None => first_rule(bytes, from + 1),
        }
    }
}

/// A lexeme that a rule yields lies inside the text and is not empty.
pub proof fn lemma_first_rule_bounds(bytes: Seq<u8>, from: int)
    ensures
        first_rule(bytes, from) matches Some((index, length)) ==> {
            &&& from <= index < RULE_COUNT
            &&& 0 < length <= bytes.len()
            &&& is_char_boundary(bytes, length as int)
        },
    decreases RULE_COUNT - from,
{
    if 0 <= from < RULE_COUNT {
        lemma_first_rule_bounds(bytes, from + 1);
    }
}

/// What the lexer finds at the start of a text.
pub enum Scan {
    /// Nothing is left but text that the lexer skips.
    End,
    /// The next token, and the bytes that follow it.
    Token { lexeme: Lexeme, rest: Seq<u8> },
    /// After what could be skipped comes `rest`, to which no rule applies; it
    /// starts with the character `found`.
    Unexpected { found: char, rest: Seq<u8> },
}

/// What the lexer finds at the start of `bytes`, the UTF-8 form of a text. The
/// first rule of the table that yields a lexeme wins, whatever the length of
/// the lexeme; where that rule is one that skips, the search starts again
/// behind the lexeme.
pub open spec fn scan(bytes: Seq<u8>) -> Scan
    decreases bytes.len(),
    via scan_decreases
{
    if bytes.len() == 0 {
        Scan::End
    } else {
        match first_rule(bytes, 0) {
            None => Scan::Unexpected { found: decode_utf8(bytes)[0], rest: bytes },
            Some((index, length)) => {
                let rest = bytes.subrange(length as int, bytes.len() as int);
                match rule_kind(index) {
                    None => scan(rest),
                    Some(kind) => Scan::Token {
                        lexeme: Lexeme { kind, text: decode_utf8(bytes.subrange(0, length as int)) },
                        rest,
                    },
                }
            },
        }
    }
}

#[via_fn]
proof fn scan_decreases(bytes: Seq<u8>) {
    lemma_first_rule_bounds(bytes, 0);
}

/// A token that the lexer finds is never the end marker, and the text behind
/// it is shorter than the text it was found in; the text at which the lexer
/// gets stuck is not empty. Text that is valid UTF-8 stays so.
pub proof fn lemma_scan_advances(bytes: Seq<u8>)
    ensures
        match scan(bytes) {
            Scan::End => true,
            Scan::Token { lexeme, rest } => {
                &&& lexeme.kind != TokenType::EOF
                &&& rest.len() < bytes.len()
                &&& valid_utf8(bytes) ==> valid_utf8(rest)
            },
            Scan::Unexpected { found, rest } => {
                &&& 0 < rest.len() <= bytes.len()
                &&& valid_utf8(bytes) ==> valid_utf8(rest)
            },
        },
    decreases bytes.len(),
{
    if bytes.len() > 0 {
        lemma_first_rule_bounds(bytes, 0);
        match first_rule(bytes, 0) {
            None => {},
            Some((index, length)) => {
                let rest = bytes.subrange(length as int, bytes.len() as int);
                if valid_utf8(bytes) {
                    valid_utf8_split(bytes, length as int);
                }
                if rule_kind(index) is None {
                    lemma_scan_advances(rest);
                }
            },
        }
    }
}

/// Where the lexer gets stuck it stays stuck: scanning the text at which no rule
/// applies finds the same.
pub proof fn lemma_scan_stuck(bytes: Seq<u8>)
    ensures
        scan(bytes) matches Scan::Unexpected { found, rest } ==> scan(rest) == scan(bytes),
    decreases bytes.len(),
{
    if bytes.len() > 0 {
        lemma_first_rule_bounds(bytes, 0);
        match first_rule(bytes, 0) {
            None => {},
            Some((index, length)) => {
                if rule_kind(index) is None {
                    lemma_scan_stuck(bytes.subrange(length as int, bytes.len() as int));
                }
            },
        }
    }
}

/// A character boundary of a text's tail is one of the whole text.
proof fn lemma_boundary_in_tail(bytes: Seq<u8>, cursor: int, length: int)
    requires
        valid_utf8(bytes),
        is_char_boundary(bytes, cursor),
        0 <= cursor <= bytes.len(),
        0 <= length <= bytes.len() - cursor,
        is_char_boundary(bytes.subrange(cursor, bytes.len() as int), length),
    ensures
        is_char_boundary(bytes, cursor + length),
{
    let tail = bytes.subrange(cursor, bytes.len() as int);
    valid_utf8_split(bytes, cursor);
    if cursor + length == bytes.len() {
        is_char_boundary_start_end_of_seq(bytes);
    } else {
        is_char_boundary_iff_not_is_continuation_byte(tail, length);
        is_char_boundary_iff_not_is_continuation_byte(bytes, cursor + length);
        assert(tail[length] == bytes[cursor + length]);
    }
}

/// The message of the failure that the lexer reports at a character to which
/// no rule applies.
pub open spec fn unexpected_character(found: char) -> Seq<char> {
    "Unexpected token: "@.push(found)
}

/// Appends a character to a string with `String::push`, which puts it behind
/// the characters that are there.
#[verifier::external_body]
fn push_char(text: &mut String, character: char)
    ensures
        final(text)@ == old(text)@.push(character),
{
    text.push(character)
}

/// The lexer: it holds the whole source text and how far it has read, and hands
/// out one token at a time. It only moves forward.
pub struct Tokenizer {
    content_string: String,
    cursor: usize,
}

impl Tokenizer {
    #[verifier::type_invariant]
    spec fn well_formed(&self) -> bool {
        &&& self.cursor <= encode_utf8(self.content_string@).len()
        &&& is_char_boundary(encode_utf8(self.content_string@), self.cursor as int)
    }

    /// The part of the source text that has not been read, in its UTF-8 form.
    pub closed spec fn remaining(&self) -> Seq<u8> {
        encode_utf8(self.content_string@).subrange(
            self.cursor as int,
            encode_utf8(self.content_string@).len() as int,
        )
    }

    /// The number of bytes of the source text that have been read.
    pub closed spec fn position(&self) -> nat {
        self.cursor as nat
    }

    /// A lexer at the start of `content_string`.
    pub fn new(content_string: String) -> (tokenizer: Self)
        ensures
            tokenizer.remaining() == encode_utf8(content_string@),
            tokenizer.position() == 0,
    {
        proof {
            encode_utf8_valid_utf8(content_string@);
            is_char_boundary_start_end_of_seq(encode_utf8(content_string@));
            assert(encode_utf8(content_string@).subrange(
                0,
                encode_utf8(content_string@).len() as int,
            ) =~= encode_utf8(content_string@));
        }
        Self { content_string, cursor: 0 }
    }

    /// Whether any of the source text has not been read.
    pub fn has_tokens(&self) -> (more: bool)
        ensures
            more == (self.remaining().len() > 0),
            self.position() + self.remaining().len() <= usize::MAX,
    {
        proof {
            use_type_invariant(self);
        }
        self.cursor < self.content_string.as_str().as_bytes().len()
    }

    /// The text that has not been read.
    fn rest(&self) -> (text: &str)
        ensures
            text.spec_bytes() == self.remaining(),
    {
        proof {
            use_type_invariant(self);
        }
        let (_, tail) = self.content_string.as_str().split_at(self.cursor);
        tail
    }

    /// The next token of the source text, `None` at its end, or the failure at
    /// a character that begins no token.
    pub fn get_next_token(&mut self) -> (result: Result<Option<Token>, Error>)
        ensures
            match scan(old(self).remaining()) {
                Scan::End => result matches Ok(None) && final(self).remaining().len() == 0,
                Scan::Token { lexeme, rest } => {
                    &&& result matches Ok(Some(token))
                    &&& token@ == lexeme
                    &&& final(self).remaining() == rest
                },
                Scan::Unexpected { found, rest } => {
                    &&& result matches Err(error)
                    &&& error@ == Failure::Syntax(unexpected_character(found))
                    &&& final(self).remaining() == rest
                },
            },
    {
        loop
            invariant
                scan(self.remaining()) == scan(old(self).remaining()),
            decreases self.remaining().len(),
        {
            if !self.has_tokens() {
                return Ok(None);
            }
            let text = self.rest();
            proof {
                use_type_invariant(&*self);
                encode_utf8_decode_utf8(text@);
                lemma_first_rule_bounds(text.spec_bytes(), 0);
            }
            match find_rule(text) {
                None => {
                    let mut message = String::from_str("Unexpected token: ");
                    push_char(&mut message, text.get_char(0));
                    return Err(Error::Syntax(message));
                },
                Some((index, length)) => {
                    let (head, _) = text.split_at(length);
                    let value = head.to_owned();
                    proof {
                        encode_utf8_decode_utf8(head@);
                        encode_utf8_valid_utf8(self.content_string@);
                        lemma_boundary_in_tail(
                            encode_utf8(self.content_string@),
                            self.cursor as int,
                            length as int,
                        );
                        assert(self.remaining().subrange(
                            length as int,
                            self.remaining().len() as int,
                        ) =~= encode_utf8(self.content_string@).subrange(
                            self.cursor + length,
                            encode_utf8(self.content_string@).len() as int,
                        ));
                    }
                    self.cursor = self.cursor + length;
                    match rule(index).0 {
                        None => {},
                        Some(token_type) => {
                            return Ok(Some(Token { token_type, value }));
                        },
                    }
                },
            }
        }
    }
}

/// Tries the rules of the table in order on the start of `text`.
fn find_rule(text: &str) -> (found: Option<(usize, usize)>)
    ensures
        match first_rule(text.spec_bytes(), 0) {
            None => found is None,
            Some((index, length)) => found == Some((index as usize, length)) && index < RULE_COUNT,
        },
{
    let mut index: usize = 0;
    while index < RULE_COUNT
        invariant
            index <= RULE_COUNT,
            first_rule(text.spec_bytes(), 0) == first_rule(text.spec_bytes(), index as int),
        decreases RULE_COUNT - index,
    {
        let (_, pattern) = rule(index);
        proof {
            encode_utf8_decode_utf8(text@);
        }
        match leading_lexeme(text, search(pattern, text)) {
            Some(length) => {
                return Some((index, length));
            },
            None => {},
        }
        index = index + 1;
    }
    None
}

} // verus!
