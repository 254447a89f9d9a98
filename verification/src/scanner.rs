//! The scanner: it walks the source text once and hands out its tokens one by
//! one, counting lines and columns as it goes.

use vstd::prelude::*;

use crate::pattern::{pattern_matches, IDENTIFIER_PATTERN, INTEGER_PATTERN};
use crate::text::{
    chars_of, is_blank, is_punctuation, is_word_char, spec_is_blank, spec_is_punctuation,
    spec_is_word_char, string_of,
};
use crate::token::{
    classify, is_keyword, ColumnNumber, LineNumber, Token, TokenType, TokenView,
};

verus! {

/// The line, counted from 1, of the character at `pos`: one more than the
/// number of line feeds before it.
pub open spec fn line_at(input: Seq<char>, pos: nat) -> nat
    decreases pos,
{
    if pos == 0 {
        1
    } else if input[pos - 1] == '\n' {
        line_at(input, (pos - 1) as nat) + 1
    } else {
        line_at(input, (pos - 1) as nat)
    }
}

/// The column, counted from 1, of the character at `pos`: one more than the
/// number of characters between it and the line feed before it.
pub open spec fn column_at(input: Seq<char>, pos: nat) -> nat
    decreases pos,
{
    if pos == 0 {
        1
    } else if input[pos - 1] == '\n' {
        1
    } else {
        column_at(input, (pos - 1) as nat) + 1
    }
}

/// Where the longest run of characters that satisfy `p` ends, when it starts
/// at `pos`.
pub open spec fn run_end(input: Seq<char>, pos: nat, p: spec_fn(char) -> bool) -> nat
    decreases input.len() - pos,
{
    if pos < input.len() && p(input[pos as int]) {
        run_end(input, pos + 1, p)
    } else {
        pos
    }
}

pub open spec fn blank() -> spec_fn(char) -> bool {
    |c: char| spec_is_blank(c)
}

pub open spec fn word_char() -> spec_fn(char) -> bool {
    |c: char| spec_is_word_char(c)
}

/// Where the token ends that starts at `start`: a punctuation character is a
/// token by itself, any other character starts a word.
pub open spec fn token_end(input: Seq<char>, start: nat) -> nat {
    if spec_is_punctuation(input[start as int]) {
        start + 1
    } else {
        run_end(input, start, word_char())
    }
}

/// The first token at or after `pos`, and the position behind it; `None` if
/// only blanks are left.
pub open spec fn token_at(input: Seq<char>, pos: nat) -> Option<(TokenView, nat)> {
    let start = run_end(input, pos, blank());
    if start >= input.len() {
        None
    } else {
        let end = token_end(input, start);
        let text = input.subrange(start as int, end as int);
        Some(
            (
                TokenView {
                    line: line_at(input, start),
                    column: column_at(input, start),
                    kind: classify(text),
                    text: Some(text),
                },
                end,
            ),
        )
    }
}

/// All the tokens of `input` from `pos` on.
pub open spec fn tokens_from(input: Seq<char>, pos: nat) -> Seq<TokenView>
    decreases input.len() - pos,
    via tokens_from_decreases
{
    match token_at(input, pos) {
        None => Seq::empty(),
        Some((token, next)) => seq![token] + tokens_from(input, next),
    }
}

#[via_fn]
proof fn tokens_from_decreases(input: Seq<char>, pos: nat) {
    if token_at(input, pos) is Some {
        lemma_token_at_bounds(input, pos);
    }
}

/// A run ends at or after its start, inside the text, at the first character
/// that does not satisfy `p`.
pub proof fn lemma_run_end(input: Seq<char>, pos: nat, p: spec_fn(char) -> bool)
    requires
        pos <= input.len(),
    ensures
        pos <= run_end(input, pos, p) <= input.len(),
        forall|i: int| pos <= i < run_end(input, pos, p) ==> p(#[trigger] input[i]),
        run_end(input, pos, p) < input.len() ==> !p(input[run_end(input, pos, p) as int]),
    decreases input.len() - pos,
{
    if pos < input.len() && p(input[pos as int]) {
        lemma_run_end(input, pos + 1, p);
    }
}

/// A stretch whose characters all satisfy `p`, and which the end of the text
/// or a character that does not satisfy `p` follows, is the run from its start.
pub proof fn lemma_run_end_unique(input: Seq<char>, from: nat, to: nat, p: spec_fn(char) -> bool)
    requires
        from <= to <= input.len(),
        forall|i: int| from <= i < to ==> p(#[trigger] input[i]),
        to < input.len() ==> !p(input[to as int]),
    ensures
        run_end(input, from, p) == to,
    decreases to - from,
{
    if from < to {
        lemma_run_end_unique(input, from + 1, to, p);
    }
}

/// A token starts at or after `pos`, is not empty and ends inside the text.
pub proof fn lemma_token_at_bounds(input: Seq<char>, pos: nat)
    requires
        token_at(input, pos) is Some,
    ensures
        token_at(input, pos) matches Some((_, next)) && {
            &&& pos <= run_end(input, pos, blank()) < next <= input.len()
            &&& next == token_end(input, run_end(input, pos, blank()))
        },
{
    if pos <= input.len() {
        lemma_run_end(input, pos, blank());
    }
    let start = run_end(input, pos, blank());
    if !spec_is_punctuation(input[start as int]) {
        lemma_run_end(input, start, word_char());
        assert(word_char()(input[start as int]));
    }
}

/// Lines and columns are at least 1, and no further on than the position.
pub proof fn lemma_line_column_bounds(input: Seq<char>, pos: nat)
    ensures
        1 <= line_at(input, pos) <= pos + 1,
        1 <= column_at(input, pos) <= pos + 1,
    decreases pos,
{
    if pos > 0 {
        lemma_line_column_bounds(input, (pos - 1) as nat);
    }
}

/// A scanner over a source text.
#[derive(Debug)]
pub struct Scanner {
    input: Vec<char>,
    position: usize,
    current_column: ColumnNumber,
    current_line: LineNumber,
    current_token: Option<Token>,
}

/// What a scanner holds: the text, how many of its characters are consumed,
/// the line and column of the next one, and the token that `peek_token` has
/// read ahead, if any.
pub struct ScannerView {
    pub input: Seq<char>,
    pub position: nat,
    pub line: nat,
    pub column: nat,
    pub lookahead: Option<TokenView>,
}

/// `token` is the token of `input` that is found from `from` on, and it ends
/// at `position` or before it.
pub open spec fn read_ahead(input: Seq<char>, position: nat, token: TokenView, from: nat) -> bool {
    token_at(input, from) matches Some((found, end)) && found == token && end <= position
}

impl ScannerView {
    /// The tokens that are still to come: the token read ahead, then those of
    /// the text that is not consumed.
    pub open spec fn remaining(self) -> Seq<TokenView> {
        match self.lookahead {
            Some(token) => seq![token] + tokens_from(self.input, self.position),
            None => tokens_from(self.input, self.position),
        }
    }
}

impl View for Scanner {
    type V = ScannerView;

    closed spec fn view(&self) -> ScannerView {
        ScannerView {
            input: self.input@,
            position: self.position as nat,
            line: self.current_line as nat,
            column: self.current_column as nat,
            lookahead: match self.current_token {
                Some(token) => Some(token@),
                None => None,
            },
        }
    }
}

impl Scanner {
    /// The position is inside the text, the line and column are those of the
    /// position, and the text is short enough for both to be counted. A token
    /// that is read ahead is a token of the text, and what it is made of is
    /// consumed: `peek_token` leaves the position at its end, and only the
    /// consuming of characters can move the position further on before the
    /// token is handed out.
    pub open spec fn wf(&self) -> bool {
        &&& self@.position <= self@.input.len() < u32::MAX
        &&& self@.line == line_at(self@.input, self@.position)
        &&& self@.column == column_at(self@.input, self@.position)
        &&& self@.lookahead matches Some(token) ==> exists|from: nat|
            read_ahead(self@.input, self@.position, token, from)
    }

    /// Whether every character is consumed.
    pub fn is_eof(&self) -> (b: bool)
        ensures
            b == (self@.position >= self@.input.len()),
    {
        self.position >= self.input.len()
    }

    /// The next character, which stays unconsumed.
    pub fn peek(&self) -> (c: Option<char>)
        ensures
            c == if self@.position < self@.input.len() {
                Some(self@.input[self@.position as int])
            } else {
                None
            },
    {
        if self.is_eof() {
            return None;
        }
        Some(self.input[self.position])
    }

    /// Consumes the next character. A line feed starts a new line at column 1;
    /// any other character moves one column on.
    pub fn consume_char(&mut self) -> (c: Option<char>)
        requires
            old(self).wf(),
        ensures
            final(self).wf(),
            final(self)@.input == old(self)@.input,
            final(self)@.lookahead == old(self)@.lookahead,
            old(self)@.position >= old(self)@.input.len() ==> c is None && final(self)@ == old(self)@,
            old(self)@.position < old(self)@.input.len() ==> {
                &&& c == Some(old(self)@.input[old(self)@.position as int])
                &&& final(self)@.position == old(self)@.position + 1
                &&& c == Some('\n') ==> final(self)@.line == old(self)@.line + 1 && final(self)@.column == 1
                &&& c != Some('\n') ==> final(self)@.line == old(self)@.line && final(self)@.column == old(self)@.column + 1
            },
    {
        if self.position >= self.input.len() {
            return None;
        }
        let c = self.input[self.position];
        proof {
            lemma_line_column_bounds(self.input@, self.position as nat);
        }
        self.position = self.position + 1;
        if c != '\n' {
            self.current_column = self.current_column + 1;
        } else {
            self.current_column = 1;
            self.current_line = self.current_line + 1;
        }
        proof {
            match old(self)@.lookahead {
                Some(token) => {
                    let from = choose|from: nat|
                        read_ahead(old(self)@.input, old(self)@.position, token, from);
                    assert(read_ahead(self@.input, self@.position, token, from));
                },
                None => {},
            }
        }
        Some(c)
    }

    /// Consumes the longest run of characters for which `test` returns true,
    /// and returns it.
    pub fn consume_while<F>(&mut self, test: F) -> (run: String) where F: Fn(char) -> bool
        requires
            old(self).wf(),
            forall|c: char| call_requires(test, (c,)),
        ensures
            final(self).wf(),
            final(self)@.input == old(self)@.input,
            final(self)@.lookahead == old(self)@.lookahead,
            old(self)@.position <= final(self)@.position <= old(self)@.input.len(),
            run@ == old(self)@.input.subrange(
                old(self)@.position as int,
                final(self)@.position as int,
            ),
            forall|i: int|
                old(self)@.position <= i < final(self)@.position ==> call_ensures(
                    test,
                    (#[trigger] old(self)@.input[i],),
                    true,
                ),
            final(self)@.position < old(self)@.input.len() ==> call_ensures(
                test,
                (old(self)@.input[final(self)@.position as int],),
                false,
            ),
    {
        let mut result = String::new();
        let ghost start = self.position;
        let ghost input = self.input@;
        loop
            invariant
                self.wf(),
                self@.input == input,
                self@.lookahead == old(self)@.lookahead,
                start == old(self)@.position,
                input == old(self)@.input,
                start <= self@.position <= input.len(),
                result@ == input.subrange(start as int, self@.position as int),
                forall|c: char| call_requires(test, (c,)),
                forall|i: int|
                    start <= i < self@.position ==> call_ensures(test, (#[trigger] input[i],), true),
            ensures
                self@.position < input.len() ==> call_ensures(
                    test,
                    (input[self@.position as int],),
                    false,
                ),
            decreases input.len() - self@.position,
        {
            if self.position >= self.input.len() {
                break ;
            }
            let c = self.input[self.position];
            if !test(c) {
                break ;
            }
            self.consume_char();
            result.push(c);
            assert(result@ == input.subrange(start as int, self@.position as int));
        }
        result
    }

    /// Consumes the blanks before the next token.
    pub fn consume_whitespace(&mut self)
        requires
            old(self).wf(),
        ensures
            final(self).wf(),
            final(self)@.input == old(self)@.input,
            final(self)@.lookahead == old(self)@.lookahead,
            final(self)@.position == run_end(old(self)@.input, old(self)@.position, blank()),
    {
        let test = |c: char| -> (b: bool)
            ensures
                b == spec_is_blank(c),
            { is_blank(c) };
        let _ = self.consume_while(test);
        proof {
            lemma_run_end_unique(
                old(self)@.input,
                old(self)@.position,
                self@.position,
                blank(),
            );
        }
    }

    /// Consumes the word that starts at the next character, and returns it:
    /// everything up to the next blank or punctuation character.
    pub fn consume_word(&mut self) -> (word: String)
        requires
            old(self).wf(),
        ensures
            final(self).wf(),
            final(self)@.input == old(self)@.input,
            final(self)@.lookahead == old(self)@.lookahead,
            final(self)@.position == run_end(old(self)@.input, old(self)@.position, word_char()),
            word@ == old(self)@.input.subrange(
                old(self)@.position as int,
                final(self)@.position as int,
            ),
    {
        let test = |c: char| -> (b: bool)
            ensures
                b == spec_is_word_char(c),
            { is_word_char(c) };
        let word = self.consume_while(test);
        proof {
            lemma_run_end_unique(
                old(self)@.input,
                old(self)@.position,
                self@.position,
                word_char(),
            );
        }
        word
    }

    /// The kind of a token with the text `str`.
    pub fn str_tokentype(str: &str) -> (kind: TokenType)
        ensures
            kind == classify(str@),
    {
        let chars = chars_of(str);
        if chars.len() == 1 && is_punctuation(chars[0]) {
            let c = chars[0];
            if c == '\n' {
                return TokenType::NewLine;
            }
            if c == '[' {
                return TokenType::LeftBrace;
            }
            if c == ']' {
                return TokenType::RightBrace;
            }
            if c == '{' {
                return TokenType::LeftCurly;
            }
            if c == '}' {
                return TokenType::RightCurly;
            }
            if c == '.' {
                return TokenType::Dot;
            }
            return TokenType::Colon;
        }
        if is_keyword(&chars) {
            return TokenType::Keyword;
        }
        if pattern_matches(IDENTIFIER_PATTERN, str) {
            return TokenType::Identifier;
        }
        if pattern_matches(INTEGER_PATTERN, str) {
            return TokenType::Integer;
        }
        TokenType::Unknown
    }

    /// Hands out the next token: the one that `peek_token` has read ahead, if
    /// there is one, else the first token of the text that is not consumed.
    /// Returns `None` once only blanks are left.
    pub fn consume_token(&mut self) -> (token: Option<Token>)
        requires
            old(self).wf(),
        ensures
            final(self).wf(),
            final(self)@.input == old(self)@.input,
            final(self)@.lookahead is None,
            match old(self)@.lookahead {
                Some(ahead) => {
                    &&& token matches Some(t)
                    &&& t@ == ahead
                    &&& final(self)@.position == old(self)@.position
                },
                None => match token_at(old(self)@.input, old(self)@.position) {
                    Some((first, next)) => {
                        &&& token matches Some(t)
                        &&& t@ == first
                        &&& final(self)@.position == next
                    },
                    None => {
                        &&& token is None
                        &&& final(self)@.position == old(self)@.input.len()
                    },
                },
            },
            old(self)@.remaining().len() == 0 ==> token is None && final(self)@.remaining().len()
                == 0,
            old(self)@.remaining().len() > 0 ==> {
                &&& token matches Some(t)
                &&& t@ == old(self)@.remaining()[0]
                &&& final(self)@.remaining() == old(self)@.remaining().drop_first()
            },
    {
        if self.current_token.is_some() {
            let token = self.current_token.take();
            assert(old(self)@.remaining().drop_first() == self@.remaining());
            return token;
        }
        self.consume_whitespace();
        if self.is_eof() {
            proof {
                lemma_run_end(old(self)@.input, old(self)@.position, blank());
                lemma_run_end(self@.input, self@.position, blank());
            }
            return None;
        }
        proof {
            lemma_token_at_bounds(old(self)@.input, old(self)@.position);
        }
        let line = self.current_line;
        let col = self.current_column;
        let start = self.position;
        let c = self.input[self.position];
        let value = if is_punctuation(c) {
            self.consume_char();
            string_of(&self.input, start, start + 1)
        } else {
            self.consume_word()
        };
        let token_type = Scanner::str_tokentype(value.as_str());
        let token = Token::new(line, col, token_type, Some(value));
        assert(old(self)@.remaining().drop_first() == self@.remaining());
        Some(token)
    }

    /// The next token, which stays in the scanner: `consume_token` hands it
    /// out next.
    pub fn peek_token(&mut self) -> (token: Option<Token>)
        requires
            old(self).wf(),
        ensures
            final(self).wf(),
            final(self)@.input == old(self)@.input,
            match old(self)@.lookahead {
                Some(ahead) => final(self)@ == old(self)@,
                None => match token_at(old(self)@.input, old(self)@.position) {
                    Some((first, next)) => {
                        &&& final(self)@.lookahead == Some(first)
                        &&& final(self)@.position == next
                    },
                    None => {
                        &&& final(self)@.lookahead is None
                        &&& final(self)@.position == old(self)@.input.len()
                    },
                },
            },
            final(self)@.remaining() == old(self)@.remaining(),
            old(self)@.remaining().len() == 0 ==> token is None,
            old(self)@.remaining().len() > 0 ==> {
                &&& token matches Some(t)
                &&& t@ == old(self)@.remaining()[0]
                &&& final(self)@.lookahead == Some(t@)
            },
    {
        if self.current_token.is_none() {
            self.current_token = self.consume_token();
            proof {
                match self@.lookahead {
                    Some(token) => {
                        assert(read_ahead(
                            self@.input,
                            self@.position,
                            token,
                            old(self)@.position,
                        ));
                    },
                    None => {},
                }
            }
        }
        match &self.current_token {
            Some(t) => {
                let token = t.clone();
                assert(self@.remaining() == old(self)@.remaining());
                Some(token)
            },
            None => None,
        }
    }

    /// A scanner at the start of `input`: line 1, column 1.
    pub fn from(input: String) -> (scanner: Scanner)
        requires
            input@.len() < u32::MAX,
        ensures
            scanner.wf(),
            scanner@ == (ScannerView {
                input: input@,
                position: 0,
                line: 1,
                column: 1,
                lookahead: None,
            }),
    {
        Scanner {
            input: chars_of(input.as_str()),
            position: 0,
            current_column: 1,
            current_line: 1,
            current_token: None,
        }
    }
}

} // verus!
