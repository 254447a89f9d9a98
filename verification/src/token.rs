//! Tokens: what the scanner hands out, and how a word is classified.

use vstd::prelude::*;

use crate::pattern::{is_identifier, is_integer, lemma_shapes_exclude};
use crate::text::{chars_of, folds_to, spec_folds_to, spec_is_punctuation};

verus! {

pub type LineNumber = u32;

pub type ColumnNumber = u32;

/// The kind of a token.
#[derive(Debug, Clone, Copy, PartialEq, Eq, Structural)]
pub enum TokenType {
    Keyword,
    LeftBrace,
    RightBrace,
    Integer,
    Numeric,
    Identifier,
    LeftCurly,
    RightCurly,
    Dot,
    Colon,
    NewLine,
    Unknown,
}

/// A lexical unit of the source text, with the place where it starts.
#[derive(Debug, PartialEq, Eq)]
pub struct Token {
    line: LineNumber,
    column: ColumnNumber,
    token_type: TokenType,
    str_value: Option<String>,
}

/// What a token is, with its text as a sequence of characters.
pub struct TokenView {
    pub line: nat,
    pub column: nat,
    pub kind: TokenType,
    pub text: Option<Seq<char>>,
}

impl TokenView {
    /// The token's text; a token without text has the empty text.
    pub open spec fn chars(self) -> Seq<char> {
        match self.text {
            Some(s) => s,
            None => Seq::empty(),
        }
    }

    /// The token is a word: what is left of the text between blanks and
    /// punctuation.
    pub open spec fn is_word(self) -> bool {
        self.kind == TokenType::Keyword || self.kind == TokenType::Identifier || self.kind
            == TokenType::Integer || self.kind == TokenType::Numeric || self.kind
            == TokenType::Unknown
    }
}

impl View for Token {
    type V = TokenView;

    closed spec fn view(&self) -> TokenView {
        TokenView {
            line: self.line as nat,
            column: self.column as nat,
            kind: self.token_type,
            text: match self.str_value {
                Some(s) => Some(s@),
                None => None,
            },
        }
    }
}

impl Clone for Token {
    fn clone(&self) -> (t: Token)
        ensures
            t@ == self@,
    {
        Token {
            line: self.line,
            column: self.column,
            token_type: self.token_type,
            str_value: match &self.str_value {
                Some(s) => Some(s.clone()),
                None => None,
            },
        }
    }
}

impl Token {
    pub fn new(
        line: LineNumber,
        column: ColumnNumber,
        token_type: TokenType,
        str_value: Option<String>,
    ) -> (t: Token)
        ensures
            t@ == (TokenView {
                line: line as nat,
                column: column as nat,
                kind: token_type,
                text: match str_value {
                    Some(s) => Some(s@),
                    None => None,
                },
            }),
    {
        Token { line, column, token_type, str_value }
    }

    /// The line on which the token starts, counted from 1.
    pub fn line(&self) -> (n: LineNumber)
        ensures
            n == self@.line,
    {
        self.line
    }

    /// The column at which the token starts, counted from 1.
    pub fn column(&self) -> (n: ColumnNumber)
        ensures
            n == self@.column,
    {
        self.column
    }

    pub fn token_type(&self) -> (k: TokenType)
        ensures
            k == self@.kind,
    {
        self.token_type
    }

    /// The token's text.
    pub fn str_value(&self) -> (s: Option<String>)
        ensures
            s is Some == self@.text is Some,
            s matches Some(v) ==> self@.text == Some(v@),
    {
        match &self.str_value {
            Some(s) => Some(s.clone()),
            None => None,
        }
    }

    /// The token's text; a token without text has the empty text.
    pub fn text(&self) -> (s: String)
        ensures
            s@ == self@.chars(),
    {
        match &self.str_value {
            Some(s) => s.clone(),
            None => String::new(),
        }
    }

    /// Whether the token is a word.
    pub fn is_word(&self) -> (b: bool)
        ensures
            b == self@.is_word(),
    {
        self.token_type == TokenType::Keyword || self.token_type == TokenType::Identifier
            || self.token_type == TokenType::Integer || self.token_type == TokenType::Numeric
            || self.token_type == TokenType::Unknown
    }

    /// The token's text as characters; none for a token without text.
    pub fn chars(&self) -> (v: Vec<char>)
        ensures
            v@ == self@.chars(),
    {
        match &self.str_value {
            Some(s) => chars_of(s.as_str()),
            None => Vec::new(),
        }
    }
}

/// The words that are keywords, in lower case.
pub open spec fn keywords() -> Seq<Seq<char>> {
    seq![
        "add"@,
        "sub"@,
        "mul"@,
        "div"@,
        "rem"@,
        "shl"@,
        "shr"@,
        "or"@,
        "and"@,
        "xor"@,
        "br"@,
        "bge"@,
        "bgt"@,
        "blt"@,
        "ble"@,
        "jmp"@,
        "ret"@,
        "ceq"@,
        "cgt"@,
        "clt"@,
        "call"@,
        "cp"@,
        "dup"@,
        "ldc"@,
        "nop"@,
        "push"@,
        "pop"@,
    ]
}

/// `word` is `keyword` when upper-case letters count as their lower-case forms.
pub open spec fn folds_to_word(word: Seq<char>, keyword: Seq<char>) -> bool {
    &&& word.len() == keyword.len()
    &&& forall|i: int| 0 <= i < word.len() ==> spec_folds_to(#[trigger] word[i], keyword[i])
}

/// `word` is a keyword, in whatever case it is written.
pub open spec fn spec_is_keyword(word: Seq<char>) -> bool {
    exists|k: int| 0 <= k < keywords().len() && folds_to_word(word, #[trigger] keywords()[k])
}

/// The kind of the token that a punctuation character makes.
pub open spec fn punctuation_kind(c: char) -> TokenType
    recommends
        spec_is_punctuation(c),
{
    if c == '\n' {
        TokenType::NewLine
    } else if c == '[' {
        TokenType::LeftBrace
    } else if c == ']' {
        TokenType::RightBrace
    } else if c == '{' {
        TokenType::LeftCurly
    } else if c == '}' {
        TokenType::RightCurly
    } else if c == '.' {
        TokenType::Dot
    } else {
        TokenType::Colon
    }
}

/// The kind of a token with the text `word`. The first of these that applies
/// decides: a single punctuation character has its own kind; a keyword in any
/// case is a `Keyword`; a letter followed by letters and digits is an
/// `Identifier`; one digit or more is an `Integer`; every other text is
/// `Unknown`, so `5a`, `-5`, `a_b` and a string in quotes are.
pub open spec fn classify(word: Seq<char>) -> TokenType {
    if word.len() == 1 && spec_is_punctuation(word[0]) {
        punctuation_kind(word[0])
    } else if spec_is_keyword(word) {
        TokenType::Keyword
    } else if is_identifier(word) {
        TokenType::Identifier
    } else if is_integer(word) {
        TokenType::Integer
    } else {
        TokenType::Unknown
    }
}

/// Of a word that is no punctuation character and no keyword, the shape of
/// the whole word decides: it is an `Identifier` exactly when it is a letter
/// followed by letters and digits, an `Integer` exactly when it is one digit
/// or more, and `Unknown` exactly when it is neither.
pub proof fn lemma_classify_word(word: Seq<char>)
    requires
        !(word.len() == 1 && spec_is_punctuation(word[0])),
        !spec_is_keyword(word),
    ensures
        classify(word) == TokenType::Identifier <==> is_identifier(word),
        classify(word) == TokenType::Integer <==> is_integer(word),
        classify(word) == TokenType::Unknown <==> !is_identifier(word) && !is_integer(word),
{
    lemma_shapes_exclude(word);
}

/// Whether `word` is `keyword` but for the case of its letters.
pub fn folds_to_keyword(word: &Vec<char>, keyword: &str) -> (b: bool)
    ensures
        b == folds_to_word(word@, keyword@),
{
    let k = chars_of(keyword);
    if word.len() != k.len() {
        return false;
    }
    let mut i: usize = 0;
    while i < word.len()
        invariant
            i <= word.len(),
            word.len() == k.len(),
            k@ == keyword@,
            forall|j: int| 0 <= j < i ==> spec_folds_to(#[trigger] word@[j], k@[j]),
        decreases word.len() - i,
    {
        if !folds_to(word[i], k[i]) {
            return false;
        }
        i += 1;
    }
    true
}

/// Whether `word` is a keyword, in whatever case it is written.
pub fn is_keyword(word: &Vec<char>) -> (b: bool)
    ensures
        b == spec_is_keyword(word@),
{
    let list: [&str; 27] = [
        "add",
        "sub",
        "mul",
        "div",
        "rem",
        "shl",
        "shr",
        "or",
        "and",
        "xor",
        "br",
        "bge",
        "bgt",
        "blt",
        "ble",
        "jmp",
        "ret",
        "ceq",
        "cgt",
        "clt",
        "call",
        "cp",
        "dup",
        "ldc",
        "nop",
        "push",
        "pop",
    ];
    assert(list@.len() == keywords().len());
    assert(forall|j: int| 0 <= j < 27 ==> (#[trigger] list@[j])@ == keywords()[j]);
    let mut i: usize = 0;
    while i < 27
        invariant
            i <= 27,
            keywords().len() == 27,
            forall|j: int| 0 <= j < 27 ==> (#[trigger] list@[j])@ == keywords()[j],
            forall|j: int| 0 <= j < i ==> !folds_to_word(word@, #[trigger] keywords()[j]),
        decreases 27 - i,
    {
        if folds_to_keyword(word, list[i]) {
            assert(folds_to_word(word@, keywords()[i as int]));
            return true;
        }
        i += 1;
    }
    false
}

} // verus!
