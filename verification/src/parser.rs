//! The parser: it reads the tokens of a scanner as instructions and label
//! definitions, and makes a program of them.
//!
//! A source text is a list of lines. A line is empty, or defines a label
//! (`:name`), or holds an instruction: the name of an operation, then its
//! operands. A label definition may stand before an instruction on the same
//! line. An operand is a label (`:name`), a memory reference (`[name]`), a
//! string in double quotes, a number, or the name of a register.
//!
//! A number is an unsigned decimal number of 32 bits: digits only, `u32::MAX`
//! at most. There are no negative numbers, fractions or exponents: `-5` and
//! `1e5` are malformed operands, and so is `5.0`, which the scanner splits
//! at the dot.
//!
//! The names of operations are written in upper case and are read letter
//! for letter: `ADD` is an operation, `add` is not. The scanner calls a word
//! a keyword in whatever case it stands; the parser does not go by that, it
//! reads the word's text.
//!
//! The grammar is stated twice: as functions on a sequence of tokens
//! (`spec_instruction`, `spec_parse` and the others), which say what is read
//! and how many tokens it takes, and as the parser's methods, which are
//! proved to read just that.

use vstd::prelude::*;

use crate::instruction::{
    argument_view, opcode_named, Argument, ArgumentView, Instruction, InstructionView, Opcode,
};
use crate::names::NameTable;
use crate::program::{
    first_undefined, instruction_views, labels_in_range, lemma_first_undefined_none,
    undefined_in, ParseError, ParseErrorView, Program, ProgramView,
};
use crate::scanner::Scanner;
use crate::stream::lemma_token_count;
use crate::text::{
    all_alphanumeric, all_digits, decimal_value, is_all_alphanumeric, is_all_digits,
    is_alphanumeric, parse_decimal, spec_is_alphanumeric, string_of,
};
use crate::token::{Token, TokenType, TokenView};

verus! {

/// The outcome of reading something off the front of a list of tokens: what
/// was read, or why nothing could be, and how many tokens were taken.
pub struct Parsed<T> {
    pub result: Result<T, ParseErrorView>,
    pub consumed: nat,
}

pub open spec fn done<T>(value: T, consumed: nat) -> Parsed<T> {
    Parsed { result: Ok(value), consumed }
}

pub open spec fn failed<T>(error: ParseErrorView, consumed: nat) -> Parsed<T> {
    Parsed { result: Err(error), consumed }
}

/// `text[from..to]` is made of letters, digits and the escapes `\"`, `\n`
/// and `\\` only.
pub open spec fn string_body(text: Seq<char>, from: int, to: int) -> bool
    decreases to - from,
{
    if from >= to {
        true
    } else if spec_is_alphanumeric(text[from]) {
        string_body(text, from + 1, to)
    } else if text[from] == '\\' && from + 1 < to && (text[from + 1] == '"' || text[from + 1] == 'n'
        || text[from + 1] == '\\') {
        string_body(text, from + 2, to)
    } else {
        false
    }
}

/// What stands between the quotes, if `text` is a string: a double quote, a
/// body, and a double quote that is not part of an escape.
pub open spec fn spec_string(text: Seq<char>) -> Option<Seq<char>> {
    if text.len() >= 2 && text[0] == '"' && text[text.len() - 1] == '"' && string_body(
        text,
        1,
        text.len() - 1,
    ) {
        Some(text.subrange(1, text.len() - 1))
    } else {
        None
    }
}

/// The operand that `text` writes, if it is a number or a string. A number is
/// written with decimal digits only and is `u32::MAX` at most: the machine
/// counts in unsigned 32-bit numbers, so a sign, a fraction or an exponent
/// makes no number, and a word that has one is no operand at all.
pub open spec fn spec_literal(text: Seq<char>) -> Option<ArgumentView> {
    if text.len() > 0 && all_digits(text) {
        if decimal_value(text) <= u32::MAX {
            Some(ArgumentView::Literal(decimal_value(text) as u32))
        } else {
            None
        }
    } else {
        match spec_string(text) {
            Some(body) => Some(ArgumentView::String(body)),
            None => None,
        }
    }
}

/// The operand that `text` writes, if it is the name of a register: letters
/// and digits, not digits only.
pub open spec fn spec_register(text: Seq<char>) -> Option<ArgumentView> {
    if text.len() > 0 && all_alphanumeric(text) && !all_digits(text) {
        Some(ArgumentView::Register(text))
    } else {
        None
    }
}

/// The operand that a word writes: a number or a string if it is one, else a
/// register if it is the name of one.
pub open spec fn spec_word_operand(text: Seq<char>) -> Option<ArgumentView> {
    match spec_literal(text) {
        Some(arg) => Some(arg),
        None => spec_register(text),
    }
}

/// The operation that a token names, if it is a word that names one.
pub open spec fn spec_opcode(token: TokenView) -> Option<Opcode> {
    if token.is_word() {
        opcode_named(token.chars())
    } else {
        None
    }
}

/// A label: a colon, then a word, which is the label's name.
pub open spec fn spec_label(tokens: Seq<TokenView>) -> Parsed<ArgumentView> {
    if tokens.len() == 0 {
        failed(ParseErrorView::MalformedOperand, 0)
    } else if tokens[0].kind != TokenType::Colon {
        failed(ParseErrorView::MalformedOperand, 1)
    } else if tokens.len() >= 2 && tokens[1].is_word() {
        done(ArgumentView::Label(tokens[1].chars()), 2)
    } else {
        failed(ParseErrorView::MalformedOperand, 1)
    }
}

/// A memory reference: an opening bracket, a word of letters and digits,
/// which is the reference's name, and a closing bracket.
pub open spec fn spec_reference(tokens: Seq<TokenView>) -> Parsed<ArgumentView> {
    if tokens.len() == 0 {
        failed(ParseErrorView::MalformedOperand, 0)
    } else if tokens[0].kind != TokenType::LeftBrace {
        failed(ParseErrorView::MalformedOperand, 1)
    } else if !(tokens.len() >= 2 && tokens[1].is_word() && tokens[1].chars().len() > 0
        && all_alphanumeric(tokens[1].chars())) {
        failed(ParseErrorView::MalformedOperand, 1)
    } else if !(tokens.len() >= 3 && tokens[2].kind == TokenType::RightBrace) {
        failed(ParseErrorView::MalformedOperand, 2)
    } else {
        done(ArgumentView::Reference(tokens[1].chars()), 3)
    }
}

/// An operand. The first token decides what is read: a colon starts a label,
/// an opening bracket a memory reference, and a word is a string, a number or
/// a register. Any other token is taken and refused.
pub open spec fn spec_arg(tokens: Seq<TokenView>) -> Parsed<ArgumentView> {
    if tokens.len() == 0 {
        failed(ParseErrorView::MalformedOperand, 0)
    } else if tokens[0].kind == TokenType::Colon {
        spec_label(tokens)
    } else if tokens[0].kind == TokenType::LeftBrace {
        spec_reference(tokens)
    } else if tokens[0].is_word() {
        match spec_word_operand(tokens[0].chars()) {
            Some(arg) => done(arg, 1),
            None => failed(ParseErrorView::MalformedOperand, 1),
        }
    } else {
        failed(ParseErrorView::MalformedOperand, 1)
    }
}

/// The line is over: no token is left, or the next one is a line feed.
pub open spec fn ends_line(tokens: Seq<TokenView>) -> bool {
    tokens.len() == 0 || tokens[0].kind == TokenType::NewLine
}

/// The number of tokens that end a line at the front of `tokens`: one line
/// feed, if it is there.
pub open spec fn spec_sep(tokens: Seq<TokenView>) -> nat {
    if tokens.len() > 0 && tokens[0].kind == TokenType::NewLine {
        1
    } else {
        0
    }
}

/// The operands of an instruction: all that stands before the end of the
/// line, which must be two operands at most.
pub open spec fn spec_operands(tokens: Seq<TokenView>) -> Parsed<
    (Option<ArgumentView>, Option<ArgumentView>),
> {
    if ends_line(tokens) {
        done((None, None), 0)
    } else {
        let first = spec_arg(tokens);
        match first.result {
            Err(e) => failed(e, first.consumed),
            Ok(a) => {
                let rest = tokens.skip(first.consumed as int);
                if ends_line(rest) {
                    done((Some(a), None), first.consumed)
                } else {
                    let second = spec_arg(rest);
                    let consumed = first.consumed + second.consumed;
                    match second.result {
                        Err(e) => failed(e, consumed),
                        Ok(b) => if ends_line(rest.skip(second.consumed as int)) {
                            done((Some(a), Some(b)), consumed)
                        } else {
                            failed(ParseErrorView::ArityMismatch, consumed)
                        },
                    }
                }
            },
        }
    }
}

/// An instruction: the name of an operation, its operands, and the line feed
/// that ends the line, if there is one. The operands must be those that the
/// operation takes.
pub open spec fn spec_instruction(tokens: Seq<TokenView>) -> Parsed<InstructionView> {
    if tokens.len() == 0 {
        failed(ParseErrorView::UnknownOpcode, 0)
    } else {
        match spec_opcode(tokens[0]) {
            None => failed(ParseErrorView::UnknownOpcode, 1),
            Some(opcode) => {
                let operands = spec_operands(tokens.skip(1));
                match operands.result {
                    Err(e) => failed(e, 1 + operands.consumed),
                    Ok((arg1, arg2)) => {
                        let consumed = 1 + operands.consumed + spec_sep(
                            tokens.skip(1 + operands.consumed as int),
                        );
                        let instruction = InstructionView { opcode, arg1, arg2 };
                        if instruction.well_shaped() {
                            done(instruction, consumed)
                        } else {
                            failed(ParseErrorView::ArityMismatch, consumed)
                        }
                    },
                }
            },
        }
    }
}

/// The instructions and labels of `tokens`, added to those read so far. A
/// line feed is passed over; a colon starts the definition of a label, which
/// names the index of the instruction that comes next; anything else starts
/// an instruction. A label that is defined again names the later place.
pub open spec fn spec_statements(
    tokens: Seq<TokenView>,
    instructions: Seq<InstructionView>,
    labels: Map<Seq<char>, u32>,
) -> Result<ProgramView, ParseErrorView>
    decreases tokens.len(),
    via spec_statements_decreases
{
    if tokens.len() == 0 {
        Ok(ProgramView { instructions, labels })
    } else if tokens[0].kind == TokenType::NewLine {
        spec_statements(tokens.skip(1), instructions, labels)
    } else if tokens[0].kind == TokenType::Colon {
        let label = spec_label(tokens);
        match label.result {
            Ok(ArgumentView::Label(name)) => spec_statements(
                tokens.skip(label.consumed as int),
                instructions,
                labels.insert(name, instructions.len() as u32),
            ),
            Ok(_) => Err(ParseErrorView::MalformedOperand),
            Err(e) => Err(e),
        }
    } else {
        let instruction = spec_instruction(tokens);
        match instruction.result {
            Ok(i) => spec_statements(
                tokens.skip(instruction.consumed as int),
                instructions.push(i),
                labels,
            ),
            Err(e) => Err(e),
        }
    }
}

#[via_fn]
proof fn spec_statements_decreases(
    tokens: Seq<TokenView>,
    instructions: Seq<InstructionView>,
    labels: Map<Seq<char>, u32>,
) {
    if tokens.len() > 0 {
        lemma_arg_consumed(tokens);
        lemma_instruction_consumed(tokens);
    }
}

/// The program that `tokens` write: their instructions and labels, if every
/// label that an operand names is defined somewhere among them.
pub open spec fn spec_parse(tokens: Seq<TokenView>) -> Result<ProgramView, ParseErrorView> {
    match spec_statements(tokens, Seq::empty(), Map::empty()) {
        Err(e) => Err(e),
        Ok(program) => match first_undefined(program.instructions, program.labels, 0) {
            Some(name) => Err(ParseErrorView::UndefinedLabel(name)),
            None => Ok(program),
        },
    }
}

/// Parsing is all or nothing. A program that is parsed defines every label
/// that its operands name; and where an undefined label is reported, the
/// instructions and label definitions are in order up to the end of the
/// tokens, and the label is the first that an operand names without a
/// definition.
pub proof fn lemma_parse_resolves_labels(tokens: Seq<TokenView>)
    ensures
        spec_parse(tokens) matches Ok(program) ==> forall|i: int|
            0 <= i < program.instructions.len() ==> undefined_in(
                #[trigger] program.instructions[i],
                program.labels,
            ) is None,
        spec_parse(tokens) matches Err(ParseErrorView::UndefinedLabel(name)) ==> {
            &&& spec_statements(tokens, Seq::empty(), Map::empty()) matches Ok(program)
            &&& first_undefined(program.instructions, program.labels, 0) == Some(name)
        },
{
    match spec_statements(tokens, Seq::empty(), Map::empty()) {
        Ok(program) => {
            if first_undefined(program.instructions, program.labels, 0) is None {
                lemma_first_undefined_none(program.instructions, program.labels, 0);
            }
        },
        Err(e) => {
            lemma_statements_errors(tokens, Seq::empty(), Map::empty());
        },
    }
}

/// Reading instructions and label definitions never reports an undefined
/// label: that is found only when all of them are read.
pub proof fn lemma_statements_errors(
    tokens: Seq<TokenView>,
    instructions: Seq<InstructionView>,
    labels: Map<Seq<char>, u32>,
)
    ensures
        spec_statements(tokens, instructions, labels) matches Err(e) ==> !(e
            is UndefinedLabel),
    decreases tokens.len(),
{
    if tokens.len() > 0 {
        lemma_arg_consumed(tokens);
        lemma_instruction_consumed(tokens);
        if tokens[0].kind == TokenType::NewLine {
            lemma_statements_errors(tokens.skip(1), instructions, labels);
        } else if tokens[0].kind == TokenType::Colon {
            let label = spec_label(tokens);
            match label.result {
                Ok(ArgumentView::Label(name)) => {
                    lemma_statements_errors(
                        tokens.skip(label.consumed as int),
                        instructions,
                        labels.insert(name, instructions.len() as u32),
                    );
                },
                _ => {},
            }
        } else {
            let instruction = spec_instruction(tokens);
            lemma_operands_errors(tokens.skip(1));
            match instruction.result {
                Ok(i) => {
                    lemma_statements_errors(
                        tokens.skip(instruction.consumed as int),
                        instructions.push(i),
                        labels,
                    );
                },
                Err(e) => {},
            }
        }
    }
}

/// Reading operands reports malformed operands and arity mismatches only.
pub proof fn lemma_operands_errors(tokens: Seq<TokenView>)
    ensures
        spec_operands(tokens).result matches Err(e) ==> e is MalformedOperand || e
            is ArityMismatch,
{
}

/// An operand takes no more tokens than there are, and at least one where it
/// is read.
pub proof fn lemma_arg_consumed(tokens: Seq<TokenView>)
    ensures
        spec_arg(tokens).consumed <= tokens.len(),
        spec_label(tokens).consumed <= tokens.len(),
        spec_reference(tokens).consumed <= tokens.len(),
        tokens.len() > 0 ==> spec_arg(tokens).consumed >= 1,
        spec_label(tokens).result is Ok ==> spec_label(tokens).consumed >= 1,
{
}

/// The operands of an instruction take no more tokens than there are.
pub proof fn lemma_operands_consumed(tokens: Seq<TokenView>)
    ensures
        spec_operands(tokens).consumed <= tokens.len(),
{
    lemma_arg_consumed(tokens);
    if !ends_line(tokens) {
        let first = spec_arg(tokens);
        lemma_arg_consumed(tokens.skip(first.consumed as int));
    }
}

/// An instruction takes no more tokens than there are, and at least one where
/// there is any.
pub proof fn lemma_instruction_consumed(tokens: Seq<TokenView>)
    ensures
        spec_instruction(tokens).consumed <= tokens.len(),
        tokens.len() > 0 ==> spec_instruction(tokens).consumed >= 1,
{
    if tokens.len() > 0 {
        lemma_operands_consumed(tokens.skip(1));
    }
}

/// What stands between the quotes, if `text` is a string.
pub fn string(text: &Vec<char>) -> (body: Option<String>)
    ensures
        match body {
            Some(s) => spec_string(text@) == Some(s@),
            None => spec_string(text@) is None,
        },
{
    let n = text.len();
    if n < 2 || text[0] != '"' || text[n - 1] != '"' {
        return None;
    }
    let mut i: usize = 1;
    while i < n - 1
        invariant
            1 <= i <= n - 1,
            n == text.len(),
            string_body(text@, 1, n - 1) == string_body(text@, i as int, n - 1),
        decreases n - i,
    {
        let c = text[i];
        if is_alphanumeric(c) {
            i += 1;
        } else if c == '\\' && i + 1 < n - 1 && (text[i + 1] == '"' || text[i + 1] == 'n' || text[i
            + 1] == '\\') {
            i += 2;
        } else {
            return None;
        }
    }
    Some(string_of(text, 1, n - 1))
}

/// The operand that `text` writes, if it is a number or a string: decimal
/// digits that write `u32::MAX` at most, or a body in double quotes.
pub fn literal(text: &Vec<char>) -> (arg: Option<Argument>)
    ensures
        argument_view(arg) == spec_literal(text@),
{
    if text.len() > 0 && is_all_digits(text) {
        match parse_decimal(text, u32::MAX) {
            Some(n) => Some(Argument::Literal(n)),
            None => None,
        }
    } else {
        match string(text) {
            Some(body) => Some(Argument::String(body)),
            None => None,
        }
    }
}

/// The operand that `text` writes, if it is the name of a register.
pub fn register(text: &Vec<char>) -> (arg: Option<Argument>)
    ensures
        argument_view(arg) == spec_register(text@),
{
    if text.len() > 0 && is_all_alphanumeric(text) && !is_all_digits(text) {
        let name = string_of(text, 0, text.len());
        assert(text@.subrange(0, text@.len() as int) == text@);
        Some(Argument::Register(name))
    } else {
        None
    }
}

/// The operation that `token` names, if it is a word that names one.
pub fn opcode(token: &Token) -> (op: Option<Opcode>)
    ensures
        op == spec_opcode(token@),
{
    if token.is_word() {
        let text = token.text();
        Opcode::from_str(text.as_str())
    } else {
        None
    }
}

/// A parser over the tokens of a scanner.
#[derive(Debug)]
pub struct Parser {
    scanner: Scanner,
}

impl View for Parser {
    type V = Seq<TokenView>;

    /// The tokens that are still to be read.
    closed spec fn view(&self) -> Seq<TokenView> {
        self.scanner@.remaining()
    }
}

impl Parser {
    pub closed spec fn wf(&self) -> bool {
        self.scanner.wf()
    }

    /// A parser that reads what `scanner` has not handed out yet.
    pub fn new(scanner: Scanner) -> (parser: Parser)
        requires
            scanner.wf(),
        ensures
            parser.wf(),
            parser@ == scanner@.remaining(),
    {
        Parser { scanner }
    }

    /// The tokens that are left can be counted in a register.
    pub proof fn lemma_bounded(&self)
        requires
            self.wf(),
        ensures
            self@.len() <= u32::MAX,
    {
        lemma_token_count(self.scanner@.input, self.scanner@.position);
    }

    /// The kind of the next token, which stays unread.
    pub fn peek_kind(&mut self) -> (kind: Option<TokenType>)
        requires
            old(self).wf(),
        ensures
            final(self).wf(),
            final(self)@ == old(self)@,
            kind == if old(self)@.len() > 0 {
                Some(old(self)@[0].kind)
            } else {
                None
            },
    {
        match self.scanner.peek_token() {
            Some(token) => Some(token.token_type()),
            None => None,
        }
    }

    /// Whether the line is over.
    pub fn at_line_end(&mut self) -> (b: bool)
        requires
            old(self).wf(),
        ensures
            final(self).wf(),
            final(self)@ == old(self)@,
            b == ends_line(old(self)@),
    {
        match self.peek_kind() {
            Some(kind) => kind == TokenType::NewLine,
            None => true,
        }
    }

    /// Reads the line feed that ends a line, if it is the next token.
    pub fn sep(&mut self)
        requires
            old(self).wf(),
        ensures
            final(self).wf(),
            final(self)@ == old(self)@.skip(spec_sep(old(self)@) as int),
    {
        match self.peek_kind() {
            Some(kind) => {
                if kind == TokenType::NewLine {
                    let _ = self.scanner.consume_token();
                    assert(old(self)@.drop_first() == old(self)@.skip(1));
                } else {
                    assert(old(self)@.skip(0) == old(self)@);
                }
            },
            None => {
                assert(old(self)@.skip(0) == old(self)@);
            },
        }
    }

    /// Reads a label: a colon and a name.
    pub fn label(&mut self) -> (r: Result<Argument, ParseError>)
        requires
            old(self).wf(),
        ensures
            final(self).wf(),
            final(self)@ == old(self)@.skip(spec_label(old(self)@).consumed as int),
            match r {
                Ok(arg) => spec_label(old(self)@).result == Ok::<ArgumentView, ParseErrorView>(
                    arg@,
                ),
                Err(e) => spec_label(old(self)@).result == Err::<ArgumentView, ParseErrorView>(
                    e@,
                ),
            },
    {
        let first = match self.scanner.consume_token() {
            Some(token) => token,
            None => {
                assert(old(self)@.skip(0) == old(self)@);
                return Err(ParseError::MalformedOperand);
            },
        };
        assert(old(self)@.drop_first() == old(self)@.skip(1));
        if first.token_type() != TokenType::Colon {
            return Err(ParseError::MalformedOperand);
        }
        match self.scanner.peek_token() {
            Some(name) => {
                if name.is_word() {
                    let _ = self.scanner.consume_token();
                    assert(old(self)@.skip(1).drop_first() == old(self)@.skip(2));
                    assert(old(self)@.skip(1)[0] == old(self)@[1]);
                    Ok(Argument::Label(name.text()))
                } else {
                    assert(old(self)@.skip(1)[0] == old(self)@[1]);
                    Err(ParseError::MalformedOperand)
                }
            },
            None => Err(ParseError::MalformedOperand),
        }
    }

    /// Reads a memory reference: a name in brackets.
    pub fn reference(&mut self) -> (r: Result<Argument, ParseError>)
        requires
            old(self).wf(),
        ensures
            final(self).wf(),
            final(self)@ == old(self)@.skip(spec_reference(old(self)@).consumed as int),
            match r {
                Ok(arg) => spec_reference(old(self)@).result == Ok::<
                    ArgumentView,
                    ParseErrorView,
                >(arg@),
                Err(e) => spec_reference(old(self)@).result == Err::<
                    ArgumentView,
                    ParseErrorView,
                >(e@),
            },
    {
        let first = match self.scanner.consume_token() {
            Some(token) => token,
            None => {
                assert(old(self)@.skip(0) == old(self)@);
                return Err(ParseError::MalformedOperand);
            },
        };
        assert(old(self)@.drop_first() == old(self)@.skip(1));
        if first.token_type() != TokenType::LeftBrace {
            return Err(ParseError::MalformedOperand);
        }
        let name = match self.scanner.peek_token() {
            Some(token) => token,
            None => {
                return Err(ParseError::MalformedOperand);
            },
        };
        assert(old(self)@.skip(1)[0] == old(self)@[1]);
        let chars = name.chars();
        if !(name.is_word() && chars.len() > 0 && is_all_alphanumeric(&chars)) {
            return Err(ParseError::MalformedOperand);
        }
        let _ = self.scanner.consume_token();
        assert(old(self)@.skip(1).drop_first() == old(self)@.skip(2));
        match self.scanner.peek_token() {
            Some(close) => {
                assert(old(self)@.skip(2)[0] == old(self)@[2]);
                if close.token_type() == TokenType::RightBrace {
                    let _ = self.scanner.consume_token();
                    assert(old(self)@.skip(2).drop_first() == old(self)@.skip(3));
                    Ok(Argument::Reference(name.text()))
                } else {
                    Err(ParseError::MalformedOperand)
                }
            },
            None => Err(ParseError::MalformedOperand),
        }
    }

    /// Reads an operand.
    pub fn arg(&mut self) -> (r: Result<Argument, ParseError>)
        requires
            old(self).wf(),
        ensures
            final(self).wf(),
            final(self)@ == old(self)@.skip(spec_arg(old(self)@).consumed as int),
            match r {
                Ok(arg) => spec_arg(old(self)@).result == Ok::<ArgumentView, ParseErrorView>(arg@),
                Err(e) => spec_arg(old(self)@).result == Err::<ArgumentView, ParseErrorView>(e@),
            },
    {
        let kind = match self.peek_kind() {
            Some(kind) => kind,
            None => {
                assert(old(self)@.skip(0) == old(self)@);
                return Err(ParseError::MalformedOperand);
            },
        };
        if kind == TokenType::Colon {
            return self.label();
        }
        if kind == TokenType::LeftBrace {
            return self.reference();
        }
        let token = match self.scanner.consume_token() {
            Some(token) => token,
            None => {
                return Err(ParseError::MalformedOperand);
            },
        };
        assert(old(self)@.drop_first() == old(self)@.skip(1));
        if !token.is_word() {
            return Err(ParseError::MalformedOperand);
        }
        let chars = token.chars();
        match literal(&chars) {
            Some(arg) => Ok(arg),
            None => match register(&chars) {
                Some(arg) => Ok(arg),
                None => Err(ParseError::MalformedOperand),
            },
        }
    }

    /// Reads the operands of an instruction, up to the end of the line.
    pub fn operands(&mut self) -> (r: Result<(Option<Argument>, Option<Argument>), ParseError>)
        requires
            old(self).wf(),
        ensures
            final(self).wf(),
            final(self)@ == old(self)@.skip(spec_operands(old(self)@).consumed as int),
            match r {
                Ok((arg1, arg2)) => spec_operands(old(self)@).result == Ok::<
                    (Option<ArgumentView>, Option<ArgumentView>),
                    ParseErrorView,
                >((argument_view(arg1), argument_view(arg2))),
                Err(e) => spec_operands(old(self)@).result == Err::<
                    (Option<ArgumentView>, Option<ArgumentView>),
                    ParseErrorView,
                >(e@),
            },
    {
        let ghost tokens = self@;
        if self.at_line_end() {
            assert(tokens.skip(0) == tokens);
            return Ok((None, None));
        }
        let first = match self.arg() {
            Ok(arg) => arg,
            Err(e) => {
                return Err(e);
            },
        };
        let ghost one = spec_arg(tokens).consumed as int;
        proof {
            lemma_arg_consumed(tokens);
        }
        if self.at_line_end() {
            return Ok((Some(first), None));
        }
        let ghost rest = tokens.skip(one);
        let ghost two = spec_arg(rest).consumed as int;
        proof {
            lemma_arg_consumed(rest);
            assert(rest.skip(two) == tokens.skip(one + two));
        }
        let second = match self.arg() {
            Ok(arg) => arg,
            Err(e) => {
                return Err(e);
            },
        };
        if self.at_line_end() {
            Ok((Some(first), Some(second)))
        } else {
            Err(ParseError::ArityMismatch)
        }
    }

    /// Reads an instruction. The next token must name its operation.
    #[verifier::rlimit(40)]
    pub fn parse_instruction(&mut self) -> (r: Result<Instruction, ParseError>)
        requires
            old(self).wf(),
        ensures
            final(self).wf(),
            final(self)@ == old(self)@.skip(spec_instruction(old(self)@).consumed as int),
            match r {
                Ok(instruction) => instruction@.well_shaped() && spec_instruction(
                    old(self)@,
                ).result == Ok::<InstructionView, ParseErrorView>(instruction@),
                Err(e) => spec_instruction(old(self)@).result == Err::<
                    InstructionView,
                    ParseErrorView,
                >(e@),
            },
    {
        let ghost tokens = self@;
        let head = match self.scanner.consume_token() {
            Some(token) => token,
            None => {
                assert(tokens.skip(0) == tokens);
                return Err(ParseError::UnknownOpcode);
            },
        };
        assert(tokens.drop_first() == tokens.skip(1));
        let op = match opcode(&head) {
            Some(op) => op,
            None => {
                return Err(ParseError::UnknownOpcode);
            },
        };
        let ghost rest = tokens.skip(1);
        let ghost n = spec_operands(rest).consumed as int;
        proof {
            lemma_operands_consumed(rest);
            assert(rest.skip(n) == tokens.skip(1 + n));
        }
        let (arg1, arg2) = match self.operands() {
            Ok(pair) => pair,
            Err(e) => {
                return Err(e);
            },
        };
        let ghost after = tokens.skip(1 + n);
        proof {
            assert(after.skip(spec_sep(after) as int) == tokens.skip(1 + n + spec_sep(after)));
        }
        self.sep();
        match Instruction::new(op, arg1, arg2) {
            Some(instruction) => Ok(instruction),
            None => Err(ParseError::ArityMismatch),
        }
    }

    /// Reads everything that is left as a program.
    pub fn parse(self) -> (r: Result<Program, ParseError>)
        requires
            self.wf(),
        ensures
            match r {
                Ok(program) => program.wf() && spec_parse(self@) == Ok::<
                    ProgramView,
                    ParseErrorView,
                >(program@),
                Err(e) => spec_parse(self@) == Err::<ProgramView, ParseErrorView>(e@),
            },
    {
        let mut parser = self;
        let mut instructions: Vec<Instruction> = Vec::new();
        let mut labels = NameTable::new();
        let ghost all = parser@;
        proof {
            parser.lemma_bounded();
            assert(instruction_views(instructions@) == Seq::<InstructionView>::empty());
        }
        loop
            invariant
                parser.wf(),
                labels.wf(),
                all == self@,
                instructions@.len() + parser@.len() <= all.len() <= u32::MAX,
                labels_in_range(labels@, instructions@.len() as nat),
                forall|i: int|
                    0 <= i < instructions@.len() ==> (#[trigger] instructions@[i])@.well_shaped(),
                spec_statements(all, Seq::empty(), Map::empty()) == spec_statements(
                    parser@,
                    instruction_views(instructions@),
                    labels@,
                ),
            ensures
                parser@.len() == 0,
            decreases parser@.len(),
        {
            let ghost tokens = parser@;
            let kind = match parser.peek_kind() {
                Some(kind) => kind,
                None => {
                    break ;
                },
            };
            proof {
                lemma_arg_consumed(tokens);
                lemma_instruction_consumed(tokens);
            }
            if kind == TokenType::NewLine {
                parser.sep();
            } else if kind == TokenType::Colon {
                match parser.label() {
                    Ok(Argument::Label(name)) => {
                        labels.set(name, instructions.len() as u32);
                    },
                    Ok(_) => {
                        return Err(ParseError::MalformedOperand);
                    },
                    Err(e) => {
                        return Err(e);
                    },
                }
            } else {
                match parser.parse_instruction() {
                    Ok(instruction) => {
                        let ghost before = instructions@;
                        instructions.push(instruction);
                        assert(instruction_views(instructions@) == instruction_views(before).push(
                            instruction@,
                        ));
                    },
                    Err(e) => {
                        return Err(e);
                    },
                }
            }
        }
        Program::resolve(instructions, labels)
    }
}

/// The program that the text behind `scanner` writes, from where the scanner
/// stands.
pub fn parse(scanner: Scanner) -> (r: Result<Program, ParseError>)
    requires
        scanner.wf(),
    ensures
        match r {
            Ok(program) => program.wf() && spec_parse(scanner@.remaining()) == Ok::<
                ProgramView,
                ParseErrorView,
            >(program@),
            Err(e) => spec_parse(scanner@.remaining()) == Err::<ProgramView, ParseErrorView>(
                e@,
            ),
        },
{
    Parser::new(scanner).parse()
}

} // verus!
