//! What holds of the tokens of every text: they cover the text, and they come
//! in the order of their places.

use vstd::prelude::*;

use crate::scanner::{
    blank, column_at, lemma_run_end, lemma_token_at_bounds, line_at, run_end, token_at,
    tokens_from, word_char, Scanner,
};
use crate::text::{spec_is_blank, spec_is_punctuation};
use crate::token::{Token, TokenView};

verus! {

/// The number of characters in the texts of `tokens`, all together.
pub open spec fn text_length(tokens: Seq<TokenView>) -> nat
    decreases tokens.len(),
{
    if tokens.len() == 0 {
        0
    } else {
        tokens[0].chars().len() + text_length(tokens.drop_first())
    }
}

/// The number of blanks in `input[from..to]`.
pub open spec fn blanks_between(input: Seq<char>, from: nat, to: nat) -> nat
    decreases to - from,
{
    if from >= to {
        0
    } else if spec_is_blank(input[from as int]) {
        1 + blanks_between(input, from + 1, to)
    } else {
        blanks_between(input, from + 1, to)
    }
}

/// The texts of `tokens`, one behind the other.
pub open spec fn joined_text(tokens: Seq<TokenView>) -> Seq<char>
    decreases tokens.len(),
{
    if tokens.len() == 0 {
        Seq::empty()
    } else {
        tokens[0].chars() + joined_text(tokens.drop_first())
    }
}

/// The characters of `input` from `from` on that are not blanks.
pub open spec fn without_blanks(input: Seq<char>, from: nat) -> Seq<char>
    decreases input.len() - from,
{
    if from >= input.len() {
        Seq::empty()
    } else if spec_is_blank(input[from as int]) {
        without_blanks(input, from + 1)
    } else {
        seq![input[from as int]] + without_blanks(input, from + 1)
    }
}

/// The place `(line, column)` of `a` comes before that of `b`.
pub open spec fn place_before(a: (nat, nat), b: (nat, nat)) -> bool {
    a.0 < b.0 || (a.0 == b.0 && a.1 < b.1)
}

/// The place of the character at `pos`.
pub open spec fn place_at(input: Seq<char>, pos: nat) -> (nat, nat) {
    (line_at(input, pos), column_at(input, pos))
}

proof fn lemma_blanks_split(input: Seq<char>, from: nat, mid: nat, to: nat)
    requires
        from <= mid <= to,
    ensures
        blanks_between(input, from, to) == blanks_between(input, from, mid) + blanks_between(
            input,
            mid,
            to,
        ),
    decreases mid - from,
{
    if from < mid {
        lemma_blanks_split(input, from + 1, mid, to);
    }
}

proof fn lemma_blanks_all(input: Seq<char>, from: nat, to: nat)
    requires
        from <= to,
        forall|i: int| from <= i < to ==> spec_is_blank(#[trigger] input[i]),
    ensures
        blanks_between(input, from, to) == to - from,
    decreases to - from,
{
    if from < to {
        lemma_blanks_all(input, from + 1, to);
    }
}

proof fn lemma_blanks_none(input: Seq<char>, from: nat, to: nat)
    requires
        from <= to,
        forall|i: int| from <= i < to ==> !spec_is_blank(#[trigger] input[i]),
    ensures
        blanks_between(input, from, to) == 0,
    decreases to - from,
{
    if from < to {
        lemma_blanks_none(input, from + 1, to);
    }
}

/// Every character from `pos` on is a blank or belongs to the text of exactly
/// one token: the lengths of the tokens' texts and the number of blanks add up
/// to the number of characters.
pub proof fn lemma_tokens_cover_text(input: Seq<char>, pos: nat)
    requires
        pos <= input.len(),
    ensures
        text_length(tokens_from(input, pos)) + blanks_between(input, pos, input.len())
            == input.len() - pos,
    decreases input.len() - pos,
{
    lemma_run_end(input, pos, blank());
    let start = run_end(input, pos, blank());
    lemma_blanks_all(input, pos, start);
    lemma_blanks_split(input, pos, start, input.len());
    match token_at(input, pos) {
        None => {
            assert(start == input.len());
        },
        Some((token, next)) => {
            lemma_token_at_bounds(input, pos);
            if !spec_is_punctuation(input[start as int]) {
                lemma_run_end(input, start, word_char());
            }
            assert forall|i: int| start <= i < next implies !spec_is_blank(
                #[trigger] input[i],
            ) by {
                if !spec_is_punctuation(input[start as int]) {
                    assert(word_char()(input[i]));
                }
            }
            lemma_blanks_none(input, start, next);
            lemma_blanks_split(input, start, next, input.len());
            lemma_tokens_cover_text(input, next);
            let rest = tokens_from(input, next);
            assert(tokens_from(input, pos).drop_first() == rest);
            assert(tokens_from(input, pos)[0] == token);
            assert(token.chars().len() == next - start);
        },
    }
}

proof fn lemma_without_blanks_skips(input: Seq<char>, from: nat, to: nat)
    requires
        from <= to <= input.len(),
        forall|i: int| from <= i < to ==> spec_is_blank(#[trigger] input[i]),
    ensures
        without_blanks(input, from) == without_blanks(input, to),
    decreases to - from,
{
    if from < to {
        lemma_without_blanks_skips(input, from + 1, to);
    }
}

proof fn lemma_without_blanks_keeps(input: Seq<char>, from: nat, to: nat)
    requires
        from <= to <= input.len(),
        forall|i: int| from <= i < to ==> !spec_is_blank(#[trigger] input[i]),
    ensures
        without_blanks(input, from) == input.subrange(from as int, to as int) + without_blanks(
            input,
            to,
        ),
    decreases to - from,
{
    if from < to {
        lemma_without_blanks_keeps(input, from + 1, to);
        assert(input.subrange(from as int, to as int) == seq![input[from as int]]
            + input.subrange(from as int + 1, to as int));
        assert(seq![input[from as int]] + (input.subrange(from as int + 1, to as int) + without_blanks(
            input,
            to,
        )) == (seq![input[from as int]] + input.subrange(from as int + 1, to as int)) + without_blanks(
            input,
            to,
        ));
    } else {
        assert(input.subrange(from as int, to as int) + without_blanks(input, to)
            == without_blanks(input, to));
    }
}

/// The texts of the tokens, one behind the other, are the text without its
/// blanks: no character is lost, none comes twice, and none changes its
/// place.
pub proof fn lemma_tokens_spell_text(input: Seq<char>, pos: nat)
    requires
        pos <= input.len(),
    ensures
        joined_text(tokens_from(input, pos)) == without_blanks(input, pos),
    decreases input.len() - pos,
{
    lemma_run_end(input, pos, blank());
    let start = run_end(input, pos, blank());
    lemma_without_blanks_skips(input, pos, start);
    match token_at(input, pos) {
        None => {
            assert(start == input.len());
        },
        Some((token, next)) => {
            lemma_token_at_bounds(input, pos);
            if !spec_is_punctuation(input[start as int]) {
                lemma_run_end(input, start, word_char());
            }
            assert forall|i: int| start <= i < next implies !spec_is_blank(
                #[trigger] input[i],
            ) by {
                if !spec_is_punctuation(input[start as int]) {
                    assert(word_char()(input[i]));
                }
            }
            lemma_without_blanks_keeps(input, start, next);
            lemma_tokens_spell_text(input, next);
            assert(tokens_from(input, pos).drop_first() == tokens_from(input, next));
            assert(tokens_from(input, pos)[0] == token);
        },
    }
}

/// A text has no more tokens than characters.
pub proof fn lemma_token_count(input: Seq<char>, pos: nat)
    requires
        pos <= input.len(),
    ensures
        tokens_from(input, pos).len() <= input.len() - pos,
    decreases input.len() - pos,
{
    if token_at(input, pos) is Some {
        lemma_token_at_bounds(input, pos);
        lemma_token_count(input, token_at(input, pos).unwrap().1);
    }
}

/// A later position has a later place: lines and columns only advance.
pub proof fn lemma_places_advance(input: Seq<char>, p: nat, q: nat)
    requires
        p < q,
    ensures
        place_before(place_at(input, p), place_at(input, q)),
    decreases q - p,
{
    if p + 1 < q {
        lemma_places_advance(input, p, (q - 1) as nat);
    }
}

proof fn lemma_tokens_not_before(input: Seq<char>, pos: nat, k: int)
    requires
        0 <= k < tokens_from(input, pos).len(),
    ensures
        ({
            let t = tokens_from(input, pos)[k];
            (t.line, t.column) == place_at(input, pos) || place_before(
                place_at(input, pos),
                (t.line, t.column),
            )
        }),
    decreases k,
{
    lemma_token_at_bounds(input, pos);
    let start = run_end(input, pos, blank());
    let next = token_at(input, pos).unwrap().1;
    if pos < start {
        lemma_places_advance(input, pos, start);
    }
    if k > 0 {
        assert(tokens_from(input, pos)[k] == tokens_from(input, next)[k - 1]);
        lemma_tokens_not_before(input, next, k - 1);
        lemma_places_advance(input, pos, next);
    }
}

/// Of two tokens of a text, the earlier one has the earlier place.
pub proof fn lemma_tokens_in_order(input: Seq<char>, pos: nat, i: int, j: int)
    requires
        0 <= i < j < tokens_from(input, pos).len(),
    ensures
        ({
            let a = tokens_from(input, pos)[i];
            let b = tokens_from(input, pos)[j];
            place_before((a.line, a.column), (b.line, b.column))
        }),
    decreases i,
{
    lemma_token_at_bounds(input, pos);
    let start = run_end(input, pos, blank());
    let next = token_at(input, pos).unwrap().1;
    assert(tokens_from(input, pos)[j] == tokens_from(input, next)[j - 1]);
    if i == 0 {
        lemma_tokens_not_before(input, next, j - 1);
        lemma_places_advance(input, start, next);
    } else {
        assert(tokens_from(input, pos)[i] == tokens_from(input, next)[i - 1]);
        lemma_tokens_in_order(input, next, i - 1, j - 1);
    }
}

/// Consumes every token that is left, and returns them in order.
pub fn drain(scanner: &mut Scanner) -> (tokens: Vec<Token>)
    requires
        old(scanner).wf(),
    ensures
        final(scanner).wf(),
        final(scanner)@.input == old(scanner)@.input,
        final(scanner)@.remaining().len() == 0,
        tokens@.len() == old(scanner)@.remaining().len(),
        forall|i: int| 0 <= i < tokens@.len() ==> (#[trigger] tokens@[i])@ == old(scanner)@.remaining()[i],
{
    let mut tokens: Vec<Token> = Vec::new();
    let ghost all = scanner@.remaining();
    loop
        invariant
            scanner.wf(),
            scanner@.input == old(scanner)@.input,
            all == old(scanner)@.remaining(),
            tokens@.len() + scanner@.remaining().len() == all.len(),
            scanner@.remaining() == all.skip(tokens@.len() as int),
            forall|i: int| 0 <= i < tokens@.len() ==> (#[trigger] tokens@[i])@ == all[i],
        ensures
            scanner@.remaining().len() == 0,
        decreases scanner@.remaining().len(),
    {
        match scanner.consume_token() {
            Some(t) => {
                assert(all.skip(tokens@.len() as int).drop_first() == all.skip(
                    tokens@.len() as int + 1,
                ));
                tokens.push(t);
            },
            None => {
                break ;
            },
        }
    }
    tokens
}

} // verus!
