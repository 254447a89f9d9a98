//! Character classes, and conversions between strings and character vectors.

use vstd::prelude::*;

verus! {

/// Appending one character to a `String` appends it to the string's view.
pub assume_specification[ std::string::String::push ](s: &mut std::string::String, c: char)
    ensures
        final(s)@ == old(s)@.push(c),
;

/// Space, tab and carriage return separate tokens and belong to none.
pub open spec fn spec_is_blank(c: char) -> bool {
    c == ' ' || c == '\t' || c == '\r'
}

#[verifier::when_used_as_spec(spec_is_blank)]
pub fn is_blank(c: char) -> (b: bool)
    ensures
        b == spec_is_blank(c),
{
    c == ' ' || c == '\t' || c == '\r'
}

/// The characters that are a token by themselves.
pub open spec fn spec_is_punctuation(c: char) -> bool {
    c == '[' || c == ']' || c == '{' || c == '}' || c == ':' || c == '.' || c == '\n'
}

#[verifier::when_used_as_spec(spec_is_punctuation)]
pub fn is_punctuation(c: char) -> (b: bool)
    ensures
        b == spec_is_punctuation(c),
{
    c == '[' || c == ']' || c == '{' || c == '}' || c == ':' || c == '.' || c == '\n'
}

/// A word is a run of characters that are neither blank nor punctuation.
pub open spec fn spec_is_word_char(c: char) -> bool {
    !spec_is_blank(c) && !spec_is_punctuation(c)
}

#[verifier::when_used_as_spec(spec_is_word_char)]
pub fn is_word_char(c: char) -> (b: bool)
    ensures
        b == spec_is_word_char(c),
{
    !is_blank(c) && !is_punctuation(c)
}

pub open spec fn spec_is_upper(c: char) -> bool {
    'A' <= c <= 'Z'
}

#[verifier::when_used_as_spec(spec_is_upper)]
pub fn is_upper(c: char) -> (b: bool)
    ensures
        b == spec_is_upper(c),
{
    'A' <= c && c <= 'Z'
}

/// An ASCII letter of either case.
pub open spec fn spec_is_letter(c: char) -> bool {
    'a' <= c <= 'z' || 'A' <= c <= 'Z'
}

#[verifier::when_used_as_spec(spec_is_letter)]
pub fn is_letter(c: char) -> (b: bool)
    ensures
        b == spec_is_letter(c),
{
    ('a' <= c && c <= 'z') || ('A' <= c && c <= 'Z')
}

/// An ASCII decimal digit.
pub open spec fn spec_is_digit(c: char) -> bool {
    '0' <= c <= '9'
}

#[verifier::when_used_as_spec(spec_is_digit)]
pub fn is_digit(c: char) -> (b: bool)
    ensures
        b == spec_is_digit(c),
{
    '0' <= c && c <= '9'
}

pub open spec fn spec_is_alphanumeric(c: char) -> bool {
    spec_is_letter(c) || spec_is_digit(c)
}

#[verifier::when_used_as_spec(spec_is_alphanumeric)]
pub fn is_alphanumeric(c: char) -> (b: bool)
    ensures
        b == spec_is_alphanumeric(c),
{
    is_letter(c) || is_digit(c)
}

/// `c` is the lower-case letter `k` or its upper-case form.
pub open spec fn spec_folds_to(c: char, k: char) -> bool {
    c == k || (spec_is_upper(c) && c as u32 + 32 == k as u32)
}

#[verifier::when_used_as_spec(spec_folds_to)]
pub fn folds_to(c: char, k: char) -> (b: bool)
    ensures
        b == spec_folds_to(c, k),
{
    c == k || (is_upper(c) && c as u32 + 32 == k as u32)
}

/// The value of the decimal digit `c`.
pub open spec fn digit_value(c: char) -> nat {
    (c as u32 - '0' as u32) as nat
}

/// Every character of `s` is a decimal digit.
pub open spec fn all_digits(s: Seq<char>) -> bool {
    forall|i: int| 0 <= i < s.len() ==> spec_is_digit(#[trigger] s[i])
}

/// Every character of `s` is a letter or a digit.
pub open spec fn all_alphanumeric(s: Seq<char>) -> bool {
    forall|i: int| 0 <= i < s.len() ==> spec_is_alphanumeric(#[trigger] s[i])
}

/// The number that the digits of `s` write in base ten; the empty string writes 0.
pub open spec fn decimal_value(s: Seq<char>) -> nat
    decreases s.len(),
{
    if s.len() == 0 {
        0
    } else {
        decimal_value(s.drop_last()) * 10 + digit_value(s.last())
    }
}

/// The characters of `s`, in order.
pub fn chars_of(s: &str) -> (v: Vec<char>)
    ensures
        v@ == s@,
{
    let mut v: Vec<char> = Vec::new();
    for c in it: s.chars()
        invariant
            it.seq() == s@,
            v@ == s@.take(it.index()),
    {
        v.push(c);
    }
    v
}

/// The string made of the characters `v[from..to]`.
pub fn string_of(v: &Vec<char>, from: usize, to: usize) -> (s: String)
    requires
        from <= to <= v.len(),
    ensures
        s@ == v@.subrange(from as int, to as int),
{
    let mut s = String::new();
    let mut i: usize = from;
    while i < to
        invariant
            from <= i <= to <= v.len(),
            s@ == v@.subrange(from as int, i as int),
        decreases to - i,
    {
        s.push(v[i]);
        i += 1;
    }
    s
}

/// Whether `v` is made of digits only.
pub fn is_all_digits(v: &Vec<char>) -> (b: bool)
    ensures
        b == all_digits(v@),
{
    let mut i: usize = 0;
    while i < v.len()
        invariant
            i <= v.len(),
            all_digits(v@.take(i as int)),
        decreases v.len() - i,
    {
        if !is_digit(v[i]) {
            return false;
        }
        i += 1;
        assert forall|k: int| 0 <= k < i implies spec_is_digit(#[trigger] v@.take(i as int)[k]) by {
            if k < i - 1 {
                assert(v@.take(i as int)[k] == v@.take(i - 1)[k]);
            }
        }
    }
    assert(v@.take(i as int) == v@);
    true
}

/// Whether `v` is made of letters and digits only.
pub fn is_all_alphanumeric(v: &Vec<char>) -> (b: bool)
    ensures
        b == all_alphanumeric(v@),
{
    let mut i: usize = 0;
    while i < v.len()
        invariant
            i <= v.len(),
            all_alphanumeric(v@.take(i as int)),
        decreases v.len() - i,
    {
        if !is_alphanumeric(v[i]) {
            return false;
        }
        i += 1;
        assert forall|k: int| 0 <= k < i implies spec_is_alphanumeric(
            #[trigger] v@.take(i as int)[k],
        ) by {
            if k < i - 1 {
                assert(v@.take(i as int)[k] == v@.take(i - 1)[k]);
            }
        }
    }
    assert(v@.take(i as int) == v@);
    true
}

/// A number never gets smaller when a digit is written behind it.
pub proof fn lemma_decimal_value_grows(s: Seq<char>, n: int)
    requires
        0 <= n <= s.len(),
    ensures
        decimal_value(s.take(n)) <= decimal_value(s),
    decreases s.len() - n,
{
    if n == s.len() {
        assert(s.take(n) == s);
    } else {
        lemma_decimal_value_grows(s, n + 1);
        assert(s.take(n + 1).drop_last() == s.take(n));
    }
}

/// The number that `v` writes, if `v` is made of digits and the number is at
/// most `max`.
pub fn parse_decimal(v: &Vec<char>, max: u32) -> (r: Option<u32>)
    ensures
        r is Some <==> all_digits(v@) && v@.len() > 0 && decimal_value(v@) <= max,
        r matches Some(n) ==> n == decimal_value(v@),
{
    if v.len() == 0 {
        return None;
    }
    let mut acc: u64 = 0;
    let mut i: usize = 0;
    while i < v.len()
        invariant
            i <= v.len(),
            all_digits(v@.take(i as int)),
            acc == decimal_value(v@.take(i as int)),
            acc <= max,
        decreases v.len() - i,
    {
        let c = v[i];
        if !is_digit(c) {
            return None;
        }
        let d: u64 = (c as u32 - '0' as u32) as u64;
        let next: u64 = acc * 10 + d;
        proof {
            assert(v@.take(i + 1).drop_last() == v@.take(i as int));
            assert(next == decimal_value(v@.take(i + 1)));
            assert forall|k: int| 0 <= k < i + 1 implies spec_is_digit(
                #[trigger] v@.take(i + 1)[k],
            ) by {
                if k < i {
                    assert(v@.take(i + 1)[k] == v@.take(i as int)[k]);
                }
            }
        }
        if next > max as u64 {
            proof {
                lemma_decimal_value_grows(v@, i + 1);
            }
            return None;
        }
        acc = next;
        i += 1;
    }
    assert(v@.take(i as int) == v@);
    Some(acc as u32)
}

} // verus!
