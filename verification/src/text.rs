//! The primitive recognisers of the grammar.
//!
//! Each recogniser looks at the start of a text and splits it in two: what it
//! took and what is left. They are the ones of the `nom` crate; what each of
//! them does is stated here over the characters of the text.

use vstd::prelude::*;
use vstd::utf8::*;

verus! {

/// Whether `c` is one of the ten ASCII decimal digits.
pub open spec fn is_digit(c: char) -> bool {
    '0' <= c && c <= '9'
}

/// Whether `c` is an ASCII letter or an ASCII decimal digit.
pub open spec fn is_alphanumeric(c: char) -> bool {
    is_digit(c) || ('a' <= c && c <= 'z') || ('A' <= c && c <= 'Z')
}

/// Whether `c` belongs to a line ending.
pub open spec fn is_line_break(c: char) -> bool {
    c == '\n' || c == '\r'
}

/// The number of decimal digits that `s` starts with.
pub open spec fn digit_run(s: Seq<char>) -> nat
    decreases s.len(),
{
    if s.len() > 0 && is_digit(s[0]) {
        1 + digit_run(s.drop_first())
    } else {
        0
    }
}

/// The number of letters and digits that `s` starts with.
pub open spec fn word_run(s: Seq<char>) -> nat
    decreases s.len(),
{
    if s.len() > 0 && is_alphanumeric(s[0]) {
        1 + word_run(s.drop_first())
    } else {
        0
    }
}

/// The number of characters at the start of `s` before its first line break.
pub open spec fn body_run(s: Seq<char>) -> nat
    decreases s.len(),
{
    if s.len() > 0 && !is_line_break(s[0]) {
        1 + body_run(s.drop_first())
    } else {
        0
    }
}

/// The place of the first occurrence of `pattern` in `s`, if it occurs.
pub open spec fn find(s: Seq<char>, pattern: Seq<char>) -> Option<nat>
    decreases s.len(),
{
    if pattern.is_prefix_of(s) {
        Some(0)
    } else if s.len() == 0 {
        None
    } else {
        match find(s.drop_first(), pattern) {
            Some(i) => Some(i + 1),
            None => None,
        }
    }
}

/// What is left of `s` after the literal `tag` at its start.
pub open spec fn after_literal(s: Seq<char>, tag: Seq<char>) -> Option<Seq<char>> {
    if tag.is_prefix_of(s) {
        Some(s.skip(tag.len() as int))
    } else {
        None
    }
}

/// `s` split in front of the first occurrence of `pattern`: what stands
/// before it, and the rest, which starts with `pattern`.
pub open spec fn before_pattern(s: Seq<char>, pattern: Seq<char>) -> Option<
    (Seq<char>, Seq<char>),
> {
    match find(s, pattern) {
        Some(i) => Some((s.take(i as int), s.skip(i as int))),
        None => None,
    }
}

/// `s` split behind the decimal digits at its start, of which there must be
/// at least one.
pub open spec fn leading_digits(s: Seq<char>) -> Option<(Seq<char>, Seq<char>)> {
    if digit_run(s) > 0 {
        Some((s.take(digit_run(s) as int), s.skip(digit_run(s) as int)))
    } else {
        None
    }
}

/// `s` split behind the letters and digits at its start, of which there must
/// be at least one.
pub open spec fn leading_word(s: Seq<char>) -> Option<(Seq<char>, Seq<char>)> {
    if word_run(s) > 0 {
        Some((s.take(word_run(s) as int), s.skip(word_run(s) as int)))
    } else {
        None
    }
}

/// What is left of `s` after the line ending at its start: a line feed, or a
/// carriage return and a line feed.
pub open spec fn after_line_ending(s: Seq<char>) -> Option<Seq<char>> {
    if s.len() >= 1 && s[0] == '\n' {
        Some(s.skip(1))
    } else if s.len() >= 2 && s[0] == '\r' && s[1] == '\n' {
        Some(s.skip(2))
    } else {
        None
    }
}

/// `s` split in front of its first line break. A carriage return that no
/// line feed follows is not a line ending, and stops the split.
pub open spec fn line_body(s: Seq<char>) -> Option<(Seq<char>, Seq<char>)> {
    let n = body_run(s) as int;
    if n < s.len() && s[n] == '\r' && !(n + 1 < s.len() && s[n + 1] == '\n') {
        None
    } else {
        Some((s.take(n), s.skip(n)))
    }
}

/// Takes the literal `tag` from the start of `input` and returns the rest.
///
/// Calls `nom::bytes::complete::tag`, which succeeds exactly when the input
/// starts with the tag and then hands back the input behind it.
#[verifier::external_body]
pub(crate) fn literal<'a>(input: &'a str, tag: &str) -> (r: Option<&'a str>)
    ensures
        match r {
            Some(rest) => after_literal(input@, tag@) == Some(rest@),
            None => after_literal(input@, tag@) is None,
        },
{
    match nom::bytes::complete::tag::<&str, &str, (&str, nom::error::ErrorKind)>(tag)(input) {
        Ok((rest, _)) => Some(rest),
        Err(_) => None,
    }
}

/// Splits `input` in front of the first occurrence of `pattern`, returning
/// the rest first and what stood before the pattern second.
///
/// Calls `nom::bytes::complete::take_until`, which looks for the first place
/// at which the pattern occurs and fails when there is none.
#[verifier::external_body]
pub(crate) fn until<'a>(input: &'a str, pattern: &str) -> (r: Option<(&'a str, &'a str)>)
    ensures
        match r {
            Some((rest, taken)) => before_pattern(input@, pattern@) == Some((taken@, rest@)),
            None => before_pattern(input@, pattern@) is None,
        },
{
    nom::bytes::complete::take_until::<&str, &str, (&str, nom::error::ErrorKind)>(pattern)(
        input,
    ).ok()
}

/// Splits off the decimal digits that `input` starts with, returning the rest
/// first and the digits second.
///
/// Calls `nom::character::complete::digit1`, which takes the longest run of
/// ASCII digits at the start of the input and fails when that run is empty.
#[verifier::external_body]
pub(crate) fn digits<'a>(input: &'a str) -> (r: Option<(&'a str, &'a str)>)
    ensures
        match r {
            Some((rest, run)) => leading_digits(input@) == Some((run@, rest@)),
            None => leading_digits(input@) is None,
        },
{
    nom::character::complete::digit1::<&str, (&str, nom::error::ErrorKind)>(input).ok()
}

/// Splits off the letters and digits that `input` starts with, returning the
/// rest first and the word second.
///
/// Calls `nom::character::complete::alphanumeric1`, which takes the longest
/// run of ASCII letters and digits at the start of the input and fails when
/// that run is empty.
#[verifier::external_body]
pub(crate) fn word<'a>(input: &'a str) -> (r: Option<(&'a str, &'a str)>)
    ensures
        match r {
            Some((rest, run)) => leading_word(input@) == Some((run@, rest@)),
            None => leading_word(input@) is None,
        },
{
    nom::character::complete::alphanumeric1::<&str, (&str, nom::error::ErrorKind)>(input).ok()
}

/// Takes one line ending from the start of `input` and returns the rest.
///
/// Calls `nom::character::complete::line_ending`, which accepts a line feed,
/// or a carriage return followed by a line feed, and nothing else.
#[verifier::external_body]
pub(crate) fn line_ending<'a>(input: &'a str) -> (r: Option<&'a str>)
    ensures
        match r {
            Some(rest) => after_line_ending(input@) == Some(rest@),
            None => after_line_ending(input@) is None,
        },
{
    match nom::character::complete::line_ending::<&str, (&str, nom::error::ErrorKind)>(input) {
        Ok((rest, _)) => Some(rest),
        Err(_) => None,
    }
}

/// Splits `input` in front of its first line break, returning the rest first
/// and the body of the line second.
///
/// Calls `nom::character::complete::not_line_ending`, which stops at the first
/// line feed or carriage return, takes the whole input when there is none, and
/// fails when it stops at a carriage return that no line feed follows.
#[verifier::external_body]
pub(crate) fn not_line_ending<'a>(input: &'a str) -> (r: Option<(&'a str, &'a str)>)
    ensures
        match r {
            Some((rest, body)) => line_body(input@) == Some((body@, rest@)),
            None => line_body(input@) is None,
        },
{
    nom::character::complete::not_line_ending::<&str, (&str, nom::error::ErrorKind)>(input).ok()
}

/// Whether two texts hold the same characters.
pub fn same_text(a: &str, b: &str) -> (r: bool)
    ensures
        r == (a@ == b@),
{
    let x = a.as_bytes();
    let y = b.as_bytes();
    proof {
        encode_utf8_decode_utf8(a@);
        encode_utf8_decode_utf8(b@);
    }
    if x.len() != y.len() {
        return false;
    }
    let mut i: usize = 0;
    while i < x.len()
        invariant
            i <= x@.len(),
            x@.len() == y@.len(),
            x@ == encode_utf8(a@),
            y@ == encode_utf8(b@),
            forall|j: int| 0 <= j < i ==> x@[j] == y@[j],
        decreases x@.len() - i,
    {
        if x[i] != y[i] {
            return false;
        }
        i += 1;
    }
    assert(x@ =~= y@);
    true
}

} // verus!
