//! Facts about the grammar that the parser and the laws rest on.

use vstd::prelude::*;
use crate::grammar;
use crate::grammar::decimal_value;
use crate::text::{
    after_line_ending, after_literal, before_pattern, body_run, digit_run, find, is_digit,
    word_run,
};

verus! {

/// The digits that a text starts with are digits, and no more than the text
/// holds.
pub(crate) proof fn lemma_digit_run(s: Seq<char>)
    ensures
        digit_run(s) <= s.len(),
        forall|i: int| 0 <= i < digit_run(s) ==> is_digit(#[trigger] s[i]),
    decreases s.len(),
{
    if s.len() > 0 && is_digit(s[0]) {
        let t = s.drop_first();
        lemma_digit_run(t);
        assert forall|i: int| 0 <= i < digit_run(s) implies is_digit(#[trigger] s[i]) by {
            if i > 0 {
                assert(s[i] == t[i - 1]);
            }
        }
    }
}

/// The letters and digits that a text starts with are no more than the text
/// holds.
pub(crate) proof fn lemma_word_run(s: Seq<char>)
    ensures
        word_run(s) <= s.len(),
    decreases s.len(),
{
    if s.len() > 0 {
        lemma_word_run(s.drop_first());
    }
}

/// The body of a line is no longer than the text that the line starts.
pub(crate) proof fn lemma_body_run(s: Seq<char>)
    ensures
        body_run(s) <= s.len(),
    decreases s.len(),
{
    if s.len() > 0 {
        lemma_body_run(s.drop_first());
    }
}

/// A pattern is found inside the text.
pub(crate) proof fn lemma_find(s: Seq<char>, pattern: Seq<char>)
    ensures
        match find(s, pattern) {
            Some(i) => i <= s.len(),
            None => true,
        },
    decreases s.len(),
{
    if !pattern.is_prefix_of(s) && s.len() > 0 {
        lemma_find(s.drop_first(), pattern);
    }
}

/// Reading one more digit multiplies the value by ten and adds the digit.
pub(crate) proof fn lemma_decimal_value_step(s: Seq<char>, i: int)
    requires
        0 <= i < s.len(),
    ensures
        decimal_value(s.take(i + 1)) == decimal_value(s.take(i)) * 10 + (s[i] as nat
            - '0' as nat) as nat,
{
    assert(s.take(i + 1).drop_last() =~= s.take(i));
}

/// The value of a run of digits is at least the value of each of its
/// prefixes.
pub(crate) proof fn lemma_decimal_value_grows(s: Seq<char>, i: int)
    requires
        0 <= i <= s.len(),
    ensures
        decimal_value(s.take(i)) <= decimal_value(s),
    decreases s.len() - i,
{
    if i < s.len() {
        lemma_decimal_value_step(s, i);
        lemma_decimal_value_grows(s, i + 1);
    } else {
        assert(s.take(i) =~= s);
    }
}

/// The nearer of two places, either of which may be missing.
pub open spec fn nearest(first: Option<nat>, second: Option<nat>) -> Option<nat> {
    match (first, second) {
        (Some(a), Some(b)) => if a <= b {
            Some(a)
        } else {
            Some(b)
        },
        (Some(a), None) => Some(a),
        (None, other) => other,
    }
}

/// An empty line starts with one of four sequences: each of its two line
/// endings is a line feed alone or a carriage return with a line feed.
pub(crate) proof fn lemma_blank_line_forms(s: Seq<char>)
    ensures
        grammar::after_blank_line(s) is Some <==> ("\n\n"@.is_prefix_of(s)
            || "\n\r\n"@.is_prefix_of(s) || "\r\n\n"@.is_prefix_of(s)
            || "\r\n\r\n"@.is_prefix_of(s)),
{
    reveal_strlit("\n\n");
    reveal_strlit("\n\r\n");
    reveal_strlit("\r\n\n");
    reveal_strlit("\r\n\r\n");
    if s.len() >= 1 && s[0] == '\n' {
        let t = s.skip(1);
        if t.len() >= 1 && t[0] == '\n' {
            assert(s[1] == t[0]);
            assert("\n\n"@ =~= s.subrange(0, 2));
        } else if t.len() >= 2 && t[0] == '\r' && t[1] == '\n' {
            assert(s[1] == t[0] && s[2] == t[1]);
            assert("\n\r\n"@ =~= s.subrange(0, 3));
        }
    } else if s.len() >= 2 && s[0] == '\r' && s[1] == '\n' {
        let t = s.skip(2);
        if t.len() >= 1 && t[0] == '\n' {
            assert(s[2] == t[0]);
            assert("\r\n\n"@ =~= s.subrange(0, 3));
        } else if t.len() >= 2 && t[0] == '\r' && t[1] == '\n' {
            assert(s[2] == t[0] && s[3] == t[1]);
            assert("\r\n\r\n"@ =~= s.subrange(0, 4));
        }
    }
    if "\n\n"@.is_prefix_of(s) {
        assert(s[0] == "\n\n"@[0] && s[1] == "\n\n"@[1]);
        assert(s.skip(1)[0] == s[1]);
    }
    if "\n\r\n"@.is_prefix_of(s) {
        assert(s[0] == "\n\r\n"@[0] && s[1] == "\n\r\n"@[1] && s[2] == "\n\r\n"@[2]);
        assert(s.skip(1)[0] == s[1] && s.skip(1)[1] == s[2]);
    }
    if "\r\n\n"@.is_prefix_of(s) {
        assert(s[0] == "\r\n\n"@[0] && s[1] == "\r\n\n"@[1] && s[2] == "\r\n\n"@[2]);
        assert(s.skip(2)[0] == s[2]);
    }
    if "\r\n\r\n"@.is_prefix_of(s) {
        assert(s[0] == "\r\n\r\n"@[0] && s[1] == "\r\n\r\n"@[1] && s[2]
            == "\r\n\r\n"@[2] && s[3] == "\r\n\r\n"@[3]);
        assert(s.skip(2)[0] == s[2] && s.skip(2)[1] == s[3]);
    }
}

/// The first empty line starts where the first of its four forms is found.
pub(crate) proof fn lemma_find_blank_line(s: Seq<char>)
    ensures
        grammar::find_blank_line(s) == nearest(
            nearest(find(s, "\n\n"@), find(s, "\n\r\n"@)),
            nearest(find(s, "\r\n\n"@), find(s, "\r\n\r\n"@)),
        ),
        match grammar::find_blank_line(s) {
            Some(i) => i <= s.len(),
            None => true,
        },
    decreases s.len(),
{
    lemma_blank_line_forms(s);
    if !(grammar::after_blank_line(s) is Some) && s.len() > 0 {
        lemma_find_blank_line(s.drop_first());
    }
}

/// A count leaves no more than it was given.
pub(crate) proof fn lemma_number_rest(s: Seq<char>)
    ensures
        match grammar::number(s) {
            Ok((_, rest)) => rest.len() <= s.len(),
            Err(_) => true,
        },
{
    lemma_digit_run(s);
}

/// A count with its label leaves no more than it was given.
pub(crate) proof fn lemma_labelled_count_rest(s: Seq<char>, label: Seq<char>)
    ensures
        match grammar::labelled_count(s, label) {
            Ok((_, rest)) => rest.len() <= s.len(),
            Err(_) => true,
        },
{
    lemma_number_rest(s);
}

/// An outcome token leaves no more than it was given.
pub(crate) proof fn lemma_test_result_rest(s: Seq<char>)
    ensures
        match grammar::test_result(s) {
            Ok((_, rest)) => rest.len() <= s.len(),
            Err(_) => true,
        },
{
    lemma_word_run(s);
}

/// A header line takes at least one character.
pub(crate) proof fn lemma_test_start_rest(s: Seq<char>)
    ensures
        match grammar::test_start(s) {
            Ok((_, rest)) => rest.len() < s.len(),
            Err(_) => true,
        },
{
    if let Some(s1) = after_literal(s, "running "@) {
        lemma_number_rest(s1);
    }
}

/// The start of a summary line leaves no more than it was given.
pub(crate) proof fn lemma_summary_counts_rest(s: Seq<char>)
    ensures
        match grammar::summary_counts(s) {
            Ok((_, rest)) => rest.len() <= s.len(),
            Err(_) => true,
        },
{
    if let Ok(_) = grammar::summary_counts(s) {
        let s1 = after_literal(s, "test result: "@)->0;
        lemma_test_result_rest(s1);
        let s2 = grammar::test_result(s1)->Ok_0.1;
        let s3 = after_literal(s2, ". "@)->0;
        lemma_labelled_count_rest(s3, " passed; "@);
        let s4 = grammar::labelled_count(s3, " passed; "@)->Ok_0.1;
        lemma_labelled_count_rest(s4, " failed; "@);
        let s5 = grammar::labelled_count(s4, " failed; "@)->Ok_0.1;
        lemma_labelled_count_rest(s5, " ignored; "@);
        let s6 = grammar::labelled_count(s5, " ignored; "@)->Ok_0.1;
        lemma_labelled_count_rest(s6, " measured"@);
    }
}

/// A summary line takes at least one character.
pub(crate) proof fn lemma_testsuite_summary_rest(s: Seq<char>)
    ensures
        match grammar::testsuite_summary(s) {
            Ok((_, rest)) => rest.len() < s.len(),
            Err(_) => true,
        },
{
    lemma_summary_counts_rest(s);
    if let Ok((_, s1)) = grammar::summary_counts(s) {
        if let Some(s2) = after_literal(s1, "; "@) {
            lemma_labelled_count_rest(s2, " filtered out"@);
        }
    }
}

/// A test line takes at least one character.
pub(crate) proof fn lemma_test_function_rest(s: Seq<char>)
    ensures
        match grammar::test_function(s) {
            Ok((_, rest)) => rest.len() < s.len(),
            Err(_) => true,
        },
{
    if let Some(s1) = after_literal(s, "test "@) {
        lemma_find(s1, " ... "@);
        if let Some((_, s2)) = before_pattern(s1, " ... "@) {
            if let Some(s3) = after_literal(s2, " ... "@) {
                lemma_test_result_rest(s3);
            }
        }
    }
}

/// The test lines leave no more than they were given.
pub(crate) proof fn lemma_test_functions_rest(s: Seq<char>)
    ensures
        grammar::test_functions(s).1.len() <= s.len(),
    decreases s.len(),
{
    if let Ok((_, rest)) = grammar::test_function(s) {
        if rest.len() < s.len() {
            lemma_test_functions_rest(rest);
        }
    }
}

/// The message of a failure record takes at least one character.
pub(crate) proof fn lemma_failure_info_rest(name: Seq<char>, stdout: Seq<char>, s: Seq<char>)
    ensures
        match grammar::failure_info(name, stdout, s) {
            Ok((_, rest)) => rest.len() < s.len(),
            Err(_) => true,
        },
{
    lemma_find_blank_line(s);
}

/// A failure record takes at least one character.
pub(crate) proof fn lemma_failure_rest(s: Seq<char>)
    ensures
        match grammar::failure(s) {
            Ok((_, rest)) => rest.len() < s.len(),
            Err(_) => true,
        },
{
    if let Some(s1) = after_literal(s, "---- "@) {
        lemma_find(s1, " stdout ----"@);
        if let Some((name, s2)) = before_pattern(s1, " stdout ----"@) {
            if let Some(s3) = after_literal(s2, " stdout ----"@) {
                if let Some(s4) = after_line_ending(s3) {
                    lemma_failure_info_rest(name, Seq::<char>::empty(), s4);
                    if let Some(s5) = after_literal(s4, "\t"@) {
                        lemma_find(s5, "thread"@);
                        if let Some((stdout, s6)) = before_pattern(s5, "thread"@) {
                            lemma_failure_info_rest(name, stdout, s6);
                        }
                    }
                }
            }
        }
    }
}

/// The failure records leave no more than they were given.
pub(crate) proof fn lemma_failure_records_rest(s: Seq<char>)
    ensures
        grammar::failure_records(s).1.len() <= s.len(),
    decreases s.len(),
{
    if let Ok((_, rest)) = grammar::failure(s) {
        if rest.len() < s.len() {
            lemma_failure_records_rest(rest);
        }
    }
}

/// An index line takes at least one character.
pub(crate) proof fn lemma_listing_line_rest(s: Seq<char>)
    ensures
        match grammar::listing_line(s) {
            Ok((_, rest)) => rest.len() < s.len(),
            Err(_) => true,
        },
{
    if let Some(s1) = after_literal(s, "    "@) {
        lemma_body_run(s1);
    }
}

/// The index lines leave no more than they were given.
pub(crate) proof fn lemma_listing_lines_rest(s: Seq<char>)
    ensures
        grammar::listing_lines(s).len() <= s.len(),
    decreases s.len(),
{
    if let Ok((_, rest)) = grammar::listing_line(s) {
        if rest.len() < s.len() {
            lemma_listing_lines_rest(rest);
        }
    }
}

/// A failures block takes at least one character.
pub(crate) proof fn lemma_failures_rest(s: Seq<char>)
    ensures
        match grammar::failures(s) {
            Ok((_, rest)) => rest.len() < s.len(),
            Err(_) => true,
        },
{
    if let Ok(_) = grammar::failures(s) {
        let s1 = after_literal(s, "failures:"@)->0;
        let s2 = after_line_ending(s1)->0;
        let s3 = after_line_ending(s2)->0;
        lemma_failure_rest(s3);
        let s4 = grammar::failure(s3)->Ok_0.1;
        lemma_failure_records_rest(s4);
        let s5 = grammar::failure_records(s4).1;
        let s6 = after_line_ending(s5)->0;
        let s7 = after_literal(s6, "failures:"@)->0;
        let s8 = after_line_ending(s7)->0;
        lemma_listing_line_rest(s8);
        let s9 = grammar::listing_line(s8)->Ok_0.1;
        lemma_listing_lines_rest(s9);
    }
}

/// A module block takes at least one character.
pub(crate) proof fn lemma_test_module_rest(s: Seq<char>)
    ensures
        match grammar::test_module(s) {
            Ok((_, rest)) => rest.len() < s.len(),
            Err(_) => true,
        },
{
    if let Ok(_) = grammar::test_module(s) {
        lemma_test_start_rest(s);
        let s1 = grammar::test_start(s)->Ok_0.1;
        lemma_test_functions_rest(s1);
        let s2 = grammar::test_functions(s1).1;
        let s3 = after_line_ending(s2)->0;
        lemma_failures_rest(s3);
        let s4 = match grammar::failures(s3) {
            Ok(block) => block.1,
            Err(_) => s3,
        };
        lemma_testsuite_summary_rest(s4);
    }
}

/// Line endings leave no more than they were given.
pub(crate) proof fn lemma_line_endings_rest(s: Seq<char>)
    ensures
        grammar::line_endings(s).len() <= s.len(),
    decreases s.len(),
{
    if let Some(rest) = after_line_ending(s) {
        lemma_line_endings_rest(rest);
    }
}

/// A separated module block takes at least one character.
pub(crate) proof fn lemma_separated_module_rest(s: Seq<char>)
    ensures
        match grammar::separated_module(s) {
            Ok((_, rest)) => rest.len() < s.len(),
            Err(_) => true,
        },
{
    if let Some(s1) = after_line_ending(s) {
        lemma_line_endings_rest(s1);
        lemma_test_module_rest(grammar::line_endings(s1));
    }
}

} // verus!
