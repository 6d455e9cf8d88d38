//! The grammar of the test runner's console output, as mathematics.
//!
//! Every rule is a function of the characters that are still to be read. It
//! gives either the value it recognised together with the characters that are
//! left, or the characters at which it could not go on.

use vstd::prelude::*;
use crate::text::{
    after_line_ending, after_literal, before_pattern, leading_digits, leading_word, line_body,
};
use crate::{FailureView, ModuleView, TestResult, TestView};

verus! {

/// Whether a rule has read `value` and left `rest`.
pub open spec fn reads<T>(outcome: Result<(T, Seq<char>), Seq<char>>, value: T, rest: Seq<char>)
    -> bool {
    outcome == Ok::<(T, Seq<char>), Seq<char>>((value, rest))
}

/// Whether a rule could not go on at `at`.
pub open spec fn stops<T>(outcome: Result<(T, Seq<char>), Seq<char>>, at: Seq<char>) -> bool {
    outcome == Err::<(T, Seq<char>), Seq<char>>(at)
}

/// The number that a run of decimal digits writes.
pub open spec fn decimal_value(s: Seq<char>) -> nat
    decreases s.len(),
{
    if s.len() == 0 {
        0
    } else {
        decimal_value(s.drop_last()) * 10 + (s.last() as nat - '0' as nat) as nat
    }
}

/// A count: one or more decimal digits whose value fits in 32 bits.
pub open spec fn number(s: Seq<char>) -> Result<(u32, Seq<char>), Seq<char>> {
    match leading_digits(s) {
        Some((run, rest)) => if decimal_value(run) <= u32::MAX {
            Ok((decimal_value(run) as u32, rest))
        } else {
            Err(s)
        },
        None => Err(s),
    }
}

/// What an outcome token stands for: `ok` for a test that passed, `ignored`
/// for one that was skipped, and every other token for one that failed.
pub open spec fn outcome(token: Seq<char>) -> TestResult {
    if token == "ok"@ {
        TestResult::Passed
    } else if token == "ignored"@ {
        TestResult::Ignored
    } else {
        TestResult::Failed
    }
}

/// An outcome: a token of letters and digits.
pub open spec fn test_result(s: Seq<char>) -> Result<(TestResult, Seq<char>), Seq<char>> {
    match leading_word(s) {
        Some((token, rest)) => Ok((outcome(token), rest)),
        None => Err(s),
    }
}

/// The noun of the header line: ` test` behind a count of one and ` tests`
/// behind every other count. A header line whose noun does not go with its
/// count is no header line.
pub open spec fn tests_noun(count: u32) -> Seq<char> {
    if count == 1 {
        " test"@
    } else {
        " tests"@
    }
}

/// The header line of a module, `running N tests`, which gives the number of
/// tests that the module declares.
pub open spec fn test_start(s: Seq<char>) -> Result<(u32, Seq<char>), Seq<char>> {
    match after_literal(s, "running "@) {
        None => Err(s),
        Some(s1) => match number(s1) {
            Err(at) => Err(at),
            Ok((count, s2)) => match after_literal(s2, tests_noun(count)) {
                None => Err(s2),
                Some(s3) => match after_line_ending(s3) {
                    None => Err(s3),
                    Some(s4) => Ok((count, s4)),
                },
            },
        },
    }
}

/// A count followed by the literal `label`.
pub open spec fn labelled_count(s: Seq<char>, label: Seq<char>) -> Result<
    (u32, Seq<char>),
    Seq<char>,
> {
    match number(s) {
        Err(at) => Err(at),
        Ok((count, s1)) => match after_literal(s1, label) {
            None => Err(s1),
            Some(s2) => Ok((count, s2)),
        },
    }
}

/// The clause `; N filtered out` of a summary line.
pub open spec fn filtered_clause(s: Seq<char>) -> Result<(u32, Seq<char>), Seq<char>> {
    match after_literal(s, "; "@) {
        None => Err(s),
        Some(s1) => labelled_count(s1, " filtered out"@),
    }
}

/// The start of a summary line, up to the number of measured tests: the
/// outcome of the module and the numbers of tests that passed, failed, were
/// ignored and were measured, in this order.
pub open spec fn summary_counts(s: Seq<char>) -> Result<
    ((TestResult, u32, u32, u32, u32), Seq<char>),
    Seq<char>,
> {
    match after_literal(s, "test result: "@) {
        None => Err(s),
        Some(s1) => match test_result(s1) {
            Err(at) => Err(at),
            Ok((result, s2)) => match after_literal(s2, ". "@) {
                None => Err(s2),
                Some(s3) => match labelled_count(s3, " passed; "@) {
                    Err(at) => Err(at),
                    Ok((passed, s4)) => match labelled_count(s4, " failed; "@) {
                        Err(at) => Err(at),
                        Ok((failed, s5)) => match labelled_count(s5, " ignored; "@) {
                            Err(at) => Err(at),
                            Ok((ignored, s6)) => match labelled_count(s6, " measured"@) {
                                Err(at) => Err(at),
                                Ok((measured, s7)) => Ok(
                                    ((result, passed, failed, ignored, measured), s7),
                                ),
                            },
                        },
                    },
                },
            },
        },
    }
}

/// The summary line of a module: its outcome and the numbers of tests that
/// passed, failed, were ignored, were measured and were filtered out, in this
/// order. Where the line has no clause for the last one, that number is 0.
pub open spec fn testsuite_summary(s: Seq<char>) -> Result<
    ((TestResult, u32, u32, u32, u32, u32), Seq<char>),
    Seq<char>,
> {
    match summary_counts(s) {
        Err(at) => Err(at),
        Ok((counts, s1)) => {
            let (filtered, s2) = match filtered_clause(s1) {
                Ok(clause) => clause,
                Err(_) => (0u32, s1),
            };
            match after_line_ending(s2) {
                None => Err(s2),
                Some(s3) => Ok(
                    ((counts.0, counts.1, counts.2, counts.3, counts.4, filtered), s3),
                ),
            }
        },
    }
}

/// A test line: `test `, the name of the test up to the first ` ... `, and
/// the outcome. The name is taken as it stands, with the spaces, colons and
/// brackets that it may hold.
pub open spec fn test_function(s: Seq<char>) -> Result<(TestView, Seq<char>), Seq<char>> {
    match after_literal(s, "test "@) {
        None => Err(s),
        Some(s1) => match before_pattern(s1, " ... "@) {
            None => Err(s1),
            Some((name, s2)) => match after_literal(s2, " ... "@) {
                None => Err(s2),
                Some(s3) => match test_result(s3) {
                    Err(at) => Err(at),
                    Ok((result, s4)) => match after_line_ending(s4) {
                        None => Err(s4),
                        Some(s5) => Ok((TestView { name, result }, s5)),
                    },
                },
            },
        },
    }
}

/// As many test lines as follow one another, and what is left behind them.
pub open spec fn test_functions(s: Seq<char>) -> (Seq<TestView>, Seq<char>)
    decreases s.len(),
{
    match test_function(s) {
        Ok((test, rest)) => if rest.len() < s.len() {
            let (more, end) = test_functions(rest);
            (seq![test] + more, end)
        } else {
            (Seq::empty(), s)
        },
        Err(_) => (Seq::empty(), s),
    }
}

/// What is left of `s` behind the empty line at its start: two line endings
/// in a row, each a line feed or a carriage return with a line feed.
pub open spec fn after_blank_line(s: Seq<char>) -> Option<Seq<char>> {
    match after_line_ending(s) {
        Some(s1) => after_line_ending(s1),
        None => None,
    }
}

/// The first place in `s` at which an empty line starts, if there is one.
pub open spec fn find_blank_line(s: Seq<char>) -> Option<nat>
    decreases s.len(),
{
    if after_blank_line(s) is Some {
        Some(0)
    } else if s.len() == 0 {
        None
    } else {
        match find_blank_line(s.drop_first()) {
            Some(i) => Some(i + 1),
            None => None,
        }
    }
}

/// The message of a failure record: what stands before the first empty line.
/// The empty line ends the record and is taken with it.
pub open spec fn failure_info(name: Seq<char>, stdout: Seq<char>, s: Seq<char>) -> Result<
    (FailureView, Seq<char>),
    Seq<char>,
> {
    match find_blank_line(s) {
        None => Err(s),
        Some(i) => match after_blank_line(s.skip(i as int)) {
            None => Err(s.skip(i as int)),
            Some(rest) => Ok(
                (
                    FailureView {
                        name,
                        stdout,
                        info: s.take(i as int),
                        stacktrace: Seq::<char>::empty(),
                    },
                    rest,
                ),
            ),
        },
    }
}

/// The body of a failure record, which follows its delimiter line.
///
/// Where the body starts with a tab, what stands between the tab and the next
/// `thread` is the output that the test wrote, and a body in which no
/// `thread` follows the tab is no record. Without the tab the output is
/// empty. The message follows.
pub open spec fn failure_body(name: Seq<char>, s: Seq<char>) -> Result<
    (FailureView, Seq<char>),
    Seq<char>,
> {
    match after_literal(s, "\t"@) {
        Some(s1) => match before_pattern(s1, "thread"@) {
            None => Err(s1),
            Some((stdout, s2)) => failure_info(name, stdout, s2),
        },
        None => failure_info(name, Seq::<char>::empty(), s),
    }
}

/// A failure record: the delimiter line `---- NAME stdout ----` and the body.
pub open spec fn failure(s: Seq<char>) -> Result<(FailureView, Seq<char>), Seq<char>> {
    match after_literal(s, "---- "@) {
        None => Err(s),
        Some(s1) => match before_pattern(s1, " stdout ----"@) {
            None => Err(s1),
            Some((name, s2)) => match after_literal(s2, " stdout ----"@) {
                None => Err(s2),
                Some(s3) => match after_line_ending(s3) {
                    None => Err(s3),
                    Some(s4) => failure_body(name, s4),
                },
            },
        },
    }
}

/// As many failure records as follow one another, and what is left behind
/// them.
pub open spec fn failure_records(s: Seq<char>) -> (Seq<FailureView>, Seq<char>)
    decreases s.len(),
{
    match failure(s) {
        Ok((record, rest)) => if rest.len() < s.len() {
            let (more, end) = failure_records(rest);
            (seq![record] + more, end)
        } else {
            (Seq::empty(), s)
        },
        Err(_) => (Seq::empty(), s),
    }
}

/// A line of the index of failed tests: four spaces, then anything up to the
/// end of the line.
pub open spec fn listing_line(s: Seq<char>) -> Result<((), Seq<char>), Seq<char>> {
    match after_literal(s, "    "@) {
        None => Err(s),
        Some(s1) => match line_body(s1) {
            None => Err(s1),
            Some((_, s2)) => match after_line_ending(s2) {
                None => Err(s2),
                Some(s3) => Ok(((), s3)),
            },
        },
    }
}

/// What is left behind as many index lines as follow one another.
pub open spec fn listing_lines(s: Seq<char>) -> Seq<char>
    decreases s.len(),
{
    match listing_line(s) {
        Ok((_, rest)) => if rest.len() < s.len() {
            listing_lines(rest)
        } else {
            s
        },
        Err(_) => s,
    }
}

/// The failures block of a module: the line `failures:`, an empty line, one
/// or more failure records, an empty line, the line `failures:` again, one or
/// more index lines, and an empty line. The index adds nothing to the records
/// and is dropped.
pub open spec fn failures(s: Seq<char>) -> Result<(Seq<FailureView>, Seq<char>), Seq<char>> {
    match after_literal(s, "failures:"@) {
        None => Err(s),
        Some(s1) => match after_line_ending(s1) {
            None => Err(s1),
            Some(s2) => match after_line_ending(s2) {
                None => Err(s2),
                Some(s3) => match failure(s3) {
                    Err(at) => Err(at),
                    Ok((first, s4)) => {
                        let (more, s5) = failure_records(s4);
                        match after_line_ending(s5) {
                            None => Err(s5),
                            Some(s6) => match after_literal(s6, "failures:"@) {
                                None => Err(s6),
                                Some(s7) => match after_line_ending(s7) {
                                    None => Err(s7),
                                    Some(s8) => match listing_line(s8) {
                                        Err(at) => Err(at),
                                        Ok((_, s9)) => {
                                            let s10 = listing_lines(s9);
                                            match after_line_ending(s10) {
                                                None => Err(s10),
                                                Some(s11) => Ok((seq![first] + more, s11)),
                                            }
                                        },
                                    },
                                },
                            },
                        }
                    },
                },
            },
        },
    }
}

/// A module block: the header line, the test lines, an empty line, the
/// failures block if there is one, and the summary line.
///
/// The number that the header declares is read and not held against the
/// number of test lines, and the counts of the summary line stand as printed.
pub open spec fn test_module(s: Seq<char>) -> Result<(ModuleView, Seq<char>), Seq<char>> {
    match test_start(s) {
        Err(at) => Err(at),
        Ok((_, s1)) => {
            let (tests, s2) = test_functions(s1);
            match after_line_ending(s2) {
                None => Err(s2),
                Some(s3) => {
                    let (failures, s4) = match failures(s3) {
                        Ok(block) => block,
                        Err(_) => (Seq::<FailureView>::empty(), s3),
                    };
                    match testsuite_summary(s4) {
                        Err(at) => Err(at),
                        Ok((summary, s5)) => Ok(
                            (
                                ModuleView {
                                    result: summary.0,
                                    tests,
                                    failures,
                                    passed: summary.1,
                                    failed: summary.2,
                                    ignored: summary.3,
                                    measured: summary.4,
                                    filtered: summary.5,
                                },
                                s5,
                            ),
                        ),
                    }
                },
            }
        },
    }
}

/// What is left of `s` behind the line endings at its start.
pub open spec fn line_endings(s: Seq<char>) -> Seq<char>
    decreases s.len(),
{
    match after_line_ending(s) {
        Some(rest) => line_endings(rest),
        None => s,
    }
}

/// A module block with the empty lines in front of it: one line ending or
/// more, and then the block.
pub open spec fn separated_module(s: Seq<char>) -> Result<(ModuleView, Seq<char>), Seq<char>> {
    match after_line_ending(s) {
        None => Err(s),
        Some(s1) => test_module(line_endings(s1)),
    }
}

/// As many separated module blocks as follow one another, and what is left
/// behind them.
pub open spec fn separated_modules(s: Seq<char>) -> (Seq<ModuleView>, Seq<char>)
    decreases s.len(),
{
    match separated_module(s) {
        Ok((module, rest)) => if rest.len() < s.len() {
            let (more, end) = separated_modules(rest);
            (seq![module] + more, end)
        } else {
            (Seq::empty(), s)
        },
        Err(_) => (Seq::empty(), s),
    }
}

/// The whole text: one or more module blocks with empty lines between them.
///
/// Line endings may stand in front of the first block and behind the last.
/// Each further block has one line ending or more in front of it, so that at
/// least one empty line parts it from the summary line before it. Nothing
/// else may follow the last block.
pub open spec fn test_suite(s: Seq<char>) -> Result<(Seq<ModuleView>, Seq<char>), Seq<char>> {
    match test_module(line_endings(s)) {
        Err(at) => Err(at),
        Ok((first, s1)) => {
            let (more, s2) = separated_modules(s1);
            let s3 = line_endings(s2);
            if s3.len() == 0 {
                Ok((seq![first] + more, s3))
            } else {
                Err(s3)
            }
        },
    }
}

/// What is said of a text that is no sequence of test modules: where the
/// reading stopped.
pub open spec fn failure_description(at: Seq<char>) -> Seq<char> {
    if at.len() == 0 {
        "parse failure: the input ends too early"@
    } else {
        "parse failure: cannot read on from: "@ + at
    }
}

/// The modules that a text holds, or the description of why it holds none.
pub open spec fn parse(s: Seq<char>) -> Result<Seq<ModuleView>, Seq<char>> {
    match test_suite(s) {
        Ok((modules, _)) => Ok(modules),
        Err(at) => Err(failure_description(at)),
    }
}

} // verus!
