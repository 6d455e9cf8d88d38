//! The parser of the test runner's console output.
//!
//! Each function reads one rule of the grammar from the start of a text. It
//! returns the rest of the text with what it read, or the text at which it
//! could not go on, exactly as the rule of the same name in [`crate::grammar`]
//! says.

use vstd::prelude::*;
use vstd::string::{StrSliceExecFns, StringExecFns};
use vstd::utf8::{is_ascii_chars, is_ascii_chars_encode_utf8};
use crate::grammar;
use crate::grammar::{decimal_value, reads, stops};
use crate::lemmas::{
    lemma_decimal_value_grows, lemma_decimal_value_step, lemma_digit_run, lemma_failure_rest,
    lemma_find, lemma_find_blank_line, lemma_listing_line_rest, lemma_separated_module_rest,
    lemma_test_function_rest,
};
use crate::text::{
    digits, is_digit, line_ending, literal, not_line_ending, same_text, until, word,
};
use crate::{
    failures_view, modules_view, tests_view, Failure, FailureView, ModuleView, Test, TestModule,
    TestResult, TestView,
};

verus! {

/// The value of a run of digits, unless it is more than 32 bits hold.
fn value_of_digits(run: &str) -> (r: Option<u32>)
    requires
        forall|i: int| 0 <= i < run@.len() ==> is_digit(#[trigger] run@[i]),
    ensures
        match r {
            Some(value) => decimal_value(run@) == value,
            None => decimal_value(run@) > u32::MAX,
        },
{
    let bytes = run.as_bytes();
    proof {
        assert(is_ascii_chars(run@));
        is_ascii_chars_encode_utf8(run@);
    }
    let mut value: u32 = 0;
    let mut i: usize = 0;
    while i < bytes.len()
        invariant
            i <= bytes@.len(),
            bytes@.len() == run@.len(),
            forall|j: int| 0 <= j < run@.len() ==> run@[j] as u8 == #[trigger] bytes@[j],
            forall|j: int| 0 <= j < run@.len() ==> is_digit(#[trigger] run@[j]),
            value == decimal_value(run@.take(i as int)),
        decreases bytes@.len() - i,
    {
        let byte: u8 = bytes[i];
        proof {
            assert(is_digit(run@[i as int]));
            assert(run@[i as int] as u8 == byte);
            lemma_decimal_value_step(run@, i as int);
            lemma_decimal_value_grows(run@, i + 1);
        }
        let digit: u64 = (byte - 48) as u64;
        let next: u64 = value as u64 * 10 + digit;
        if next > u32::MAX as u64 {
            return None;
        }
        value = next as u32;
        i += 1;
    }
    proof {
        assert(run@.take(i as int) =~= run@);
    }
    Some(value)
}

/// Reads a count: one or more decimal digits whose value fits in 32 bits.
pub fn number<'a>(input: &'a str) -> (r: Result<(&'a str, u32), &'a str>)
    ensures
        match r {
            Ok((rest, value)) => reads(grammar::number(input@), value, rest@),
            Err(at) => stops(grammar::number(input@), at@),
        },
{
    match digits(input) {
        None => Err(input),
        Some((rest, run)) => {
            proof {
                lemma_digit_run(input@);
            }
            match value_of_digits(run) {
                Some(value) => Ok((rest, value)),
                None => Err(input),
            }
        },
    }
}

/// Reads an outcome token and says what it stands for.
pub fn test_result<'a>(input: &'a str) -> (r: Result<(&'a str, TestResult), &'a str>)
    ensures
        match r {
            Ok((rest, result)) => reads(grammar::test_result(input@), result, rest@),
            Err(at) => stops(grammar::test_result(input@), at@),
        },
{
    match word(input) {
        None => Err(input),
        Some((rest, token)) => {
            let result = if same_text(token, "ok") {
                TestResult::Passed
            } else if same_text(token, "ignored") {
                TestResult::Ignored
            } else {
                TestResult::Failed
            };
            Ok((rest, result))
        },
    }
}

/// Reads the header line of a module and returns the number of tests that it
/// declares.
pub fn test_start<'a>(input: &'a str) -> (r: Result<(&'a str, u32), &'a str>)
    ensures
        match r {
            Ok((rest, count)) => reads(grammar::test_start(input@), count, rest@),
            Err(at) => stops(grammar::test_start(input@), at@),
        },
{
    let s1 = match literal(input, "running ") {
        Some(rest) => rest,
        None => { return Err(input); },
    };
    let (s2, count) = match number(s1) {
        Ok(read) => read,
        Err(at) => { return Err(at); },
    };
    let noun = if count == 1 { " test" } else { " tests" };
    let s3 = match literal(s2, noun) {
        Some(rest) => rest,
        None => { return Err(s2); },
    };
    match line_ending(s3) {
        Some(s4) => Ok((s4, count)),
        None => Err(s3),
    }
}

/// Reads a count and the literal `label` behind it.
fn labelled_count<'a>(input: &'a str, label: &str) -> (r: Result<(&'a str, u32), &'a str>)
    ensures
        match r {
            Ok((rest, count)) => reads(grammar::labelled_count(input@, label@), count, rest@),
            Err(at) => stops(grammar::labelled_count(input@, label@), at@),
        },
{
    let (s1, count) = match number(input) {
        Ok(read) => read,
        Err(at) => { return Err(at); },
    };
    match literal(s1, label) {
        Some(s2) => Ok((s2, count)),
        None => Err(s1),
    }
}

/// Reads the clause `; N filtered out` of a summary line.
fn filtered_clause<'a>(input: &'a str) -> (r: Result<(&'a str, u32), &'a str>)
    ensures
        match r {
            Ok((rest, count)) => reads(grammar::filtered_clause(input@), count, rest@),
            Err(at) => stops(grammar::filtered_clause(input@), at@),
        },
{
    match literal(input, "; ") {
        Some(s1) => labelled_count(s1, " filtered out"),
        None => Err(input),
    }
}

/// Reads the start of a summary line, up to the number of measured tests.
fn summary_counts<'a>(input: &'a str) -> (r: Result<
    (&'a str, (TestResult, u32, u32, u32, u32)),
    &'a str,
>)
    ensures
        match r {
            Ok((rest, counts)) => reads(grammar::summary_counts(input@), counts, rest@),
            Err(at) => stops(grammar::summary_counts(input@), at@),
        },
{
    let s1 = match literal(input, "test result: ") {
        Some(rest) => rest,
        None => { return Err(input); },
    };
    let (s2, result) = match test_result(s1) {
        Ok(read) => read,
        Err(at) => { return Err(at); },
    };
    let s3 = match literal(s2, ". ") {
        Some(rest) => rest,
        None => { return Err(s2); },
    };
    let (s4, passed) = match labelled_count(s3, " passed; ") {
        Ok(read) => read,
        Err(at) => { return Err(at); },
    };
    let (s5, failed) = match labelled_count(s4, " failed; ") {
        Ok(read) => read,
        Err(at) => { return Err(at); },
    };
    let (s6, ignored) = match labelled_count(s5, " ignored; ") {
        Ok(read) => read,
        Err(at) => { return Err(at); },
    };
    match labelled_count(s6, " measured") {
        Ok((s7, measured)) => Ok((s7, (result, passed, failed, ignored, measured))),
        Err(at) => Err(at),
    }
}

/// Reads the summary line of a module: its outcome and the numbers of tests
/// that passed, failed, were ignored, were measured and were filtered out.
pub fn testsuite_summary<'a>(input: &'a str) -> (r: Result<
    (&'a str, (TestResult, u32, u32, u32, u32, u32)),
    &'a str,
>)
    ensures
        match r {
            Ok((rest, summary)) => reads(grammar::testsuite_summary(input@), summary, rest@),
            Err(at) => stops(grammar::testsuite_summary(input@), at@),
        },
{
    let (s1, counts) = match summary_counts(input) {
        Ok(read) => read,
        Err(at) => { return Err(at); },
    };
    let (s2, filtered) = match filtered_clause(s1) {
        Ok(read) => read,
        Err(_) => (s1, 0u32),
    };
    match line_ending(s2) {
        Some(s3) => Ok((s3, (counts.0, counts.1, counts.2, counts.3, counts.4, filtered))),
        None => Err(s2),
    }
}

/// Reads a test line: the name of a test and its outcome.
pub fn test_function<'a>(input: &'a str) -> (r: Result<(&'a str, Test<'a>), &'a str>)
    ensures
        match r {
            Ok((rest, test)) => reads(grammar::test_function(input@), test@, rest@),
            Err(at) => stops(grammar::test_function(input@), at@),
        },
{
    let s1 = match literal(input, "test ") {
        Some(rest) => rest,
        None => { return Err(input); },
    };
    let (s2, name) = match until(s1, " ... ") {
        Some(split) => split,
        None => { return Err(s1); },
    };
    let s3 = match literal(s2, " ... ") {
        Some(rest) => rest,
        None => { return Err(s2); },
    };
    let (s4, result) = match test_result(s3) {
        Ok(read) => read,
        Err(at) => { return Err(at); },
    };
    match line_ending(s4) {
        Some(s5) => Ok((s5, Test { name, result })),
        None => Err(s4),
    }
}

/// Of two splits of one text, the one that was made nearer to the front.
fn nearer<'a>(first: Option<(&'a str, &'a str)>, second: Option<(&'a str, &'a str)>) -> (r:
    Option<(&'a str, &'a str)>)
    ensures
        r == match (first, second) {
            (Some(a), Some(b)) => if a.1@.len() <= b.1@.len() {
                Some(a)
            } else {
                Some(b)
            },
            (Some(a), None) => Some(a),
            (None, other) => other,
        },
{
    match (first, second) {
        (Some(a), Some(b)) => if a.1.unicode_len() <= b.1.unicode_len() {
            Some(a)
        } else {
            Some(b)
        },
        (Some(a), None) => Some(a),
        (None, other) => other,
    }
}

/// Reads the message of a failure record and the empty line that ends it.
fn failure_info<'a>(name: &'a str, stdout: &'a str, input: &'a str) -> (r: Result<
    (&'a str, Failure<'a>),
    &'a str,
>)
    ensures
        match r {
            Ok((rest, record)) => reads(
                grammar::failure_info(name@, stdout@, input@),
                record@,
                rest@,
            ),
            Err(at) => stops(grammar::failure_info(name@, stdout@, input@), at@),
        },
{
    let feeds = nearer(until(input, "\n\n"), until(input, "\n\r\n"));
    let carriage = nearer(until(input, "\r\n\n"), until(input, "\r\n\r\n"));
    proof {
        lemma_find(input@, "\n\n"@);
        lemma_find(input@, "\n\r\n"@);
        lemma_find(input@, "\r\n\n"@);
        lemma_find(input@, "\r\n\r\n"@);
        lemma_find_blank_line(input@);
    }
    let (s1, info) = match nearer(feeds, carriage) {
        Some(split) => split,
        None => { return Err(input); },
    };
    let s2 = match line_ending(s1) {
        Some(rest) => rest,
        None => { return Err(s1); },
    };
    match line_ending(s2) {
        Some(s3) => {
            let stacktrace = "";
            proof {
                reveal_strlit("");
                assert(stacktrace@ =~= Seq::<char>::empty());
            }
            Ok((s3, Failure { name, stdout, info, stacktrace }))
        },
        None => Err(s1),
    }
}

/// Reads the body of a failure record: the output of the test, if the body
/// starts with a tab, and the message.
fn failure_body<'a>(name: &'a str, input: &'a str) -> (r: Result<(&'a str, Failure<'a>), &'a str>)
    ensures
        match r {
            Ok((rest, record)) => reads(grammar::failure_body(name@, input@), record@, rest@),
            Err(at) => stops(grammar::failure_body(name@, input@), at@),
        },
{
    match literal(input, "\t") {
        Some(s1) => match until(s1, "thread") {
            Some((s2, stdout)) => failure_info(name, stdout, s2),
            None => Err(s1),
        },
        None => {
            let stdout = "";
            proof {
                reveal_strlit("");
                assert(stdout@ =~= Seq::<char>::empty());
            }
            failure_info(name, stdout, input)
        },
    }
}

/// Reads a failure record: its delimiter line and its body.
pub fn failure<'a>(input: &'a str) -> (r: Result<(&'a str, Failure<'a>), &'a str>)
    ensures
        match r {
            Ok((rest, record)) => reads(grammar::failure(input@), record@, rest@),
            Err(at) => stops(grammar::failure(input@), at@),
        },
{
    let s1 = match literal(input, "---- ") {
        Some(rest) => rest,
        None => { return Err(input); },
    };
    let (s2, name) = match until(s1, " stdout ----") {
        Some(split) => split,
        None => { return Err(s1); },
    };
    let s3 = match literal(s2, " stdout ----") {
        Some(rest) => rest,
        None => { return Err(s2); },
    };
    match line_ending(s3) {
        Some(s4) => failure_body(name, s4),
        None => Err(s3),
    }
}

/// Reads a line of the index of failed tests and drops it.
fn listing_line<'a>(input: &'a str) -> (r: Result<&'a str, &'a str>)
    ensures
        match r {
            Ok(rest) => reads(grammar::listing_line(input@), (), rest@),
            Err(at) => stops(grammar::listing_line(input@), at@),
        },
{
    let s1 = match literal(input, "    ") {
        Some(rest) => rest,
        None => { return Err(input); },
    };
    let (s2, _) = match not_line_ending(s1) {
        Some(split) => split,
        None => { return Err(s1); },
    };
    match line_ending(s2) {
        Some(s3) => Ok(s3),
        None => Err(s2),
    }
}

/// Reads as many test lines as follow one another, adds them to `tests`, and
/// returns what is left behind them.
fn test_functions<'a>(input: &'a str, tests: &mut Vec<Test<'a>>) -> (rest: &'a str)
    ensures
        tests_view(final(tests)@) == tests_view(old(tests)@) + grammar::test_functions(input@).0,
        rest@ == grammar::test_functions(input@).1,
{
    let mut rest = input;
    loop
        invariant
            tests_view(old(tests)@) + grammar::test_functions(input@).0 == tests_view(tests@)
                + grammar::test_functions(rest@).0,
            grammar::test_functions(input@).1 == grammar::test_functions(rest@).1,
        ensures
            tests_view(tests@) == tests_view(old(tests)@) + grammar::test_functions(input@).0,
            rest@ == grammar::test_functions(input@).1,
        decreases rest@.len(),
    {
        match test_function(rest) {
            Ok((next, test)) => {
                proof {
                    lemma_test_function_rest(rest@);
                    let more = grammar::test_functions(next@).0;
                    assert(tests_view(tests@.push(test)) =~= tests_view(tests@).push(test@));
                    assert(tests_view(tests@) + (seq![test@] + more) =~= tests_view(tests@).push(
                        test@,
                    ) + more);
                }
                tests.push(test);
                rest = next;
            },
            Err(_) => {
                proof {
                    assert(tests_view(tests@) + Seq::<TestView>::empty() =~= tests_view(tests@));
                }
                break ;
            },
        }
    }
    rest
}

/// Reads as many failure records as follow one another, adds them to
/// `records`, and returns what is left behind them.
fn failure_records<'a>(input: &'a str, records: &mut Vec<Failure<'a>>) -> (rest: &'a str)
    ensures
        failures_view(final(records)@) == failures_view(old(records)@) + grammar::failure_records(
            input@,
        ).0,
        rest@ == grammar::failure_records(input@).1,
{
    let mut rest = input;
    loop
        invariant
            failures_view(old(records)@) + grammar::failure_records(input@).0 == failures_view(
                records@,
            ) + grammar::failure_records(rest@).0,
            grammar::failure_records(input@).1 == grammar::failure_records(rest@).1,
        ensures
            failures_view(records@) == failures_view(old(records)@) + grammar::failure_records(
                input@,
            ).0,
            rest@ == grammar::failure_records(input@).1,
        decreases rest@.len(),
    {
        match failure(rest) {
            Ok((next, record)) => {
                proof {
                    lemma_failure_rest(rest@);
                    let more = grammar::failure_records(next@).0;
                    assert(failures_view(records@.push(record)) =~= failures_view(records@).push(
                        record@,
                    ));
                    assert(failures_view(records@) + (seq![record@] + more) =~= failures_view(
                        records@,
                    ).push(record@) + more);
                }
                records.push(record);
                rest = next;
            },
            Err(_) => {
                proof {
                    assert(failures_view(records@) + Seq::<FailureView>::empty() =~= failures_view(
                        records@,
                    ));
                }
                break ;
            },
        }
    }
    rest
}

/// Reads as many index lines as follow one another and returns what is left
/// behind them.
fn listing_lines<'a>(input: &'a str) -> (rest: &'a str)
    ensures
        rest@ == grammar::listing_lines(input@),
{
    let mut rest = input;
    loop
        invariant
            grammar::listing_lines(input@) == grammar::listing_lines(rest@),
        ensures
            rest@ == grammar::listing_lines(input@),
        decreases rest@.len(),
    {
        match listing_line(rest) {
            Ok(next) => {
                proof {
                    lemma_listing_line_rest(rest@);
                }
                rest = next;
            },
            Err(_) => {
                break ;
            },
        }
    }
    rest
}

/// Reads the failures block of a module and returns its failure records.
pub fn failures<'a>(input: &'a str) -> (r: Result<(&'a str, Vec<Failure<'a>>), &'a str>)
    ensures
        match r {
            Ok((rest, records)) => reads(grammar::failures(input@), failures_view(records@), rest@),
            Err(at) => stops(grammar::failures(input@), at@),
        },
{
    let s1 = match literal(input, "failures:") {
        Some(rest) => rest,
        None => { return Err(input); },
    };
    let s2 = match line_ending(s1) {
        Some(rest) => rest,
        None => { return Err(s1); },
    };
    let s3 = match line_ending(s2) {
        Some(rest) => rest,
        None => { return Err(s2); },
    };
    let (s4, first) = match failure(s3) {
        Ok(read) => read,
        Err(at) => { return Err(at); },
    };
    let mut records: Vec<Failure<'a>> = Vec::new();
    records.push(first);
    proof {
        assert(failures_view(records@) =~= seq![first@]);
    }
    let s5 = failure_records(s4, &mut records);
    let s6 = match line_ending(s5) {
        Some(rest) => rest,
        None => { return Err(s5); },
    };
    let s7 = match literal(s6, "failures:") {
        Some(rest) => rest,
        None => { return Err(s6); },
    };
    let s8 = match line_ending(s7) {
        Some(rest) => rest,
        None => { return Err(s7); },
    };
    let s9 = match listing_line(s8) {
        Ok(rest) => rest,
        Err(at) => { return Err(at); },
    };
    let s10 = listing_lines(s9);
    match line_ending(s10) {
        Some(s11) => Ok((s11, records)),
        None => Err(s10),
    }
}

/// Reads a module block: the header line, the test lines, the failures block
/// if there is one, and the summary line.
pub fn test_module<'a>(input: &'a str) -> (r: Result<(&'a str, TestModule<'a>), &'a str>)
    ensures
        match r {
            Ok((rest, module)) => reads(grammar::test_module(input@), module@, rest@),
            Err(at) => stops(grammar::test_module(input@), at@),
        },
{
    let (s1, _) = match test_start(input) {
        Ok(read) => read,
        Err(at) => { return Err(at); },
    };
    let mut tests: Vec<Test<'a>> = Vec::new();
    let s2 = test_functions(s1, &mut tests);
    proof {
        assert(tests_view(Seq::<Test<'a>>::empty()) =~= Seq::<TestView>::empty());
        assert(Seq::<TestView>::empty() + grammar::test_functions(s1@).0
            =~= grammar::test_functions(s1@).0);
    }
    let s3 = match line_ending(s2) {
        Some(rest) => rest,
        None => { return Err(s2); },
    };
    let (s4, records) = match failures(s3) {
        Ok(read) => read,
        Err(_) => {
            let none: Vec<Failure<'a>> = Vec::new();
            proof {
                assert(failures_view(none@) =~= Seq::<FailureView>::empty());
            }
            (s3, none)
        },
    };
    match testsuite_summary(s4) {
        Ok((s5, summary)) => Ok(
            (
                s5,
                TestModule {
                    result: summary.0,
                    tests,
                    failures: records,
                    passed: summary.1,
                    failed: summary.2,
                    ignored: summary.3,
                    measured: summary.4,
                    filtered: summary.5,
                },
            ),
        ),
        Err(at) => Err(at),
    }
}

/// Reads as many line endings as follow one another and returns what is left
/// behind them.
fn line_endings<'a>(input: &'a str) -> (rest: &'a str)
    ensures
        rest@ == grammar::line_endings(input@),
{
    let mut rest = input;
    loop
        invariant
            grammar::line_endings(input@) == grammar::line_endings(rest@),
        ensures
            rest@ == grammar::line_endings(input@),
        decreases rest@.len(),
    {
        match line_ending(rest) {
            Some(next) => {
                rest = next;
            },
            None => {
                break ;
            },
        }
    }
    rest
}

/// Reads a module block with the empty lines in front of it.
fn separated_module<'a>(input: &'a str) -> (r: Result<(&'a str, TestModule<'a>), &'a str>)
    ensures
        match r {
            Ok((rest, module)) => reads(grammar::separated_module(input@), module@, rest@),
            Err(at) => stops(grammar::separated_module(input@), at@),
        },
{
    match line_ending(input) {
        Some(s1) => test_module(line_endings(s1)),
        None => Err(input),
    }
}

/// Reads as many separated module blocks as follow one another, adds them to
/// `modules`, and returns what is left behind them.
fn separated_modules<'a>(input: &'a str, modules: &mut Vec<TestModule<'a>>) -> (rest: &'a str)
    ensures
        modules_view(final(modules)@) == modules_view(old(modules)@) + grammar::separated_modules(
            input@,
        ).0,
        rest@ == grammar::separated_modules(input@).1,
{
    let mut rest = input;
    loop
        invariant
            modules_view(old(modules)@) + grammar::separated_modules(input@).0 == modules_view(
                modules@,
            ) + grammar::separated_modules(rest@).0,
            grammar::separated_modules(input@).1 == grammar::separated_modules(rest@).1,
        ensures
            modules_view(modules@) == modules_view(old(modules)@) + grammar::separated_modules(
                input@,
            ).0,
            rest@ == grammar::separated_modules(input@).1,
        decreases rest@.len(),
    {
        match separated_module(rest) {
            Ok((next, module)) => {
                proof {
                    lemma_separated_module_rest(rest@);
                    let more = grammar::separated_modules(next@).0;
                    assert(modules_view(modules@.push(module)) =~= modules_view(modules@).push(
                        module@,
                    ));
                    assert(modules_view(modules@) + (seq![module@] + more) =~= modules_view(
                        modules@,
                    ).push(module@) + more);
                }
                modules.push(module);
                rest = next;
            },
            Err(_) => {
                proof {
                    assert(modules_view(modules@) + Seq::<ModuleView>::empty() =~= modules_view(
                        modules@,
                    ));
                }
                break ;
            },
        }
    }
    rest
}

/// Reads the whole text: one or more module blocks with empty lines between
/// them, and nothing else.
pub fn test_suite<'a>(input: &'a str) -> (r: Result<(&'a str, Vec<TestModule<'a>>), &'a str>)
    ensures
        match r {
            Ok((rest, modules)) => reads(grammar::test_suite(input@), modules_view(modules@), rest@),
            Err(at) => stops(grammar::test_suite(input@), at@),
        },
{
    let (s1, first) = match test_module(line_endings(input)) {
        Ok(read) => read,
        Err(at) => { return Err(at); },
    };
    let mut modules: Vec<TestModule<'a>> = Vec::new();
    modules.push(first);
    proof {
        assert(modules_view(modules@) =~= seq![first@]);
    }
    let s2 = separated_modules(s1, &mut modules);
    let s3 = line_endings(s2);
    if s3.is_empty() {
        Ok((s3, modules))
    } else {
        Err(s3)
    }
}

/// The mathematical value of what [`parse`] returns.
pub open spec fn parse_view(r: Result<Vec<TestModule<'_>>, String>) -> Result<
    Seq<ModuleView>,
    Seq<char>,
> {
    match r {
        Ok(modules) => Ok(modules_view(modules@)),
        Err(description) => Err(description@),
    }
}

/// Reads the test modules that the console output of a test runner holds.
///
/// The whole text has to be a sequence of module blocks. Where it is not,
/// nothing of it is returned, and the error says where the reading stopped.
pub fn parse<'a>(string: &'a str) -> (r: Result<Vec<TestModule<'a>>, String>)
    ensures
        parse_view(r) == grammar::parse(string@),
{
    match test_suite(string) {
        Ok((_, modules)) => Ok(modules),
        Err(at) => {
            if at.is_empty() {
                Err(String::from_str("parse failure: the input ends too early"))
            } else {
                let mut description = String::from_str("parse failure: cannot read on from: ");
                description.append(at);
                Err(description)
            }
        },
    }
}

} // verus!
