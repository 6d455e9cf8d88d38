//! What holds of the grammar and of the report for every input.

use vstd::prelude::*;
use crate::grammar::{
    filtered_clause, line_endings, parse, summary_counts, test_function, test_functions, test_module,
    test_result, test_start, testsuite_summary, number,
};
use crate::junit::{report, testsuite_element, ElementView, NodeView};
use crate::lemmas::{lemma_digit_run, lemma_find, lemma_test_function_rest, lemma_word_run};
use crate::parser::parse_view;
use crate::text::{
    after_line_ending, after_literal, before_pattern, digit_run, find, is_alphanumeric, is_digit,
    word_run,
};
use crate::{ModuleView, TestModule, TestResult, TestView};

verus! {

/// Parsing is a function of the text alone: two readings of the same
/// characters give the same modules, or the same description of the failure.
pub proof fn parsing_is_deterministic(
    first_text: &str,
    second_text: &str,
    first: Result<Vec<TestModule<'_>>, String>,
    second: Result<Vec<TestModule<'_>>, String>,
)
    requires
        first_text@ == second_text@,
        parse_view(first) == parse(first_text@),
        parse_view(second) == parse(second_text@),
    ensures
        parse_view(first) == parse_view(second),
{
}

/// The last number of a summary line is the number of its `filtered out`
/// clause where the line has that clause, and 0 where it has none.
pub proof fn filtered_count_of_summary(s: Seq<char>)
    requires
        testsuite_summary(s) is Ok,
    ensures
        summary_counts(s) is Ok,
        match filtered_clause(summary_counts(s)->Ok_0.1) {
            Ok((count, _)) => testsuite_summary(s)->Ok_0.0.5 == count,
            Err(_) => testsuite_summary(s)->Ok_0.0.5 == 0,
        },
{
}

/// In the report of modules, a module without failure records whose tests
/// all passed has one `testcase` element for each test, and none of these
/// elements has a child.
pub proof fn passed_tests_have_no_children(modules: Seq<ModuleView>, m: int)
    requires
        0 <= m < modules.len(),
        modules[m].failures.len() == 0,
        forall|i: int|
            0 <= i < modules[m].tests.len() ==> (#[trigger] modules[m].tests[i]).result
                == TestResult::Passed,
    ensures
        report(modules).children[m] == NodeView::Element(testsuite_element(modules[m])),
        testsuite_element(modules[m]).children.len() == modules[m].tests.len(),
        forall|i: int|
            0 <= i < modules[m].tests.len() ==> (#[trigger] testsuite_element(
                modules[m],
            ).children[i]) == NodeView::Element(
                ElementView {
                    name: "testcase"@,
                    attributes: seq![("name"@, modules[m].tests[i].name)],
                    children: Seq::empty(),
                },
            ),
{
    assert forall|i: int| 0 <= i < modules[m].tests.len() implies (#[trigger] testsuite_element(
        modules[m],
    ).children[i]) == NodeView::Element(
        ElementView {
            name: "testcase"@,
            attributes: seq![("name"@, modules[m].tests[i].name)],
            children: Seq::empty(),
        },
    ) by {
        assert(modules[m].tests[i].result == TestResult::Passed);
    }
}

/// A literal that is found at the start of a text is found at the start of
/// every longer text.
proof fn lemma_after_literal_extends(s: Seq<char>, x: Seq<char>, tag: Seq<char>)
    requires
        after_literal(s, tag) is Some,
    ensures
        after_literal(s + x, tag) == Some(after_literal(s, tag)->0 + x),
{
    assert((s + x).subrange(0, tag.len() as int) =~= s.subrange(0, tag.len() as int));
    assert((s + x).skip(tag.len() as int) =~= s.skip(tag.len() as int) + x);
}

/// A line ending at the start of a text is one at the start of every longer
/// text.
proof fn lemma_after_line_ending_extends(s: Seq<char>, x: Seq<char>)
    requires
        after_line_ending(s) is Some,
    ensures
        after_line_ending(s + x) == Some(after_line_ending(s)->0 + x),
{
    assert((s + x)[0] == s[0]);
    if s[0] == '\n' {
        assert((s + x).skip(1) =~= s.skip(1) + x);
    } else {
        assert((s + x)[1] == s[1]);
        assert((s + x).skip(2) =~= s.skip(2) + x);
    }
}

/// A pattern that is found in a text ends inside the text.
proof fn lemma_find_fits(s: Seq<char>, pattern: Seq<char>)
    ensures
        match find(s, pattern) {
            Some(i) => i + pattern.len() <= s.len(),
            None => true,
        },
    decreases s.len(),
{
    if !pattern.is_prefix_of(s) && s.len() > 0 {
        lemma_find_fits(s.drop_first(), pattern);
    }
}

/// A pattern that is found in a text is found at the same place in every
/// longer text.
proof fn lemma_find_extends(s: Seq<char>, x: Seq<char>, pattern: Seq<char>)
    requires
        find(s, pattern) is Some,
    ensures
        find(s + x, pattern) == find(s, pattern),
    decreases s.len(),
{
    lemma_find_fits(s, pattern);
    assert((s + x).subrange(0, pattern.len() as int) =~= s.subrange(0, pattern.len() as int));
    if !pattern.is_prefix_of(s) {
        assert((s + x).drop_first() =~= s.drop_first() + x);
        lemma_find_extends(s.drop_first(), x, pattern);
    }
}

/// A text split in front of a pattern is split at the same place when it is
/// made longer.
proof fn lemma_before_pattern_extends(s: Seq<char>, x: Seq<char>, pattern: Seq<char>)
    requires
        before_pattern(s, pattern) is Some,
    ensures
        ({
            let split = before_pattern(s, pattern)->0;
            before_pattern(s + x, pattern) == Some((split.0, split.1 + x))
        }),
{
    lemma_find_extends(s, x, pattern);
    lemma_find(s, pattern);
    let i = find(s, pattern)->0 as int;
    assert((s + x).take(i) =~= s.take(i));
    assert((s + x).skip(i) =~= s.skip(i) + x);
}

/// Digits that stop inside a text stop at the same place when the text is
/// made longer.
proof fn lemma_digit_run_extends(s: Seq<char>, x: Seq<char>)
    requires
        digit_run(s) < s.len(),
    ensures
        digit_run(s + x) == digit_run(s),
    decreases s.len(),
{
    assert((s + x)[0] == s[0]);
    if is_digit(s[0]) {
        assert((s + x).drop_first() =~= s.drop_first() + x);
        lemma_digit_run_extends(s.drop_first(), x);
    }
}

/// Letters and digits that stop inside a text stop at the same place when
/// the text is made longer.
proof fn lemma_word_run_extends(s: Seq<char>, x: Seq<char>)
    requires
        word_run(s) < s.len(),
    ensures
        word_run(s + x) == word_run(s),
    decreases s.len(),
{
    assert((s + x)[0] == s[0]);
    if is_alphanumeric(s[0]) {
        assert((s + x).drop_first() =~= s.drop_first() + x);
        lemma_word_run_extends(s.drop_first(), x);
    }
}

/// A count that leaves something is read in the same way from every longer
/// text.
proof fn lemma_number_extends(s: Seq<char>, x: Seq<char>)
    requires
        number(s) is Ok,
        number(s)->Ok_0.1.len() > 0,
    ensures
        number(s + x) == Ok::<(u32, Seq<char>), Seq<char>>(
            (number(s)->Ok_0.0, number(s)->Ok_0.1 + x),
        ),
{
    lemma_digit_run(s);
    lemma_digit_run_extends(s, x);
    let n = digit_run(s) as int;
    assert((s + x).take(n) =~= s.take(n));
    assert((s + x).skip(n) =~= s.skip(n) + x);
}

/// An outcome token that leaves something is read in the same way from every
/// longer text.
proof fn lemma_test_result_extends(s: Seq<char>, x: Seq<char>)
    requires
        test_result(s) is Ok,
        test_result(s)->Ok_0.1.len() > 0,
    ensures
        test_result(s + x) == Ok::<(TestResult, Seq<char>), Seq<char>>(
            (test_result(s)->Ok_0.0, test_result(s)->Ok_0.1 + x),
        ),
{
    lemma_word_run(s);
    lemma_word_run_extends(s, x);
    let n = word_run(s) as int;
    assert((s + x).take(n) =~= s.take(n));
    assert((s + x).skip(n) =~= s.skip(n) + x);
}

/// A header line is read in the same way whatever follows it.
proof fn lemma_test_start_extends(header: Seq<char>, x: Seq<char>)
    requires
        test_start(header) is Ok,
    ensures
        test_start(header + x) == Ok::<(u32, Seq<char>), Seq<char>>(
            (test_start(header)->Ok_0.0, test_start(header)->Ok_0.1 + x),
        ),
{
    let s1 = after_literal(header, "running "@)->0;
    lemma_after_literal_extends(header, x, "running "@);
    let (count, s2) = number(s1)->Ok_0;
    let s3 = after_literal(s2, crate::grammar::tests_noun(count))->0;
    assert(s3.len() > 0);
    assert(s2.len() > 0);
    lemma_number_extends(s1, x);
    lemma_after_literal_extends(s2, x, crate::grammar::tests_noun(count));
    lemma_after_line_ending_extends(s3, x);
}

/// A test line is read in the same way whatever follows it.
proof fn lemma_test_function_extends(line: Seq<char>, x: Seq<char>)
    requires
        test_function(line) is Ok,
    ensures
        test_function(line + x) == Ok::<(TestView, Seq<char>), Seq<char>>(
            (test_function(line)->Ok_0.0, test_function(line)->Ok_0.1 + x),
        ),
{
    let s1 = after_literal(line, "test "@)->0;
    lemma_after_literal_extends(line, x, "test "@);
    let (name, s2) = before_pattern(s1, " ... "@)->0;
    lemma_before_pattern_extends(s1, x, " ... "@);
    let s3 = after_literal(s2, " ... "@)->0;
    lemma_after_literal_extends(s2, x, " ... "@);
    let (result, s4) = test_result(s3)->Ok_0;
    assert(s4.len() > 0);
    lemma_test_result_extends(s3, x);
    lemma_after_line_ending_extends(s4, x);
}

/// Whether `line` is one whole test line, with nothing behind it.
pub open spec fn is_test_line(line: Seq<char>) -> bool {
    match test_function(line) {
        Ok((_, rest)) => rest.len() == 0,
        Err(_) => false,
    }
}

/// Whole test lines that follow one another are all read, and nothing else
/// is, when no test line follows them.
proof fn lemma_test_lines_are_read(lines: Seq<Seq<char>>, tail: Seq<char>)
    requires
        forall|i: int| 0 <= i < lines.len() ==> is_test_line(#[trigger] lines[i]),
        test_function(tail) is Err,
    ensures
        test_functions(lines.flatten() + tail).0.len() == lines.len(),
        test_functions(lines.flatten() + tail).1 == tail,
    decreases lines.len(),
{
    if lines.len() == 0 {
        assert(lines.flatten() + tail =~= tail);
    } else {
        let line = lines.first();
        let others = lines.drop_first();
        let behind = others.flatten() + tail;
        assert(is_test_line(lines[0]));
        assert forall|i: int| 0 <= i < others.len() implies is_test_line(
            #[trigger] others[i],
        ) by {
            assert(others[i] == lines[i + 1]);
        }
        lemma_test_lines_are_read(others, tail);
        lemma_test_function_extends(line, behind);
        lemma_test_function_rest(line);
        assert(lines.flatten() + tail =~= line + behind);
        assert(test_function(line)->Ok_0.1 + behind =~= behind);
    }
}

/// A module whose header line declares as many tests as test lines follow it
/// is read with that many tests.
///
/// The text of the module is the header line, the test lines, and a tail that
/// starts with the empty line behind the test lines. Where that text is a
/// module block, the module has as many tests as the header declares; so has
/// the first module that is read from the block, with or without a line
/// ending in front of it.
pub proof fn declared_tests_are_read(
    header: Seq<char>,
    lines: Seq<Seq<char>>,
    tail: Seq<char>,
    count: u32,
)
    requires
        test_start(header) == Ok::<(u32, Seq<char>), Seq<char>>((count, Seq::empty())),
        lines.len() == count,
        forall|i: int| 0 <= i < lines.len() ==> is_test_line(#[trigger] lines[i]),
        after_line_ending(tail) is Some,
    ensures
        match test_module(header + lines.flatten() + tail) {
            Ok((module, _)) => module.tests.len() == count,
            Err(_) => true,
        },
        match parse(header + lines.flatten() + tail) {
            Ok(modules) => modules.len() >= 1 && modules[0].tests.len() == count,
            Err(_) => true,
        },
        match parse(seq!['\n'] + (header + lines.flatten() + tail)) {
            Ok(modules) => modules.len() >= 1 && modules[0].tests.len() == count,
            Err(_) => true,
        },
{
    let listing = lines.flatten() + tail;
    let block = header + lines.flatten() + tail;
    let text = seq!['\n'] + block;
    reveal_strlit("test ");
    reveal_strlit("running ");
    assert(tail[0] == '\n' || tail[0] == '\r');
    assert(!"test "@.is_prefix_of(tail)) by {
        if "test "@.is_prefix_of(tail) {
            assert("test "@[0] == tail.subrange(0, 5)[0]);
        }
    }
    lemma_test_lines_are_read(lines, tail);
    lemma_test_start_extends(header, listing);
    assert(block =~= header + listing);
    assert(Seq::<char>::empty() + listing =~= listing);
    assert(test_start(block) == Ok::<(u32, Seq<char>), Seq<char>>((count, listing)));
    assert("running "@.is_prefix_of(block)) by {
        assert(after_literal(block, "running "@) is Some);
    }
    assert(block[0] == "running "@[0]) by {
        assert("running "@[0] == block.subrange(0, 8)[0]);
    }
    assert(after_line_ending(block) is None);
    assert(line_endings(block) == block);
    assert(text.skip(1) =~= block);
    assert(after_line_ending(text) == Some(block));
    assert(line_endings(text) == block);
}

} // verus!
