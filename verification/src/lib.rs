//! Turns the console output of a test runner into a JUnit-style report.
//!
//! The text is first read into test modules by [`parser::parse`]; the modules
//! are then laid out as an element tree by [`junit::format`], which
//! [`junit::serialize`] writes down as one XML document.

use vstd::prelude::*;
use vstd::utf8::{decode_utf8, valid_utf8};

pub mod text;
pub mod grammar;
mod lemmas;
pub mod parser;
pub mod junit;
pub mod laws;

verus! {

/// How one test, or a whole module of tests, ended.
#[derive(Debug, Clone, Copy, PartialEq, Eq, Structural)]
pub enum TestResult {
    Passed,
    Ignored,
    Failed,
}

/// What the runner printed about one failed test.
#[derive(Debug, PartialEq)]
pub struct Failure<'a> {
    /// The name of the test that failed.
    pub name: &'a str,
    /// What the test wrote before it failed; empty when it wrote nothing.
    pub stdout: &'a str,
    /// The message of the failure, as printed.
    pub info: &'a str,
    /// Kept for a stack trace; the grammar leaves it empty.
    pub stacktrace: &'a str,
}

/// One line of the test listing: the name of a test and how it ended.
#[derive(Debug, PartialEq)]
pub struct Test<'a> {
    pub name: &'a str,
    pub result: TestResult,
}

/// One run of a group of tests, from its header line to its summary line.
///
/// The five counts are those of the summary line. Nothing ties them to the
/// number of tests or failures that were listed.
#[derive(Debug, PartialEq)]
pub struct TestModule<'a> {
    pub result: TestResult,
    pub tests: Vec<Test<'a>>,
    pub failures: Vec<Failure<'a>>,
    pub passed: u32,
    pub failed: u32,
    pub ignored: u32,
    pub measured: u32,
    pub filtered: u32,
}

/// The mathematical value of a [`Failure`].
pub struct FailureView {
    pub name: Seq<char>,
    pub stdout: Seq<char>,
    pub info: Seq<char>,
    pub stacktrace: Seq<char>,
}

/// The mathematical value of a [`Test`].
pub struct TestView {
    pub name: Seq<char>,
    pub result: TestResult,
}

/// The mathematical value of a [`TestModule`].
pub struct ModuleView {
    pub result: TestResult,
    pub tests: Seq<TestView>,
    pub failures: Seq<FailureView>,
    pub passed: u32,
    pub failed: u32,
    pub ignored: u32,
    pub measured: u32,
    pub filtered: u32,
}

impl<'a> View for Failure<'a> {
    type V = FailureView;

    open spec fn view(&self) -> FailureView {
        FailureView {
            name: self.name@,
            stdout: self.stdout@,
            info: self.info@,
            stacktrace: self.stacktrace@,
        }
    }
}

impl<'a> View for Test<'a> {
    type V = TestView;

    open spec fn view(&self) -> TestView {
        TestView { name: self.name@, result: self.result }
    }
}

impl<'a> View for TestModule<'a> {
    type V = ModuleView;

    open spec fn view(&self) -> ModuleView {
        ModuleView {
            result: self.result,
            tests: tests_view(self.tests@),
            failures: failures_view(self.failures@),
            passed: self.passed,
            failed: self.failed,
            ignored: self.ignored,
            measured: self.measured,
            filtered: self.filtered,
        }
    }
}

/// The values of a sequence of tests, in order.
pub open spec fn tests_view(tests: Seq<Test<'_>>) -> Seq<TestView> {
    Seq::new(tests.len(), |i: int| tests[i]@)
}

/// The values of a sequence of failures, in order.
pub open spec fn failures_view(failures: Seq<Failure<'_>>) -> Seq<FailureView> {
    Seq::new(failures.len(), |i: int| failures[i]@)
}

/// The values of a sequence of modules, in order.
pub open spec fn modules_view(modules: Seq<TestModule<'_>>) -> Seq<ModuleView> {
    Seq::new(modules.len(), |i: int| modules[i]@)
}

/// Decodes bytes as UTF-8.
///
/// Calls `String::from_utf8` of the standard library, which returns the text
/// that the bytes encode when they are valid UTF-8 and an error otherwise.
#[verifier::external_body]
fn from_utf8(bytes: Vec<u8>) -> (r: Option<String>)
    ensures
        match r {
            Some(text) => valid_utf8(bytes@) && text@ == decode_utf8(bytes@),
            None => !valid_utf8(bytes@),
        },
{
    String::from_utf8(bytes).ok()
}

/// Turns the bytes that were read from the source of the console output into
/// the text to parse. Bytes that are no valid UTF-8 are no text.
pub fn load_data(bytes: Vec<u8>) -> (r: Option<String>)
    ensures
        match r {
            Some(text) => valid_utf8(bytes@) && text@ == decode_utf8(bytes@),
            None => !valid_utf8(bytes@),
        },
{
    from_utf8(bytes)
}

} // verus!
