use cargo_test_junit::junit::{decimal, serialize, Element, Node};
use cargo_test_junit::parser::parse;
use cargo_test_junit::{Failure, Test, TestModule, TestResult};

const DECLARATION: &str = "<?xml version=\"1.0\" encoding=\"UTF-8\"?>\n";

fn element(name: &str, attributes: Vec<(&str, &str)>, children: Vec<Node>) -> Element {
    Element {
        name: name.to_string(),
        attributes: attributes.into_iter().map(|(k, v)| (k.to_string(), v.to_string())).collect(),
        children,
    }
}

fn node(name: &str, attributes: Vec<(&str, &str)>, children: Vec<Node>) -> Node {
    Node::Element(element(name, attributes, children))
}

fn module<'a>(tests: Vec<Test<'a>>, failures: Vec<Failure<'a>>) -> TestModule<'a> {
    TestModule {
        result: TestResult::Passed,
        tests,
        failures,
        passed: 0,
        failed: 0,
        ignored: 0,
        measured: 0,
        filtered: 0,
    }
}

fn suite(children: Vec<Node>, tests: &str) -> Node {
    node("testsuite", vec![("failures", "0"), ("skip", "0"), ("tests", tests)], children)
}

fn as_xml(element: &Element) -> xml::Element {
    let attributes: Vec<(String, Option<String>, String)> =
        element.attributes.iter().map(|(k, v)| (k.clone(), None, v.clone())).collect();
    let mut out = xml::Element::new(element.name.clone(), None, attributes);
    for child in &element.children {
        match child {
            Node::Element(inner) => {
                out.tag(as_xml(inner));
            }
            Node::Text(text) => {
                out.text(text.clone());
            }
            Node::CData(data) => {
                out.cdata(data.clone());
            }
        }
    }
    out
}

#[test]
fn format_no_modules() {
    let report = cargo_test_junit::junit::format(vec![]);
    assert_eq!(report, element("testsuites", vec![], vec![]));
    assert_eq!(serialize(&report), format!("{}<testsuites/>", DECLARATION));
}

#[test]
fn format_minimal_passing_module() {
    let text = "\nrunning 1 test\ntest a::b ... ok\n\ntest result: ok. 1 passed; 0 failed; 0 ignored; 0 measured; 0 filtered out\n";
    let report = cargo_test_junit::junit::format(parse(text).unwrap());
    assert_eq!(
        report,
        element(
            "testsuites",
            vec![],
            vec![suite(vec![node("testcase", vec![("name", "a::b")], vec![])], "1")]
        )
    );
    assert_eq!(
        serialize(&report),
        format!(
            "{}<testsuites><testsuite failures='0' skip='0' tests='1'><testcase name='a::b'/></testsuite></testsuites>",
            DECLARATION
        )
    );
}

#[test]
fn format_passed_tests_have_no_children() {
    let data = vec![module(
        vec![
            Test { name: "a", result: TestResult::Passed },
            Test { name: "b", result: TestResult::Passed },
            Test { name: "c", result: TestResult::Passed },
        ],
        vec![],
    )];
    let report = cargo_test_junit::junit::format(data);
    assert_eq!(report.children.len(), 1);
    match &report.children[0] {
        Node::Element(suite) => {
            assert_eq!(suite.children.len(), 3);
            for case in &suite.children {
                match case {
                    Node::Element(case) => {
                        assert_eq!(case.name, "testcase");
                        assert!(case.children.is_empty());
                    }
                    _ => panic!("a test case is an element"),
                }
            }
        }
        _ => panic!("a test suite is an element"),
    }
}

#[test]
fn format_passed_test_ignores_failure_records() {
    let data = vec![module(
        vec![Test { name: "a", result: TestResult::Passed }, Test { name: "a", result: TestResult::Ignored }],
        vec![Failure { name: "a", stdout: "out", info: "info", stacktrace: "" }],
    )];
    assert_eq!(
        cargo_test_junit::junit::format(data),
        element(
            "testsuites",
            vec![],
            vec![suite(
                vec![
                    node("testcase", vec![("name", "a")], vec![]),
                    node("testcase", vec![("name", "a")], vec![node("skipped", vec![], vec![])]),
                ],
                "2"
            )]
        )
    );
}

#[test]
fn format_ignored_test_is_skipped() {
    let data = vec![module(vec![Test { name: "slow", result: TestResult::Ignored }], vec![])];
    let report = cargo_test_junit::junit::format(data);
    assert_eq!(
        report,
        element(
            "testsuites",
            vec![],
            vec![suite(
                vec![node("testcase", vec![("name", "slow")], vec![node("skipped", vec![], vec![])])],
                "1"
            )]
        )
    );
    assert_eq!(
        serialize(&report),
        format!(
            "{}<testsuites><testsuite failures='0' skip='0' tests='1'><testcase name='slow'><skipped/></testcase></testsuite></testsuites>",
            DECLARATION
        )
    );
}

#[test]
fn format_failing_test_with_captured_output() {
    let text = "\nrunning 1 test\ntest a::b ... FAILED\n\nfailures:\n\n---- a::b stdout ----\n\tleft < right\nthread 'a::b' panicked at 'x < y', src/lib.rs:3\n\n\nfailures:\n    a::b\n\ntest result: FAILED. 0 passed; 1 failed; 0 ignored; 0 measured; 0 filtered out\n";
    let report = cargo_test_junit::junit::format(parse(text).unwrap());
    assert_eq!(
        report,
        element(
            "testsuites",
            vec![],
            vec![node(
                "testsuite",
                vec![("failures", "1"), ("skip", "0"), ("tests", "1")],
                vec![node(
                    "testcase",
                    vec![("name", "a::b")],
                    vec![
                        node(
                            "failure",
                            vec![],
                            vec![Node::CData("thread 'a::b' panicked at 'x < y', src/lib.rs:3".to_string())]
                        ),
                        node("system-out", vec![], vec![Node::Text("left < right\n".to_string())]),
                    ]
                )]
            )]
        )
    );
    assert_eq!(
        serialize(&report),
        format!(
            "{}<testsuites><testsuite failures='1' skip='0' tests='1'><testcase name='a::b'><failure><![CDATA[thread 'a::b' panicked at 'x < y', src/lib.rs:3]]></failure><system-out>left &lt; right\n</system-out></testcase></testsuite></testsuites>",
            DECLARATION
        )
    );
}

#[test]
fn format_failure_without_output_has_no_system_out() {
    let data = vec![module(
        vec![Test { name: "a", result: TestResult::Failed }],
        vec![Failure { name: "a", stdout: "", info: "boom", stacktrace: "" }],
    )];
    assert_eq!(
        cargo_test_junit::junit::format(data),
        element(
            "testsuites",
            vec![],
            vec![suite(
                vec![node(
                    "testcase",
                    vec![("name", "a")],
                    vec![node("failure", vec![], vec![Node::CData("boom".to_string())])]
                )],
                "1"
            )]
        )
    );
}

#[test]
fn format_attaches_every_failure_of_the_name() {
    let data = vec![module(
        vec![
            Test { name: "a", result: TestResult::Failed },
            Test { name: "b", result: TestResult::Failed },
            Test { name: "c", result: TestResult::Failed },
        ],
        vec![
            Failure { name: "a", stdout: "one", info: "first", stacktrace: "" },
            Failure { name: "nobody", stdout: "lost", info: "lost", stacktrace: "" },
            Failure { name: "b", stdout: "", info: "other", stacktrace: "" },
            Failure { name: "a", stdout: "", info: "second", stacktrace: "" },
        ],
    )];
    assert_eq!(
        cargo_test_junit::junit::format(data),
        element(
            "testsuites",
            vec![],
            vec![suite(
                vec![
                    node(
                        "testcase",
                        vec![("name", "a")],
                        vec![
                            node("failure", vec![], vec![Node::CData("first".to_string())]),
                            node("system-out", vec![], vec![Node::Text("one".to_string())]),
                            node("failure", vec![], vec![Node::CData("second".to_string())]),
                        ]
                    ),
                    node(
                        "testcase",
                        vec![("name", "b")],
                        vec![node("failure", vec![], vec![Node::CData("other".to_string())])]
                    ),
                    node("testcase", vec![("name", "c")], vec![]),
                ],
                "3"
            )]
        )
    );
}

#[test]
fn format_writes_the_counts_as_they_are() {
    let data = vec![
        TestModule {
            result: TestResult::Failed,
            tests: vec![Test { name: "a", result: TestResult::Passed }],
            failures: vec![],
            passed: 7,
            failed: 4294967295,
            ignored: 120,
            measured: 3,
            filtered: 9,
        },
        module(vec![], vec![]),
    ];
    assert_eq!(
        cargo_test_junit::junit::format(data),
        element(
            "testsuites",
            vec![],
            vec![
                node(
                    "testsuite",
                    vec![("failures", "4294967295"), ("skip", "120"), ("tests", "1")],
                    vec![node("testcase", vec![("name", "a")], vec![])]
                ),
                suite(vec![], "0"),
            ]
        )
    );
}

#[test]
fn format_keeps_the_order_of_modules_and_tests() {
    let data = vec![
        module(vec![Test { name: "z", result: TestResult::Passed }, Test { name: "a", result: TestResult::Passed }], vec![]),
        module(vec![Test { name: "m", result: TestResult::Passed }], vec![]),
    ];
    assert_eq!(
        serialize(&cargo_test_junit::junit::format(data)),
        format!(
            "{}<testsuites><testsuite failures='0' skip='0' tests='2'><testcase name='z'/><testcase name='a'/></testsuite><testsuite failures='0' skip='0' tests='1'><testcase name='m'/></testsuite></testsuites>",
            DECLARATION
        )
    );
}

#[test]
fn serialize_escapes_texts_and_attribute_values() {
    let report = element(
        "r",
        vec![("a", "<&>'\""), ("a", "twice"), ("b", "")],
        vec![
            Node::Text("1 < 2 && 'x' > \"y\"".to_string()),
            Node::CData("1 < 2 && ]]> 'x'".to_string()),
            node("e", vec![("n", "t\u{e9}st")], vec![Node::Text(String::new())]),
        ],
    );
    assert_eq!(
        serialize(&report),
        format!(
            "{}<r a='&lt;&amp;&gt;&apos;&quot;' a='twice' b=''>1 &lt; 2 &amp;&amp; &apos;x&apos; &gt; &quot;y&quot;<![CDATA[1 < 2 && ]]> 'x']]><e n='t\u{e9}st'></e></r>",
            DECLARATION
        )
    );
}

#[test]
fn serialize_escapes_test_names() {
    let data = vec![module(vec![Test { name: "a::<b>::c & 'd'", result: TestResult::Passed }], vec![])];
    assert_eq!(
        serialize(&cargo_test_junit::junit::format(data)),
        format!(
            "{}<testsuites><testsuite failures='0' skip='0' tests='1'><testcase name='a::&lt;b&gt;::c &amp; &apos;d&apos;'/></testsuite></testsuites>",
            DECLARATION
        )
    );
}

#[test]
fn serialize_agrees_with_the_xml_crate() {
    let report = element(
        "testsuites",
        vec![],
        vec![
            node(
                "testcase",
                vec![("name", "a::<b> & \"c\"")],
                vec![
                    node("failure", vec![], vec![Node::CData("left: `1`,\n right: `2` <>&".to_string())]),
                    node("system-out", vec![], vec![Node::Text("it's <out> & \"more\"\n".to_string())]),
                    node("skipped", vec![], vec![]),
                ],
            ),
            node("testcase", vec![("name", "")], vec![]),
        ],
    );
    assert_eq!(serialize(&report), format!("{}{}", DECLARATION, as_xml(&report)));
}

#[test]
fn decimal_writes_digits() {
    assert_eq!(decimal(0), "0");
    assert_eq!(decimal(7), "7");
    assert_eq!(decimal(10), "10");
    assert_eq!(decimal(1234567890), "1234567890");
    assert_eq!(decimal(4294967295), "4294967295");
    assert_eq!(decimal(u64::MAX), "18446744073709551615");
}
