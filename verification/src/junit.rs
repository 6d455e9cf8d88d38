//! The JUnit report: its element tree and the text of that tree.
//!
//! [`format`] lays the test modules out as a tree of elements, and
//! [`serialize`] writes the tree down as one XML document.

use vstd::prelude::*;
use vstd::string::StringExecFns;
use crate::text::same_text;
use crate::{
    failures_view, modules_view, Failure, FailureView, ModuleView, Test, TestModule,
    TestResult, TestView,
};

verus! {

/// The mathematical value of a [`Node`].
pub enum NodeView {
    Element(ElementView),
    Text(Seq<char>),
    CData(Seq<char>),
}

/// The mathematical value of an [`Element`].
pub struct ElementView {
    pub name: Seq<char>,
    pub attributes: Seq<(Seq<char>, Seq<char>)>,
    pub children: Seq<NodeView>,
}

/// A child of an element.
#[derive(Debug, PartialEq)]
pub enum Node {
    /// A nested element.
    Element(Element),
    /// Text, which is escaped when it is written.
    Text(String),
    /// Character data, which is written as it stands.
    CData(String),
}

/// An element of the report: its name, its attributes in the order in which
/// they are written, and its children in order. Two attributes may have the
/// same name; both are kept.
#[derive(Debug, PartialEq)]
pub struct Element {
    pub name: String,
    pub attributes: Vec<(String, String)>,
    pub children: Vec<Node>,
}

/// The values of a sequence of attributes, in order.
pub open spec fn attributes_view(attributes: Seq<(String, String)>) -> Seq<
    (Seq<char>, Seq<char>),
> {
    Seq::new(attributes.len(), |i: int| (attributes[i].0@, attributes[i].1@))
}

/// The values of a sequence of nodes, in order.
pub open spec fn nodes_view(nodes: Seq<Node>) -> Seq<NodeView> {
    Seq::new(nodes.len(), |i: int| node_view(nodes[i]))
}

/// The value of an element.
pub open spec fn element_view(element: Element) -> ElementView
    decreases element,
{
    ElementView {
        name: element.name@,
        attributes: attributes_view(element.attributes@),
        children: Seq::new(
            element.children.len() as nat,
            |i: int|
                if 0 <= i < element.children.len() {
                    node_view(element.children[i])
                } else {
                    NodeView::Text(Seq::empty())
                },
        ),
    }
}

/// The value of a node.
pub open spec fn node_view(node: Node) -> NodeView
    decreases node,
{
    match node {
        Node::Element(element) => NodeView::Element(element_view(element)),
        Node::Text(text) => NodeView::Text(text@),
        Node::CData(data) => NodeView::CData(data@),
    }
}

impl View for Element {
    type V = ElementView;

    open spec fn view(&self) -> ElementView {
        element_view(*self)
    }
}

impl View for Node {
    type V = NodeView;

    open spec fn view(&self) -> NodeView {
        node_view(*self)
    }
}

/// The children of an element's value are the values of its children.
pub proof fn lemma_element_view(element: Element)
    ensures
        element@.name == element.name@,
        element@.attributes == attributes_view(element.attributes@),
        element@.children == nodes_view(element.children@),
{
    assert(element@.children =~= nodes_view(element.children@));
}

/// The character that writes a digit.
pub open spec fn digit_char(digit: nat) -> char {
    if digit == 0 {
        '0'
    } else if digit == 1 {
        '1'
    } else if digit == 2 {
        '2'
    } else if digit == 3 {
        '3'
    } else if digit == 4 {
        '4'
    } else if digit == 5 {
        '5'
    } else if digit == 6 {
        '6'
    } else if digit == 7 {
        '7'
    } else if digit == 8 {
        '8'
    } else {
        '9'
    }
}

/// A number written in decimal digits, without leading zeros.
pub open spec fn decimal_text(n: nat) -> Seq<char>
    decreases n,
{
    if n < 10 {
        seq![digit_char(n)]
    } else {
        decimal_text(n / 10).push(digit_char(n % 10))
    }
}

/// An element without attributes and without children.
pub open spec fn empty_element(name: Seq<char>) -> ElementView {
    ElementView { name, attributes: Seq::empty(), children: Seq::empty() }
}

/// An element without attributes that holds one child.
pub open spec fn wrapping_element(name: Seq<char>, child: NodeView) -> ElementView {
    ElementView { name, attributes: Seq::empty(), children: seq![child] }
}

/// What one failure record adds to the element of its test: a `failure`
/// element that holds the message as character data and, where the test wrote
/// something, a `system-out` element that holds it as text.
pub open spec fn failure_nodes(failure: FailureView) -> Seq<NodeView> {
    let message = NodeView::Element(wrapping_element("failure"@, NodeView::CData(failure.info)));
    if failure.stdout.len() > 0 {
        seq![
            message,
            NodeView::Element(wrapping_element("system-out"@, NodeView::Text(failure.stdout))),
        ]
    } else {
        seq![message]
    }
}

/// What the failure records named `name` add to the element of that test, one
/// record after the other in the order of the records.
pub open spec fn matching_failure_nodes(failures: Seq<FailureView>, name: Seq<char>) -> Seq<
    NodeView,
>
    decreases failures.len(),
{
    if failures.len() == 0 {
        Seq::empty()
    } else if failures.last().name == name {
        matching_failure_nodes(failures.drop_last(), name) + failure_nodes(failures.last())
    } else {
        matching_failure_nodes(failures.drop_last(), name)
    }
}

/// The `testcase` element of a test. A test that passed has no children, one
/// that was ignored has a `skipped` marker, and one that failed has what the
/// failure records of its name add.
pub open spec fn testcase_element(test: TestView, failures: Seq<FailureView>) -> ElementView {
    ElementView {
        name: "testcase"@,
        attributes: seq![("name"@, test.name)],
        children: match test.result {
            TestResult::Passed => Seq::empty(),
            TestResult::Ignored => seq![NodeView::Element(empty_element("skipped"@))],
            TestResult::Failed => matching_failure_nodes(failures, test.name),
        },
    }
}

/// The `testsuite` element of a module: the counts of failed and of ignored
/// tests as the summary line gave them, the number of tests that were listed,
/// and one `testcase` element for each of these tests, in order.
pub open spec fn testsuite_element(module: ModuleView) -> ElementView {
    ElementView {
        name: "testsuite"@,
        attributes: seq![
            ("failures"@, decimal_text(module.failed as nat)),
            ("skip"@, decimal_text(module.ignored as nat)),
            ("tests"@, decimal_text(module.tests.len())),
        ],
        children: Seq::new(
            module.tests.len(),
            |i: int| NodeView::Element(testcase_element(module.tests[i], module.failures)),
        ),
    }
}

/// The report of a sequence of modules: a `testsuites` element that holds one
/// `testsuite` element for each module, in order.
pub open spec fn report(modules: Seq<ModuleView>) -> ElementView {
    ElementView {
        name: "testsuites"@,
        attributes: Seq::empty(),
        children: Seq::new(
            modules.len(),
            |i: int| NodeView::Element(testsuite_element(modules[i])),
        ),
    }
}

/// The string of one digit.
fn digit(d: u64) -> (r: &'static str)
    requires
        d < 10,
    ensures
        r@ == seq![digit_char(d as nat)],
{
    proof {
        reveal_strlit("0");
        reveal_strlit("1");
        reveal_strlit("2");
        reveal_strlit("3");
        reveal_strlit("4");
        reveal_strlit("5");
        reveal_strlit("6");
        reveal_strlit("7");
        reveal_strlit("8");
        reveal_strlit("9");
    }
    let r = if d == 0 {
        "0"
    } else if d == 1 {
        "1"
    } else if d == 2 {
        "2"
    } else if d == 3 {
        "3"
    } else if d == 4 {
        "4"
    } else if d == 5 {
        "5"
    } else if d == 6 {
        "6"
    } else if d == 7 {
        "7"
    } else if d == 8 {
        "8"
    } else {
        "9"
    };
    assert(r@ =~= seq![digit_char(d as nat)]);
    r
}

/// Writes a number in decimal digits.
pub fn decimal(n: u64) -> (r: String)
    ensures
        r@ == decimal_text(n as nat),
    decreases n,
{
    if n < 10 {
        String::from_str(digit(n))
    } else {
        let mut text = decimal(n / 10);
        let last = digit(n % 10);
        text.append(last);
        proof {
            assert(decimal_text((n / 10) as nat) + last@ =~= decimal_text((n / 10) as nat).push(
                digit_char((n % 10) as nat),
            ));
        }
        text
    }
}

/// Makes an element of the given parts.
fn element(name: &str, attributes: Vec<(String, String)>, children: Vec<Node>) -> (r: Element)
    ensures
        r@ == (ElementView {
            name: name@,
            attributes: attributes_view(attributes@),
            children: nodes_view(children@),
        }),
{
    let r = Element { name: String::from_str(name), attributes, children };
    proof {
        lemma_element_view(r);
    }
    r
}

/// What one failure record adds to the element of its test.
fn add_failure_nodes(failure: &Failure<'_>, children: &mut Vec<Node>)
    ensures
        nodes_view(final(children)@) == nodes_view(old(children)@) + failure_nodes(failure@),
{
    let mut inner: Vec<Node> = Vec::new();
    inner.push(Node::CData(String::from_str(failure.info)));
    proof {
        assert(nodes_view(inner@) =~= seq![NodeView::CData(failure.info@)]);
    }
    let message = element("failure", Vec::new(), inner);
    proof {
        assert(attributes_view(Seq::<(String, String)>::empty()) =~= Seq::empty());
        assert(message@ == wrapping_element("failure"@, NodeView::CData(failure.info@)));
    }
    let ghost before = children@;
    children.push(Node::Element(message));
    if !failure.stdout.is_empty() {
        let mut inner: Vec<Node> = Vec::new();
        inner.push(Node::Text(String::from_str(failure.stdout)));
        proof {
            assert(nodes_view(inner@) =~= seq![NodeView::Text(failure.stdout@)]);
        }
        let output = element("system-out", Vec::new(), inner);
        proof {
            assert(output@ == wrapping_element("system-out"@, NodeView::Text(failure.stdout@)));
        }
        children.push(Node::Element(output));
        proof {
            assert(nodes_view(children@) =~= nodes_view(before) + failure_nodes(failure@));
        }
    } else {
        proof {
            assert(nodes_view(children@) =~= nodes_view(before) + failure_nodes(failure@));
        }
    }
}

/// Makes the `testcase` element of a test of a module with the given failure
/// records.
fn testcase(test: &Test<'_>, failures: &Vec<Failure<'_>>) -> (r: Element)
    ensures
        r@ == testcase_element(test@, failures_view(failures@)),
{
    let mut attributes: Vec<(String, String)> = Vec::new();
    attributes.push((String::from_str("name"), String::from_str(test.name)));
    let mut children: Vec<Node> = Vec::new();
    proof {
        assert(attributes_view(attributes@) =~= seq![("name"@, test.name@)]);
        assert(nodes_view(children@) =~= Seq::<NodeView>::empty());
    }
    match test.result {
        TestResult::Passed => {},
        TestResult::Ignored => {
            let skipped = element("skipped", Vec::new(), Vec::new());
            proof {
                assert(attributes_view(Seq::<(String, String)>::empty()) =~= Seq::empty());
                assert(nodes_view(Seq::<Node>::empty()) =~= Seq::empty());
                assert(skipped@ == empty_element("skipped"@));
            }
            children.push(Node::Element(skipped));
            proof {
                assert(nodes_view(children@) =~= seq![
                    NodeView::Element(empty_element("skipped"@)),
                ]);
            }
        },
        TestResult::Failed => {
            let mut i: usize = 0;
            while i < failures.len()
                invariant
                    i <= failures@.len(),
                    nodes_view(children@) == matching_failure_nodes(
                        failures_view(failures@).take(i as int),
                        test.name@,
                    ),
                decreases failures@.len() - i,
            {
                let failure = &failures[i];
                proof {
                    let all = failures_view(failures@);
                    assert(all.take(i + 1).drop_last() =~= all.take(i as int));
                    assert(all.take(i + 1).last() == failure@);
                    assert(nodes_view(children@) + Seq::<NodeView>::empty() =~= nodes_view(
                        children@,
                    ));
                }
                if same_text(failure.name, test.name) {
                    add_failure_nodes(failure, &mut children);
                }
                i += 1;
            }
            proof {
                let all = failures_view(failures@);
                assert(all.take(i as int) =~= all);
            }
        },
    }
    element("testcase", attributes, children)
}

/// Makes the `testsuite` element of a module.
fn testsuite(module: &TestModule<'_>) -> (r: Element)
    ensures
        r@ == testsuite_element(module@),
{
    let mut attributes: Vec<(String, String)> = Vec::new();
    attributes.push((String::from_str("failures"), decimal(module.failed as u64)));
    attributes.push((String::from_str("skip"), decimal(module.ignored as u64)));
    attributes.push((String::from_str("tests"), decimal(module.tests.len() as u64)));
    proof {
        assert(attributes_view(attributes@) =~= testsuite_element(module@).attributes);
    }
    let mut children: Vec<Node> = Vec::new();
    let mut i: usize = 0;
    while i < module.tests.len()
        invariant
            i <= module.tests@.len(),
            children@.len() == i,
            nodes_view(children@) == testsuite_element(module@).children.take(i as int),
        decreases module.tests@.len() - i,
    {
        let case = testcase(&module.tests[i], &module.failures);
        let ghost before = children@;
        children.push(Node::Element(case));
        proof {
            let all = testsuite_element(module@).children;
            assert(module@.tests[i as int] == module.tests@[i as int]@);
            assert(all[i as int] == NodeView::Element(case@));
            assert forall|j: int| 0 <= j < i implies nodes_view(children@)[j] == all[j] by {
                assert(children@[j] == before[j]);
                assert(nodes_view(before)[j] == all.take(i as int)[j]);
            }
            assert(nodes_view(children@) =~= all.take(i + 1));
        }
        i += 1;
    }
    proof {
        let all = testsuite_element(module@).children;
        assert(all.take(i as int) =~= all);
    }
    element("testsuite", attributes, children)
}

/// Builds the report of the test modules.
///
/// The report says what the modules say and checks nothing: counts that do
/// not add up are written as they are, and a failure record whose name is
/// the name of no failed test of its module appears nowhere.
pub fn format(data: Vec<TestModule<'_>>) -> (output: Element)
    ensures
        output@ == report(modules_view(data@)),
{
    let mut children: Vec<Node> = Vec::new();
    let mut i: usize = 0;
    while i < data.len()
        invariant
            i <= data@.len(),
            children@.len() == i,
            nodes_view(children@) == report(modules_view(data@)).children.take(i as int),
        decreases data@.len() - i,
    {
        let suite = testsuite(&data[i]);
        let ghost before = children@;
        children.push(Node::Element(suite));
        proof {
            let all = report(modules_view(data@)).children;
            assert(modules_view(data@)[i as int] == data@[i as int]@);
            assert(all[i as int] == NodeView::Element(suite@));
            assert forall|j: int| 0 <= j < i implies nodes_view(children@)[j] == all[j] by {
                assert(children@[j] == before[j]);
                assert(nodes_view(before)[j] == all.take(i as int)[j]);
            }
            assert(nodes_view(children@) =~= all.take(i + 1));
        }
        i += 1;
    }
    proof {
        let all = report(modules_view(data@)).children;
        assert(all.take(i as int) =~= all);
        assert(attributes_view(Seq::<(String, String)>::empty()) =~= Seq::empty());
    }
    element("testsuites", Vec::new(), children)
}

/// What is written for one character of a text or of an attribute's value:
/// the five characters that XML reserves are written as references.
pub open spec fn escaped_char(c: char) -> Seq<char> {
    if c == '&' {
        "&amp;"@
    } else if c == '<' {
        "&lt;"@
    } else if c == '>' {
        "&gt;"@
    } else if c == '\'' {
        "&apos;"@
    } else if c == '"' {
        "&quot;"@
    } else {
        seq![c]
    }
}

/// A text with each of its characters escaped.
pub open spec fn escaped(text: Seq<char>) -> Seq<char>
    decreases text.len(),
{
    if text.len() == 0 {
        Seq::empty()
    } else {
        escaped_char(text[0]) + escaped(text.drop_first())
    }
}

/// The text of one attribute: a space, the name, and the escaped value
/// between single quotes.
pub open spec fn attribute_text(attribute: (Seq<char>, Seq<char>)) -> Seq<char> {
    " "@ + attribute.0 + "='"@ + escaped(attribute.1) + "'"@
}

/// The text of the attributes of an element, in their order.
pub open spec fn attributes_text(attributes: Seq<(Seq<char>, Seq<char>)>) -> Seq<char>
    decreases attributes.len(),
{
    if attributes.len() == 0 {
        Seq::empty()
    } else {
        attributes_text(attributes.drop_last()) + attribute_text(attributes.last())
    }
}

/// The text of a node: that of an element, an escaped text, or character
/// data as it stands between its two brackets.
pub open spec fn node_text(node: NodeView) -> Seq<char>
    decreases node,
{
    match node {
        NodeView::Element(element) => element_text(element),
        NodeView::Text(text) => escaped(text),
        NodeView::CData(data) => "<![CDATA["@ + data + "]]>"@,
    }
}

/// The text of the first `count` children of an element, one after the other.
pub open spec fn children_text(element: ElementView, count: nat) -> Seq<char>
    decreases element, count,
{
    if count == 0 || count > element.children.len() {
        Seq::empty()
    } else {
        children_text(element, (count - 1) as nat) + node_text(element.children[count - 1])
    }
}

/// The text of an element. One without children is a single tag that closes
/// itself; another is its children between a start tag and an end tag.
pub open spec fn element_text(element: ElementView) -> Seq<char>
    decreases element, element.children.len() + 1,
{
    if element.children.len() == 0 {
        "<"@ + element.name + attributes_text(element.attributes) + "/>"@
    } else {
        "<"@ + element.name + attributes_text(element.attributes) + ">"@ + children_text(
            element,
            element.children.len(),
        ) + "</"@ + element.name + ">"@
    }
}

/// The document of a report: the XML declaration on a line of its own, and
/// the text of the report.
pub open spec fn document_text(root: ElementView) -> Seq<char> {
    "<?xml version=\"1.0\" encoding=\"UTF-8\"?>\n"@ + element_text(root)
}

/// Escapes a text for an attribute's value or for the content of an element.
///
/// Calls `xml::escape`, which goes through the characters of its argument and
/// writes `&amp;` for `&`, `&lt;` for `<`, `&gt;` for `>`, `&apos;` for `'`,
/// `&quot;` for `"`, and every other character as it is.
#[verifier::external_body]
fn escape(input: &str) -> (r: String)
    ensures
        r@ == escaped(input@),
{
    xml::escape(input)
}

/// Writes the attributes of an element behind `out`.
fn write_attributes(attributes: &Vec<(String, String)>, out: &mut String)
    ensures
        final(out)@ == old(out)@ + attributes_text(attributes_view(attributes@)),
{
    let ghost all = attributes_view(attributes@);
    let mut i: usize = 0;
    proof {
        assert(all.take(0) =~= Seq::empty());
        assert(out@ + attributes_text(all.take(0)) =~= out@);
    }
    while i < attributes.len()
        invariant
            i <= attributes@.len(),
            all == attributes_view(attributes@),
            out@ == old(out)@ + attributes_text(all.take(i as int)),
        decreases attributes@.len() - i,
    {
        let ghost before = out@;
        let value = escape(attributes[i].1.as_str());
        out.append(" ");
        out.append(attributes[i].0.as_str());
        out.append("='");
        out.append(value.as_str());
        out.append("'");
        proof {
            assert(all.take(i + 1).drop_last() =~= all.take(i as int));
            assert(all.take(i + 1).last() == all[i as int]);
            assert(out@ =~= before + attribute_text(all[i as int]));
            assert(out@ =~= old(out)@ + attributes_text(all.take(i + 1)));
        }
        i += 1;
    }
    proof {
        assert(all.take(i as int) =~= all);
    }
}

/// Writes a node behind `out`.
fn write_node(node: &Node, out: &mut String)
    ensures
        final(out)@ == old(out)@ + node_text(node@),
    decreases node,
{
    match node {
        Node::Element(element) => write_element(element, out),
        Node::Text(text) => {
            let written = escape(text.as_str());
            out.append(written.as_str());
        },
        Node::CData(data) => {
            out.append("<![CDATA[");
            out.append(data.as_str());
            out.append("]]>");
            proof {
                assert(out@ =~= old(out)@ + ("<![CDATA["@ + data@ + "]]>"@));
            }
        },
    }
}

/// Writes an element behind `out`.
fn write_element(element: &Element, out: &mut String)
    ensures
        final(out)@ == old(out)@ + element_text(element@),
    decreases element,
{
    proof {
        lemma_element_view(*element);
    }
    out.append("<");
    out.append(element.name.as_str());
    write_attributes(&element.attributes, out);
    if element.children.len() == 0 {
        out.append("/>");
        proof {
            assert(out@ =~= old(out)@ + element_text(element@));
        }
    } else {
        out.append(">");
        let ghost start = out@;
        let mut i: usize = 0;
        proof {
            assert(out@ + children_text(element@, 0) =~= out@);
        }
        while i < element.children.len()
            invariant
                i <= element.children@.len(),
                element@.children == nodes_view(element.children@),
                out@ == start + children_text(element@, i as nat),
            decreases element.children@.len() - i,
        {
            let ghost before = out@;
            write_node(&element.children[i], out);
            proof {
                assert(element@.children[i as int] == element.children@[i as int]@);
                assert(out@ =~= start + children_text(element@, (i + 1) as nat));
            }
            i += 1;
        }
        out.append("</");
        out.append(element.name.as_str());
        out.append(">");
        proof {
            assert(out@ =~= old(out)@ + element_text(element@));
        }
    }
}

/// Writes the report down as one XML document.
///
/// The document starts with the XML declaration on a line of its own. Texts
/// and the values of attributes are escaped; character data is written as it
/// stands, also where it holds the sequence that ends character data.
pub fn serialize(report: &Element) -> (document: String)
    ensures
        document@ == document_text(report@),
{
    let mut document = String::from_str("<?xml version=\"1.0\" encoding=\"UTF-8\"?>\n");
    write_element(report, &mut document);
    document
}

} // verus!
