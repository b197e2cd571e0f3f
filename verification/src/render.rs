//! Rendering a document tree to HTML text.

use crate::dom::{
    attribute_number, lemma_nodes_v, nodes_v, opt_attributes_v, Attribute, AttributeV, AttributeValue,
    AttributeValueV, Child, ChildV, Node, NodeV,
};
use crate::text::{push_char, push_text};
use vstd::prelude::*;

verus! {

#[verifier::external_type_specification]
#[verifier::external_body]
pub struct ExFmtError(std::fmt::Error);

// ----- the HTML of a tree, as spec functions -----

/// The decimal digit `d`.
pub open spec fn digit_char(d: nat) -> char {
    seq!['0', '1', '2', '3', '4', '5', '6', '7', '8', '9'][d as int]
}

/// The decimal digits of `n`, without leading zeros.
pub open spec fn decimal(n: nat) -> Seq<char>
    decreases n,
{
    if n < 10 {
        seq![digit_char(n)]
    } else {
        decimal(n / 10).push(digit_char(n % 10))
    }
}

/// The decimal text of `n`, with a `-` when it is negative.
pub open spec fn signed_decimal(n: int) -> Seq<char> {
    if n < 0 {
        seq!['-'] + decimal((-n) as nat)
    } else {
        decimal(n as nat)
    }
}

/// ` key="value"`.
pub open spec fn key_value_html(key: Seq<char>, value: Seq<char>) -> Seq<char> {
    seq![' '] + key + seq!['=', '"'] + value + seq!['"']
}

/// An attribute as it appears in a tag: nothing when it is implicitly false,
/// its key alone when implicitly true, else its key and quoted value.
pub open spec fn attribute_html(a: AttributeV) -> Seq<char> {
    match a.value {
        AttributeValueV::ImplicitFalse => Seq::empty(),
        AttributeValueV::ImplicitTrue => seq![' '] + a.key,
        AttributeValueV::Text(t) => key_value_html(a.key, t),
        AttributeValueV::UnsignedInteger(n) => key_value_html(a.key, decimal(n as nat)),
        AttributeValueV::SignedInteger(n) => key_value_html(a.key, signed_decimal(n as int)),
        AttributeValueV::Float(t) => key_value_html(a.key, t),
    }
}

/// The attributes of a tag, one after the other.
pub open spec fn attributes_html(attrs: Seq<AttributeV>) -> Seq<char>
    decreases attrs.len(),
{
    if attrs.len() == 0 {
        Seq::empty()
    } else {
        attributes_html(attrs.drop_last()) + attribute_html(attrs.last())
    }
}

/// Optional attributes of a tag.
pub open spec fn opt_attributes_html(attrs: Option<Seq<AttributeV>>) -> Seq<char> {
    match attrs {
        Some(a) => attributes_html(a),
        None => Seq::empty(),
    }
}

/// The attributes of a doctype: each key after a space.
pub open spec fn doctype_attributes_html(attrs: Seq<AttributeV>) -> Seq<char>
    decreases attrs.len(),
{
    if attrs.len() == 0 {
        Seq::empty()
    } else {
        doctype_attributes_html(attrs.drop_last()) + seq![' '] + attrs.last().key
    }
}

/// `<name attributes`.
pub open spec fn tag_start(name: Seq<char>, attrs: Option<Seq<AttributeV>>) -> Seq<char> {
    seq!['<'] + name + opt_attributes_html(attrs)
}

/// `</name>`.
pub open spec fn tag_end(name: Seq<char>) -> Seq<char> {
    seq!['<', '/'] + name + seq!['>']
}

/// The HTML of a node.
pub open spec fn node_html(n: NodeV) -> Seq<char>
    decreases n,
{
    match n {
        NodeV::Empty => Seq::empty(),
        NodeV::Doctype { name, attributes } => seq!['<', '!'] + name + match attributes {
            Some(a) => doctype_attributes_html(a),
            None => Seq::empty(),
        } + seq!['>'],
        NodeV::Comment { children } => match children {
            Some(cs) => seq!['<', '!', '-', '-', ' '] + nodes_html(cs) + seq![' ', '-', '-', '>'],
            None => seq!['<', '!', '-', '-', ' ', '-', '-', '>'],
        },
        NodeV::Fragment { children } => nodes_html(children),
        NodeV::SelfClosing { name, attributes } => tag_start(name, attributes) + seq!['/', '>'],
        NodeV::OpenEmpty { name, attributes } => tag_start(name, attributes) + seq!['>'] + tag_end(
            name,
        ),
        NodeV::OpenWithChildren { name, attributes, child } => tag_start(name, attributes) + seq![
            '>',
        ] + match child {
            ChildV::Nothing => Seq::empty(),
            ChildV::Nodes { nodes } => nodes_html(nodes),
            ChildV::Text { contents } => contents,
        } + tag_end(name),
        NodeV::Text { contents } => contents,
    }
}

/// The HTML of nodes, one after the other.
pub open spec fn nodes_html(ns: Seq<NodeV>) -> Seq<char>
    decreases ns,
{
    if ns.len() == 0 {
        Seq::empty()
    } else {
        nodes_html(ns.drop_last()) + node_html(ns.last())
    }
}

// ----- rendering -----

/// Appends the decimal digits of `n`.
fn push_decimal(out: &mut String, n: u64)
    ensures
        final(out)@ == old(out)@ + decimal(n as nat),
    decreases n,
{
    if n >= 10 {
        push_decimal(out, n / 10);
    }
    let digits = ['0', '1', '2', '3', '4', '5', '6', '7', '8', '9'];
    assert(digits@ =~= seq!['0', '1', '2', '3', '4', '5', '6', '7', '8', '9']);
    let d = (n % 10) as usize;
    push_char(out, digits[d]);
    assert(out@ =~= old(out)@ + decimal(n as nat));
}

/// Appends the decimal text of `n`.
fn push_signed_decimal(out: &mut String, n: i64)
    ensures
        final(out)@ == old(out)@ + signed_decimal(n as int),
{
    if n < 0 {
        push_char(out, '-');
        let magnitude: u64 = if n == i64::MIN {
            9223372036854775808u64
        } else {
            (-n) as u64
        };
        push_decimal(out, magnitude);
        assert(out@ =~= old(out)@ + signed_decimal(n as int));
    } else {
        push_decimal(out, n as u64);
    }
}

/// Renders nodes into a text buffer.
#[derive(Clone, Debug)]
pub struct Render {
    buffer: String,
}

impl View for Render {
    type V = Seq<char>;

    /// The text rendered so far.
    closed spec fn view(&self) -> Seq<char> {
        self.buffer@
    }
}

impl Render {
    /// A renderer that has rendered nothing yet.
    pub fn new() -> (r: Self)
        ensures
            r@ == Seq::<char>::empty(),
    {
        Self { buffer: String::new() }
    }

    /// Appends the HTML of `node`.
    pub fn render(&mut self, node: Node) -> (r: Result<(), std::fmt::Error>)
        ensures
            r is Ok,
            final(self)@ == old(self)@ + node_html(node.nv()),
    {
        self.render_node(&node);
        Ok(())
    }

    /// The text rendered so far.
    pub fn into_string(self) -> (r: String)
        ensures
            r@ == self@,
    {
        self.buffer
    }

    fn render_node(&mut self, node: &Node)
        ensures
            final(self)@ == old(self)@ + node_html(node.nv()),
        decreases node,
    {
        let ghost start = self@;
        match node {
            Node::Empty => {
                assert(self@ =~= start + node_html(node.nv()));
            },
            Node::Doctype { name, attributes } => {
                push_char(&mut self.buffer, '<');
                push_char(&mut self.buffer, '!');
                push_text(&mut self.buffer, name.as_str());
                self.render_doctype_attributes(attributes);
                push_char(&mut self.buffer, '>');
                assert(self@ =~= start + node_html(node.nv()));
            },
            Node::Comment { children } => match children {
                Some(children) => {
                    push_text_chars(&mut self.buffer, &['<', '!', '-', '-', ' ']);
                    self.render_nodes(children);
                    push_text_chars(&mut self.buffer, &[' ', '-', '-', '>']);
                    assert(self@ =~= start + node_html(node.nv()));
                },
                None => {
                    push_text_chars(&mut self.buffer, &['<', '!', '-', '-', ' ', '-', '-', '>']);
                    assert(self@ =~= start + node_html(node.nv()));
                },
            },
            Node::Fragment { children } => {
                self.render_nodes(children);
            },
            Node::SelfClosing { name, attributes } => {
                self.render_tag_start(name, attributes);
                push_char(&mut self.buffer, '/');
                push_char(&mut self.buffer, '>');
                assert(self@ =~= start + node_html(node.nv()));
            },
            Node::OpenEmpty { name, attributes } => {
                self.render_tag_start(name, attributes);
                push_char(&mut self.buffer, '>');
                self.render_tag_end(name);
                assert(self@ =~= start + node_html(node.nv()));
            },
            Node::OpenWithChildren { name, attributes, child } => {
                self.render_tag_start(name, attributes);
                push_char(&mut self.buffer, '>');
                self.render_child(child);
                self.render_tag_end(name);
                assert(self@ =~= start + node_html(node.nv()));
            },
            Node::Text { contents } => {
                push_text(&mut self.buffer, contents.as_str());
            },
        }
    }

    fn render_tag_start(&mut self, name: &String, attributes: &Option<Vec<Attribute>>)
        ensures
            final(self)@ == old(self)@ + tag_start(name@, opt_attributes_v(*attributes)),
    {
        push_char(&mut self.buffer, '<');
        push_text(&mut self.buffer, name.as_str());
        self.render_maybe_attributes(attributes);
        assert(self@ =~= old(self)@ + tag_start(name@, opt_attributes_v(*attributes)));
    }

    fn render_tag_end(&mut self, name: &String)
        ensures
            final(self)@ == old(self)@ + tag_end(name@),
    {
        push_char(&mut self.buffer, '<');
        push_char(&mut self.buffer, '/');
        push_text(&mut self.buffer, name.as_str());
        push_char(&mut self.buffer, '>');
        assert(self@ =~= old(self)@ + tag_end(name@));
    }

    fn render_doctype_attributes(&mut self, maybe_attributes: &Option<Vec<Attribute>>)
        ensures
            final(self)@ == old(self)@ + match opt_attributes_v(*maybe_attributes) {
                Some(a) => doctype_attributes_html(a),
                None => Seq::empty(),
            },
    {
        match maybe_attributes {
            Some(attributes) => {
                let ghost start = self@;
                let mut i: usize = 0;
                while i < attributes.len()
                    invariant
                        i <= attributes@.len(),
                        self@ == start + doctype_attributes_html(
                            crate::dom::attributes_v(attributes@.take(i as int)),
                        ),
                    decreases attributes.len() - i,
                {
                    self.render_doctype_attribute(&attributes[i]);
                    proof {
                        let a = crate::dom::attributes_v(attributes@.take(i + 1));
                        assert(a.drop_last() =~= crate::dom::attributes_v(attributes@.take(i as int)));
                        assert(self@ =~= start + doctype_attributes_html(a));
                    }
                    i = i + 1;
                }
                assert(attributes@.take(attributes@.len() as int) =~= attributes@);
            },
            None => {
                assert(self@ =~= old(self)@ + Seq::<char>::empty());
            },
        }
    }

    fn render_doctype_attribute(&mut self, attribute: &Attribute)
        ensures
            final(self)@ == old(self)@ + seq![' '] + attribute.key@,
    {
        push_char(&mut self.buffer, ' ');
        push_text(&mut self.buffer, attribute.key.as_str());
    }

    fn render_maybe_attributes(&mut self, maybe_attributes: &Option<Vec<Attribute>>)
        ensures
            final(self)@ == old(self)@ + opt_attributes_html(opt_attributes_v(*maybe_attributes)),
    {
        match maybe_attributes {
            Some(attributes) => self.render_attributes(attributes),
            None => {
                assert(self@ =~= old(self)@ + Seq::<char>::empty());
            },
        }
    }

    fn render_attributes(&mut self, attributes: &Vec<Attribute>)
        ensures
            final(self)@ == old(self)@ + attributes_html(crate::dom::attributes_v(attributes@)),
    {
        let ghost start = self@;
        let mut i: usize = 0;
        while i < attributes.len()
            invariant
                i <= attributes@.len(),
                self@ == start + attributes_html(crate::dom::attributes_v(attributes@.take(i as int))),
            decreases attributes.len() - i,
        {
            self.render_attribute(&attributes[i]);
            proof {
                let a = crate::dom::attributes_v(attributes@.take(i + 1));
                assert(a.drop_last() =~= crate::dom::attributes_v(attributes@.take(i as int)));
                assert(self@ =~= start + attributes_html(a));
            }
            i = i + 1;
        }
        assert(attributes@.take(attributes@.len() as int) =~= attributes@);
    }

    fn render_attribute(&mut self, attribute: &Attribute)
        ensures
            final(self)@ == old(self)@ + attribute_html(attribute@),
    {
        let ghost start = self@;
        match &attribute.value {
            AttributeValue::ImplicitFalse => {
                assert(self@ =~= start + attribute_html(attribute@));
            },
            AttributeValue::ImplicitTrue => {
                push_char(&mut self.buffer, ' ');
                push_text(&mut self.buffer, attribute.key.as_str());
            },
            AttributeValue::Text(text) => {
                self.render_key_start(&attribute.key);
                push_text(&mut self.buffer, text.as_str());
                push_char(&mut self.buffer, '"');
                assert(self@ =~= start + attribute_html(attribute@));
            },
            AttributeValue::UnsignedInteger(n) => {
                self.render_key_start(&attribute.key);
                push_decimal(&mut self.buffer, *n);
                push_char(&mut self.buffer, '"');
                assert(self@ =~= start + attribute_html(attribute@));
            },
            AttributeValue::SignedInteger(n) => {
                self.render_key_start(&attribute.key);
                push_signed_decimal(&mut self.buffer, *n);
                push_char(&mut self.buffer, '"');
                assert(self@ =~= start + attribute_html(attribute@));
            },
            AttributeValue::Float(text) => {
                self.render_key_start(&attribute.key);
                push_text(&mut self.buffer, text.as_str());
                push_char(&mut self.buffer, '"');
                assert(self@ =~= start + attribute_html(attribute@));
            },
        }
    }

    /// Appends ` key="`.
    fn render_key_start(&mut self, key: &String)
        ensures
            final(self)@ == old(self)@ + seq![' '] + key@ + seq!['=', '"'],
    {
        push_char(&mut self.buffer, ' ');
        push_text(&mut self.buffer, key.as_str());
        push_char(&mut self.buffer, '=');
        push_char(&mut self.buffer, '"');
    }

    fn render_nodes(&mut self, nodes: &Vec<Node>)
        ensures
            final(self)@ == old(self)@ + nodes_html(nodes_v(nodes@)),
        decreases nodes,
    {
        let ghost start = self@;
        let mut i: usize = 0;
        while i < nodes.len()
            invariant
                i <= nodes@.len(),
                self@ == start + nodes_html(nodes_v(nodes@.take(i as int))),
            decreases nodes.len() - i,
        {
            self.render_node(&nodes[i]);
            proof {
                let ns = nodes@.take(i + 1);
                assert(ns.drop_last() =~= nodes@.take(i as int));
                assert(nodes_v(ns) == nodes_v(nodes@.take(i as int)).push(nodes@[i as int].nv()));
                assert(nodes_v(ns).drop_last() =~= nodes_v(nodes@.take(i as int)));
                assert(self@ =~= start + nodes_html(nodes_v(ns)));
            }
            i = i + 1;
        }
        assert(nodes@.take(nodes@.len() as int) =~= nodes@);
    }

    fn render_maybe_nodes(&mut self, maybe_nodes: &Option<Vec<Node>>)
        ensures
            final(self)@ == old(self)@ + match *maybe_nodes {
                Some(nodes) => nodes_html(nodes_v(nodes@)),
                None => Seq::empty(),
            },
    {
        match maybe_nodes {
            Some(nodes) => self.render_nodes(nodes),
            None => {
                assert(self@ =~= old(self)@ + Seq::<char>::empty());
            },
        }
    }

    fn render_maybe_child(&mut self, maybe_child: &Option<Child>)
        ensures
            final(self)@ == old(self)@ + match *maybe_child {
                Some(child) => match child.cv() {
                    ChildV::Nothing => Seq::empty(),
                    ChildV::Nodes { nodes } => nodes_html(nodes),
                    ChildV::Text { contents } => contents,
                },
                None => Seq::empty(),
            },
    {
        match maybe_child {
            Some(child) => self.render_child(child),
            None => {
                assert(self@ =~= old(self)@ + Seq::<char>::empty());
            },
        }
    }

    fn render_child(&mut self, child: &Child)
        ensures
            final(self)@ == old(self)@ + match child.cv() {
                ChildV::Nothing => Seq::empty(),
                ChildV::Nodes { nodes } => nodes_html(nodes),
                ChildV::Text { contents } => contents,
            },
        decreases child,
    {
        match child {
            Child::Nothing => {
                assert(self@ =~= old(self)@ + Seq::<char>::empty());
            },
            Child::Nodes { nodes } => self.render_nodes(nodes),
            Child::Text { contents } => {
                push_text(&mut self.buffer, contents.as_str());
            },
        }
    }
}

impl From<Render> for String {
    fn from(render: Render) -> (r: String)
        ensures
            r@ == render@,
    {
        render.buffer
    }
}

impl vstd::std_specs::convert::FromSpecImpl<Render> for String {
    open spec fn obeys_from_spec() -> bool {
        true
    }

    closed spec fn from_spec(v: Render) -> String {
        v.buffer
    }
}

/// Appends the characters `cs`.
fn push_text_chars(out: &mut String, cs: &[char])
    ensures
        final(out)@ == old(out)@ + cs@,
{
    let mut i: usize = 0;
    while i < cs.len()
        invariant
            i <= cs@.len(),
            out@ == old(out)@ + cs@.take(i as int),
        decreases cs.len() - i,
    {
        push_char(out, cs[i]);
        assert(cs@.take(i + 1) =~= cs@.take(i as int).push(cs@[i as int]));
        i = i + 1;
    }
    assert(cs@.take(cs@.len() as int) =~= cs@);
}

/// Renders a node to HTML.
pub fn render(node: Node) -> (r: Result<String, std::fmt::Error>)
    ensures
        r matches Ok(s) && s@ == node_html(node.nv()),
{
    let mut render = Render::new();
    match render.render(node) {
        Ok(()) => {},
        Err(e) => return Err(e),
    }
    Ok(render.into_string())
}

} // verus!

verus! {

// ----- laws of rendering -----

/// The number that decimal digits stand for.
pub open spec fn digits_value(s: Seq<char>) -> int
    decreases s.len(),
{
    if s.len() == 0 {
        0
    } else {
        digits_value(s.drop_last()) * 10 + (s.last() as int - '0' as int)
    }
}

/// Numbers render as their decimal digits: the digits stand for the number,
/// and only zero starts with a `0`.
pub proof fn law_decimal_value(n: nat)
    ensures
        digits_value(decimal(n)) == n,
        decimal(n).len() > 0,
        decimal(n)[0] == '0' ==> n == 0,
    decreases n,
{
    let d = n % 10;
    assert(digit_char(d) as int - '0' as int == d) by {
        assert(0 <= d < 10);
        if d == 0 {
        } else if d == 1 {
        } else if d == 2 {
        } else if d == 3 {
        } else if d == 4 {
        } else if d == 5 {
        } else if d == 6 {
        } else if d == 7 {
        } else if d == 8 {
        } else {
        }
    }
    if n >= 10 {
        law_decimal_value(n / 10);
        let prev = decimal(n / 10);
        assert(decimal(n) == prev.push(digit_char(n % 10)));
        assert(decimal(n).drop_last() =~= prev);
        assert(decimal(n).last() == digit_char(n % 10));
        assert(digits_value(decimal(n)) == digits_value(prev) * 10 + (digit_char(n % 10) as int
            - '0' as int));
        assert((n / 10) * 10 + n % 10 == n) by (nonlinear_arith);
        assert(n / 10 >= 1) by (nonlinear_arith)
            requires
                n >= 10,
        ;
    } else {
        assert(n % 10 == n);
        assert(decimal(n) == seq![digit_char(n)]);
        assert(seq![digit_char(n)].drop_last() =~= Seq::<char>::empty());
        assert(digits_value(seq![digit_char(n)]) == digits_value(Seq::<char>::empty()) * 10 + (
        digit_char(n) as int - '0' as int));
    }
}

/// The number that a decimal text with an optional leading `-` stands for.
pub open spec fn signed_digits_value(s: Seq<char>) -> int {
    if s.len() > 0 && s[0] == '-' {
        -digits_value(s.drop_first())
    } else {
        digits_value(s)
    }
}

/// Signed numbers render as text that reads back as the same number: a `-`
/// exactly when the number is negative, then the digits of its magnitude.
pub proof fn law_signed_decimal_value(n: int)
    ensures
        signed_digits_value(signed_decimal(n)) == n,
        signed_decimal(n).len() > 0,
        signed_decimal(n)[0] == '-' <==> n < 0,
        n >= 0 ==> signed_decimal(n) == decimal(n as nat),
{
    if n < 0 {
        law_decimal_value((-n) as nat);
        assert((seq!['-'] + decimal((-n) as nat)).drop_first() =~= decimal((-n) as nat));
    } else {
        law_decimal_value(n as nat);
        let d = decimal(n as nat);
        assert(d[0] != '-') by {
            lemma_decimal_digits(n as nat);
        }
    }
}

/// Every character of the decimal text of a number is a digit.
pub proof fn lemma_decimal_digits(n: nat)
    ensures
        forall|i: int| 0 <= i < decimal(n).len() ==> '0' <= #[trigger] decimal(n)[i] <= '9',
    decreases n,
{
    lemma_digit_char(n % 10);
    if n >= 10 {
        lemma_decimal_digits(n / 10);
        assert(decimal(n) == decimal(n / 10).push(digit_char(n % 10)));
    } else {
        assert(n % 10 == n);
    }
}

/// The digit of `d` is the character `d` places after `0`.
pub proof fn lemma_digit_char(d: nat)
    requires
        d < 10,
    ensures
        digit_char(d) as int == '0' as int + d,
{
    if d == 0 {
    } else if d == 1 {
    } else if d == 2 {
    } else if d == 3 {
    } else if d == 4 {
    } else if d == 5 {
    } else if d == 6 {
    } else if d == 7 {
    } else if d == 8 {
    } else {
    }
}

/// A number attribute renders its key and, quoted, a text that reads back as
/// the number the value stands for.
pub proof fn law_number_attributes_read_back(a: AttributeV)
    requires
        attribute_number(a.value) is Some,
    ensures
        exists|t: Seq<char>|
            #![trigger key_value_html(a.key, t)]
            attribute_html(a) == key_value_html(a.key, t) && signed_digits_value(t)
                == attribute_number(a.value)->0,
{
    match a.value {
        AttributeValueV::UnsignedInteger(n) => {
            law_signed_decimal_value(n as int);
            assert(attribute_html(a) == key_value_html(a.key, signed_decimal(n as int)));
        },
        AttributeValueV::SignedInteger(n) => {
            law_signed_decimal_value(n as int);
            assert(attribute_html(a) == key_value_html(a.key, signed_decimal(n as int)));
        },
        _ => {},
    }
}

/// Rendering nodes one after the other gives their HTML one after the other.
pub proof fn law_nodes_html_concat(a: Seq<NodeV>, b: Seq<NodeV>)
    ensures
        nodes_html(a + b) == nodes_html(a) + nodes_html(b),
    decreases b.len(),
{
    if b.len() == 0 {
        assert(a + b =~= a);
        assert(nodes_html(a) + nodes_html(b) =~= nodes_html(a));
    } else {
        law_nodes_html_concat(a, b.drop_last());
        assert((a + b).drop_last() =~= a + b.drop_last());
        assert(nodes_html(a) + nodes_html(b) =~= nodes_html(a) + nodes_html(b.drop_last())
            + node_html(b.last()));
    }
}

/// A fragment renders as its children, one after the other, with nothing
/// around them; an empty node renders as nothing.
pub proof fn law_fragment_is_transparent(children: Seq<NodeV>)
    ensures
        node_html(NodeV::Fragment { children }) == nodes_html(children),
        node_html(NodeV::Empty) == Seq::<char>::empty(),
        nodes_html(seq![NodeV::Fragment { children }]) == nodes_html(children),
{
    let one = seq![NodeV::Fragment { children }];
    assert(one.drop_last() =~= Seq::<NodeV>::empty());
    assert(one.last() == NodeV::Fragment { children });
    assert(nodes_html(one) == nodes_html(one.drop_last()) + node_html(one.last()));
    assert(Seq::<char>::empty() + nodes_html(children) =~= nodes_html(children));
}

/// An open node whose child is nothing renders like an open node without a child.
pub proof fn law_empty_child_renders_as_no_child(
    name: Seq<char>,
    attributes: Option<Seq<AttributeV>>,
)
    ensures
        node_html(NodeV::OpenWithChildren { name, attributes, child: ChildV::Nothing }) == node_html(
            NodeV::OpenEmpty { name, attributes },
        ),
{
    assert(tag_start(name, attributes) + seq!['>'] + Seq::<char>::empty() + tag_end(name)
        =~= tag_start(name, attributes) + seq!['>'] + tag_end(name));
}

/// An attribute whose value is `None` is left out of its tag, and one whose
/// value is `Some(v)` renders as one whose value is `v`.
pub proof fn law_optional_attribute<N: crate::dom::ToAttributeValue>(key: Seq<char>, value: Option<N>)
    ensures
        value is None ==> attribute_html(
            AttributeV { key, value: crate::dom::ToAttributeValue::attribute_value_of(value) },
        ) == Seq::<char>::empty(),
        value matches Some(v) ==> attribute_html(
            AttributeV { key, value: crate::dom::ToAttributeValue::attribute_value_of(value) },
        ) == attribute_html(
            AttributeV { key, value: crate::dom::ToAttributeValue::attribute_value_of(v) },
        ),
{
}

/// A text attribute renders as its key, `=`, and the text in double quotes.
pub proof fn law_text_attribute(key: Seq<char>, s: &str, t: String)
    ensures
        attribute_html(
            AttributeV { key, value: crate::dom::ToAttributeValue::attribute_value_of(s) },
        ) == seq![' '] + key + seq!['=', '"'] + s@ + seq!['"'],
        attribute_html(
            AttributeV { key, value: crate::dom::ToAttributeValue::attribute_value_of(t) },
        ) == seq![' '] + key + seq!['=', '"'] + t@ + seq!['"'],
{
}

/// A `true` attribute renders as its key alone, a `false` one not at all.
pub proof fn law_boolean_attribute(key: Seq<char>, value: bool)
    ensures
        attribute_html(
            AttributeV { key, value: crate::dom::ToAttributeValue::attribute_value_of(value) },
        ) == if value {
            seq![' '] + key
        } else {
            Seq::<char>::empty()
        },
{
}

} // verus!

verus! {

/// The texts, one after the other.
pub open spec fn concat_texts(texts: Seq<&str>) -> Seq<char>
    decreases texts.len(),
{
    if texts.len() == 0 {
        Seq::empty()
    } else {
        concat_texts(texts.drop_last()) + texts.last()@
    }
}

/// Text nodes render as their texts, one after the other.
proof fn lemma_texts_html(texts: Seq<&str>)
    ensures
        nodes_html(crate::dom::texts_v(texts)) == concat_texts(texts),
    decreases texts.len(),
{
    if texts.len() > 0 {
        lemma_texts_html(texts.drop_last());
        let tv = crate::dom::texts_v(texts);
        assert(tv.drop_last() =~= crate::dom::texts_v(texts.drop_last()));
        assert(tv.last() == NodeV::Text { contents: texts.last()@ });
        assert(nodes_html(tv) == nodes_html(tv.drop_last()) + node_html(tv.last()));
    }
}

/// A list of texts, as a node, renders as the texts one after the other.
pub proof fn law_text_list_renders_concatenated(texts: Vec<&str>)
    ensures
        node_html(crate::dom::ToNode::node_of(texts)) == concat_texts(texts@),
{
    lemma_texts_html(texts@);
    if texts@.len() == 0 {
        assert(crate::dom::ToNode::node_of(texts) == NodeV::Empty);
    } else if texts@.len() == 1 {
        assert(texts@.drop_last() =~= Seq::<&str>::empty());
        assert(crate::dom::ToNode::node_of(texts) == NodeV::Text { contents: texts@[0]@ });
        assert(concat_texts(texts@) == concat_texts(texts@.drop_last()) + texts@.last()@);
        assert(concat_texts(texts@) =~= texts@[0]@);
    } else {
        assert(crate::dom::ToNode::node_of(texts) == NodeV::Fragment { children: crate::dom::texts_v(texts@) });
    }
}

} // verus!
