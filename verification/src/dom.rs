//! The document tree that generated code builds and the renderer prints.
//!
//! Names and texts are owned strings here. A float attribute value is held by
//! the decimal text it prints as, which is made where the float is.

use vstd::prelude::*;

verus! {

/// The value of an attribute.
#[derive(Clone, Debug)]
pub enum AttributeValue {
    /// This is for when the attribute is set,
    /// but we only find out when looking at the value,
    /// that the attribute shouldn't be used at all.
    ImplicitFalse,
    /// This is for keys which don't have a value.
    /// i.e. The `disabled` in `<button disabled>`.
    ImplicitTrue,
    Text(String),
    UnsignedInteger(u64),
    SignedInteger(i64),
    /// A float, by the text it prints as.
    Float(String),
}

/// The mathematical value of an `AttributeValue`.
pub enum AttributeValueV {
    ImplicitFalse,
    ImplicitTrue,
    Text(Seq<char>),
    UnsignedInteger(u64),
    SignedInteger(i64),
    Float(Seq<char>),
}

impl View for AttributeValue {
    type V = AttributeValueV;

    open spec fn view(&self) -> AttributeValueV {
        match self {
            AttributeValue::ImplicitFalse => AttributeValueV::ImplicitFalse,
            AttributeValue::ImplicitTrue => AttributeValueV::ImplicitTrue,
            AttributeValue::Text(s) => AttributeValueV::Text(s@),
            AttributeValue::UnsignedInteger(n) => AttributeValueV::UnsignedInteger(*n),
            AttributeValue::SignedInteger(n) => AttributeValueV::SignedInteger(*n),
            AttributeValue::Float(s) => AttributeValueV::Float(s@),
        }
    }
}

/// An attribute of a node: a key and a value.
#[derive(Clone, Debug)]
pub struct Attribute {
    pub key: String,
    pub value: AttributeValue,
}

/// The mathematical value of an `Attribute`.
pub struct AttributeV {
    pub key: Seq<char>,
    pub value: AttributeValueV,
}

impl View for Attribute {
    type V = AttributeV;

    open spec fn view(&self) -> AttributeV {
        AttributeV { key: self.key@, value: self.value@ }
    }
}

impl Attribute {
    /// An attribute with `key` and `value`.
    pub fn new(key: String, value: AttributeValue) -> (r: Self)
        ensures
            r@ == (AttributeV { key: key@, value: value@ }),
    {
        Self { key, value }
    }
}

/// The values of a sequence of attributes.
pub open spec fn attributes_v(s: Seq<Attribute>) -> Seq<AttributeV> {
    s.map_values(|a: Attribute| a@)
}

/// The values of optional attributes.
pub open spec fn opt_attributes_v(s: Option<Vec<Attribute>>) -> Option<Seq<AttributeV>> {
    match s {
        Some(v) => Some(attributes_v(v@)),
        None => None,
    }
}

/// What an open node holds.
#[derive(Debug)]
pub enum Child {
    Nothing,
    Nodes { nodes: Vec<Node> },
    Text { contents: String },
}

/// A node of the document.
///
/// The contents of the Node may change in future releases.
#[derive(Debug)]
#[allow(inconsistent_fields)]
pub enum Node {
    Empty,
    Doctype { name: String, attributes: Option<Vec<Attribute>> },
    Comment { children: Option<Vec<Node>> },
    Fragment { children: Vec<Node> },
    SelfClosing { name: String, attributes: Option<Vec<Attribute>> },
    OpenEmpty { name: String, attributes: Option<Vec<Attribute>> },
    OpenWithChildren { name: String, attributes: Option<Vec<Attribute>>, child: Child },
    Text { contents: String },
}

/// The mathematical value of a `Child`.
pub enum ChildV {
    Nothing,
    Nodes { nodes: Seq<NodeV> },
    Text { contents: Seq<char> },
}

/// The mathematical value of a `Node`.
#[allow(inconsistent_fields)]
pub enum NodeV {
    Empty,
    Doctype { name: Seq<char>, attributes: Option<Seq<AttributeV>> },
    Comment { children: Option<Seq<NodeV>> },
    Fragment { children: Seq<NodeV> },
    SelfClosing { name: Seq<char>, attributes: Option<Seq<AttributeV>> },
    OpenEmpty { name: Seq<char>, attributes: Option<Seq<AttributeV>> },
    OpenWithChildren { name: Seq<char>, attributes: Option<Seq<AttributeV>>, child: ChildV },
    Text { contents: Seq<char> },
}

impl Node {
    /// The value of this node.
    pub open spec fn nv(self) -> NodeV
        decreases self,
    {
        match self {
            Node::Empty => NodeV::Empty,
            Node::Doctype { name, attributes } => NodeV::Doctype {
                name: name@,
                attributes: opt_attributes_v(attributes),
            },
            Node::Comment { children } => NodeV::Comment {
                children: match children {
                    Some(cs) => Some(nodes_v(cs@)),
                    None => None,
                },
            },
            Node::Fragment { children } => NodeV::Fragment { children: nodes_v(children@) },
            Node::SelfClosing { name, attributes } => NodeV::SelfClosing {
                name: name@,
                attributes: opt_attributes_v(attributes),
            },
            Node::OpenEmpty { name, attributes } => NodeV::OpenEmpty {
                name: name@,
                attributes: opt_attributes_v(attributes),
            },
            Node::OpenWithChildren { name, attributes, child } => NodeV::OpenWithChildren {
                name: name@,
                attributes: opt_attributes_v(attributes),
                child: child.cv(),
            },
            Node::Text { contents } => NodeV::Text { contents: contents@ },
        }
    }
}

impl Child {
    /// The value of this child.
    pub open spec fn cv(self) -> ChildV
        decreases self,
    {
        match self {
            Child::Nothing => ChildV::Nothing,
            Child::Nodes { nodes } => ChildV::Nodes { nodes: nodes_v(nodes@) },
            Child::Text { contents } => ChildV::Text { contents: contents@ },
        }
    }
}

/// The values of a sequence of nodes.
pub open spec fn nodes_v(s: Seq<Node>) -> Seq<NodeV>
    decreases s,
{
    if s.len() == 0 {
        Seq::empty()
    } else {
        nodes_v(s.drop_last()).push(s.last().nv())
    }
}

/// The values of nodes, element by element.
pub proof fn lemma_nodes_v(s: Seq<Node>)
    ensures
        nodes_v(s).len() == s.len(),
        forall|i: int| 0 <= i < s.len() ==> #[trigger] nodes_v(s)[i] == s[i].nv(),
    decreases s.len(),
{
    if s.len() > 0 {
        lemma_nodes_v(s.drop_last());
    }
}

impl Node {
    /// An open node: with its child when one is given, else an empty one.
    pub fn new_open<N: ToChild>(
        name: String,
        attributes: Option<Vec<Attribute>>,
        maybe_child: Option<N>,
    ) -> (r: Self)
        ensures
            r.nv() == (match maybe_child {
                Some(child) => NodeV::OpenWithChildren {
                    name: name@,
                    attributes: opt_attributes_v(attributes),
                    child: child.child_of(),
                },
                None => NodeV::OpenEmpty { name: name@, attributes: opt_attributes_v(attributes) },
            }),
    {
        match maybe_child {
            Some(child) => Self::OpenWithChildren { name, attributes, child: child.to_child() },
            None => Self::OpenEmpty { name, attributes },
        }
    }

    /// A self-closing node.
    pub fn new_self_closing(name: String, attributes: Option<Vec<Attribute>>) -> (r: Self)
        ensures
            r.nv() == (NodeV::SelfClosing { name: name@, attributes: opt_attributes_v(attributes) }),
    {
        Self::SelfClosing { name, attributes }
    }
}

// ----- conversions into the tree -----

/// Values that can stand as an attribute value.
pub trait ToAttributeValue: Sized {
    /// The attribute value that this value stands as.
    spec fn attribute_value_of(self) -> AttributeValueV;

    fn to_attribute_value(self) -> (r: AttributeValue)
        ensures
            r@ == self.attribute_value_of(),
    ;
}

/// Values that can stand as the child of an open node.
pub trait ToChild: Sized {
    /// The child that this value stands as.
    spec fn child_of(self) -> ChildV;

    fn to_child(self) -> (r: Child)
        ensures
            r.cv() == self.child_of(),
    ;
}

/// Values that can stand as a node.
pub trait ToNode: Sized {
    /// The node that this value stands as.
    spec fn node_of(self) -> NodeV;

    fn to_node(self) -> (r: Node)
        ensures
            r.nv() == self.node_of(),
    ;
}

/// The number an attribute value stands for, if it is a number.
pub open spec fn attribute_number(v: AttributeValueV) -> Option<int> {
    match v {
        AttributeValueV::UnsignedInteger(n) => Some(n as int),
        AttributeValueV::SignedInteger(n) => Some(n as int),
        _ => None,
    }
}

/// An integer becomes an attribute value that stands for the same number,
/// whatever its type and sign.
pub proof fn law_integer_attribute_values(
    a: i8,
    b: i16,
    c: i32,
    d: i64,
    e: isize,
    f: u8,
    g: u16,
    h: u32,
    i: u64,
    j: usize,
)
    ensures
        attribute_number(a.attribute_value_of()) == Some(a as int),
        attribute_number(b.attribute_value_of()) == Some(b as int),
        attribute_number(c.attribute_value_of()) == Some(c as int),
        attribute_number(d.attribute_value_of()) == Some(d as int),
        attribute_number(e.attribute_value_of()) == Some(e as int),
        attribute_number(f.attribute_value_of()) == Some(f as int),
        attribute_number(g.attribute_value_of()) == Some(g as int),
        attribute_number(h.attribute_value_of()) == Some(h as int),
        attribute_number(i.attribute_value_of()) == Some(i as int),
        attribute_number(j.attribute_value_of()) == Some(j as int),
{
}

impl ToAttributeValue for AttributeValue {
    open spec fn attribute_value_of(self) -> AttributeValueV {
        self@
    }

    fn to_attribute_value(self) -> (r: AttributeValue) {
        self
    }
}

impl ToAttributeValue for () {
    open spec fn attribute_value_of(self) -> AttributeValueV {
        AttributeValueV::ImplicitTrue
    }

    fn to_attribute_value(self) -> (r: AttributeValue) {
        AttributeValue::ImplicitTrue
    }
}

impl<N: ToAttributeValue> ToAttributeValue for Option<N> {
    open spec fn attribute_value_of(self) -> AttributeValueV {
        match self {
            None => AttributeValueV::ImplicitFalse,
            Some(n) => n.attribute_value_of(),
        }
    }

    fn to_attribute_value(self) -> (r: AttributeValue) {
        match self {
            None => AttributeValue::ImplicitFalse,
            Some(n) => n.to_attribute_value(),
        }
    }
}

impl<'a> ToAttributeValue for &'a str {
    open spec fn attribute_value_of(self) -> AttributeValueV {
        AttributeValueV::Text(self@)
    }

    fn to_attribute_value(self) -> (r: AttributeValue) {
        AttributeValue::Text(String::from_str(self))
    }
}

impl ToAttributeValue for String {
    open spec fn attribute_value_of(self) -> AttributeValueV {
        AttributeValueV::Text(self@)
    }

    fn to_attribute_value(self) -> (r: AttributeValue) {
        AttributeValue::Text(self)
    }
}

impl ToAttributeValue for i64 {
    open spec fn attribute_value_of(self) -> AttributeValueV {
        AttributeValueV::SignedInteger(self)
    }

    fn to_attribute_value(self) -> (r: AttributeValue) {
        AttributeValue::SignedInteger(self)
    }
}

impl ToAttributeValue for i32 {
    open spec fn attribute_value_of(self) -> AttributeValueV {
        AttributeValueV::SignedInteger(self as i64)
    }

    fn to_attribute_value(self) -> (r: AttributeValue) {
        AttributeValue::SignedInteger(self as i64)
    }
}

impl ToAttributeValue for i16 {
    open spec fn attribute_value_of(self) -> AttributeValueV {
        AttributeValueV::SignedInteger(self as i64)
    }

    fn to_attribute_value(self) -> (r: AttributeValue) {
        AttributeValue::SignedInteger(self as i64)
    }
}

impl ToAttributeValue for i8 {
    open spec fn attribute_value_of(self) -> AttributeValueV {
        AttributeValueV::SignedInteger(self as i64)
    }

    fn to_attribute_value(self) -> (r: AttributeValue) {
        AttributeValue::SignedInteger(self as i64)
    }
}

impl ToAttributeValue for isize {
    open spec fn attribute_value_of(self) -> AttributeValueV {
        AttributeValueV::SignedInteger(self as i64)
    }

    fn to_attribute_value(self) -> (r: AttributeValue) {
        AttributeValue::SignedInteger(self as i64)
    }
}

impl ToAttributeValue for u64 {
    open spec fn attribute_value_of(self) -> AttributeValueV {
        AttributeValueV::UnsignedInteger(self)
    }

    fn to_attribute_value(self) -> (r: AttributeValue) {
        AttributeValue::UnsignedInteger(self)
    }
}

impl ToAttributeValue for u32 {
    open spec fn attribute_value_of(self) -> AttributeValueV {
        AttributeValueV::UnsignedInteger(self as u64)
    }

    fn to_attribute_value(self) -> (r: AttributeValue) {
        AttributeValue::UnsignedInteger(self as u64)
    }
}

impl ToAttributeValue for u16 {
    open spec fn attribute_value_of(self) -> AttributeValueV {
        AttributeValueV::UnsignedInteger(self as u64)
    }

    fn to_attribute_value(self) -> (r: AttributeValue) {
        AttributeValue::UnsignedInteger(self as u64)
    }
}

impl ToAttributeValue for u8 {
    open spec fn attribute_value_of(self) -> AttributeValueV {
        AttributeValueV::UnsignedInteger(self as u64)
    }

    fn to_attribute_value(self) -> (r: AttributeValue) {
        AttributeValue::UnsignedInteger(self as u64)
    }
}

impl ToAttributeValue for usize {
    open spec fn attribute_value_of(self) -> AttributeValueV {
        AttributeValueV::UnsignedInteger(self as u64)
    }

    fn to_attribute_value(self) -> (r: AttributeValue) {
        AttributeValue::UnsignedInteger(self as u64)
    }
}

impl ToAttributeValue for bool {
    open spec fn attribute_value_of(self) -> AttributeValueV {
        if self {
            AttributeValueV::ImplicitTrue
        } else {
            AttributeValueV::ImplicitFalse
        }
    }

    fn to_attribute_value(self) -> (r: AttributeValue) {
        if self {
            AttributeValue::ImplicitTrue
        } else {
            AttributeValue::ImplicitFalse
        }
    }
}

impl<N: ToChild> ToChild for Option<N> {
    open spec fn child_of(self) -> ChildV {
        match self {
            None => ChildV::Nothing,
            Some(n) => n.child_of(),
        }
    }

    fn to_child(self) -> (r: Child) {
        match self {
            None => Child::Nothing,
            Some(n) => n.to_child(),
        }
    }
}

impl<'a> ToChild for &'a str {
    open spec fn child_of(self) -> ChildV {
        ChildV::Text { contents: self@ }
    }

    fn to_child(self) -> (r: Child) {
        Child::Text { contents: String::from_str(self) }
    }
}

impl ToChild for Vec<Node> {
    open spec fn child_of(self) -> ChildV {
        ChildV::Nodes { nodes: nodes_v(self@) }
    }

    fn to_child(self) -> (r: Child) {
        Child::Nodes { nodes: self }
    }
}

impl ToChild for Node {
    open spec fn child_of(self) -> ChildV {
        match self {
            Node::Empty => ChildV::Nothing,
            node => ChildV::Nodes { nodes: seq![node.nv()] },
        }
    }

    fn to_child(self) -> (r: Child) {
        match self {
            Node::Empty => Child::Nothing,
            node => {
                let nodes = vec![node];
                assert(nodes@.drop_last() =~= Seq::<Node>::empty());
                Child::Nodes { nodes }
            },
        }
    }
}

impl ToChild for () {
    open spec fn child_of(self) -> ChildV {
        ChildV::Nothing
    }

    fn to_child(self) -> (r: Child) {
        Child::Nothing
    }
}

impl ToNode for Node {
    open spec fn node_of(self) -> NodeV {
        self.nv()
    }

    fn to_node(self) -> (r: Node) {
        self
    }
}

impl<N: ToNode> ToNode for Option<N> {
    open spec fn node_of(self) -> NodeV {
        match self {
            None => NodeV::Empty,
            Some(n) => n.node_of(),
        }
    }

    fn to_node(self) -> (r: Node) {
        match self {
            None => Node::Empty,
            Some(n) => n.to_node(),
        }
    }
}

impl<'a, 'b> ToNode for &'a &'b str {
    open spec fn node_of(self) -> NodeV {
        NodeV::Text { contents: (*self)@ }
    }

    fn to_node(self) -> (r: Node) {
        Node::Text { contents: String::from_str(*self) }
    }
}

impl<'a> ToNode for &'a str {
    open spec fn node_of(self) -> NodeV {
        NodeV::Text { contents: self@ }
    }

    fn to_node(self) -> (r: Node) {
        Node::Text { contents: String::from_str(self) }
    }
}

/// Text nodes of each text.
pub open spec fn texts_v(texts: Seq<&str>) -> Seq<NodeV> {
    texts.map_values(|t: &str| NodeV::Text { contents: t@ })
}

impl<'a> ToNode for Vec<&'a str> {
    open spec fn node_of(self) -> NodeV {
        if self@.len() == 0 {
            NodeV::Empty
        } else if self@.len() == 1 {
            NodeV::Text { contents: self@[0]@ }
        } else {
            NodeV::Fragment { children: texts_v(self@) }
        }
    }

    fn to_node(self) -> (r: Node) {
        if self.len() == 0 {
            Node::Empty
        } else if self.len() == 1 {
            Node::Text { contents: String::from_str(self[0]) }
        } else {
            let mut children: Vec<Node> = Vec::new();
            let mut i: usize = 0;
            while i < self.len()
                invariant
                    i <= self@.len(),
                    nodes_v(children@) == texts_v(self@.take(i as int)),
                decreases self.len() - i,
            {
                let node = Node::Text { contents: String::from_str(self[i]) };
                proof {
                    assert(children@.push(node).drop_last() =~= children@);
                    assert(texts_v(self@.take(i + 1)) =~= texts_v(self@.take(i as int)).push(
                        node.nv(),
                    ));
                }
                children.push(node);
                i = i + 1;
            }
            assert(self@.take(self@.len() as int) =~= self@);
            Node::Fragment { children }
        }
    }
}

impl ToNode for Vec<Node> {
    open spec fn node_of(self) -> NodeV {
        NodeV::Fragment { children: nodes_v(self@) }
    }

    fn to_node(self) -> (r: Node) {
        Node::Fragment { children: self }
    }
}

impl ToNode for () {
    open spec fn node_of(self) -> NodeV {
        NodeV::Empty
    }

    fn to_node(self) -> (r: Node) {
        Node::Empty
    }
}

} // verus!
