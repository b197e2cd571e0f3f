//! The syntax tree that basic code is generated from.

use vstd::prelude::*;

verus! {

/// A tag with its attributes and children.
#[derive(Debug)]
pub struct Node {
    pub name: String,
    pub is_self_closing: bool,
    pub attributes: Option<Vec<Attribute>>,
    pub children: Option<Vec<Child>>,
}

/// A child of a tag: a tag, text, or the text of code.
#[derive(Debug)]
pub enum Child {
    Node(Node),
    Text(String),
    Code(String),
}

/// An attribute: a key and an optional value.
#[derive(Clone, Debug, PartialEq)]
pub struct Attribute {
    pub key: String,
    pub value: Option<AttributeValue>,
}

/// An attribute value: text, or the text of code.
#[derive(Clone, Debug, PartialEq)]
pub enum AttributeValue {
    Text(String),
    Code(String),
}

/// The mathematical value of a `Node`.
pub struct NodeV {
    pub name: Seq<char>,
    pub is_self_closing: bool,
    /// The number of attributes, if there are attributes.
    pub attributes: Option<nat>,
    pub children: Option<Seq<ChildV>>,
}

/// The mathematical value of a `Child`.
pub enum ChildV {
    Node(NodeV),
    Text(Seq<char>),
    Code(Seq<char>),
}

impl Node {
    /// The value of this node.
    pub open spec fn nv(self) -> NodeV
        decreases self,
    {
        NodeV {
            name: self.name@,
            is_self_closing: self.is_self_closing,
            attributes: match self.attributes {
                Some(a) => Some(a@.len()),
                None => None,
            },
            children: match self.children {
                Some(cs) => Some(children_v(cs@)),
                None => None,
            },
        }
    }
}

impl Child {
    /// The value of this child.
    pub open spec fn cv(self) -> ChildV
        decreases self,
    {
        match self {
            Child::Node(n) => ChildV::Node(n.nv()),
            Child::Text(s) => ChildV::Text(s@),
            Child::Code(s) => ChildV::Code(s@),
        }
    }
}

/// The values of a sequence of children.
pub open spec fn children_v(s: Seq<Child>) -> Seq<ChildV>
    decreases s,
{
    if s.len() == 0 {
        Seq::empty()
    } else {
        children_v(s.drop_last()).push(s.last().cv())
    }
}

/// The values of children, element by element.
pub proof fn lemma_children_v(s: Seq<Child>)
    ensures
        children_v(s).len() == s.len(),
        forall|i: int| 0 <= i < s.len() ==> #[trigger] children_v(s)[i] == s[i].cv(),
    decreases s.len(),
{
    if s.len() > 0 {
        lemma_children_v(s.drop_last());
    }
}

} // verus!
