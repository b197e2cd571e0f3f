//! Syntax trees of markup.

pub mod attribute;
pub mod value;

use crate::parser::ast::value::ValueV;
use crate::token::{tokens_v, Token, TokenV};
use vstd::prelude::*;

verus! {

/// A node of markup.
#[derive(Debug)]
#[allow(inconsistent_fields)]
pub enum Node {
    /// `</>` or `<></>`.
    Empty,
    /// `<!name attributes>`.
    Doctype { name: String, attributes: Option<Vec<Attribute>> },
    /// `<!-- children -->`.
    Comment { children: Option<Vec<Node>> },
    /// `<>children</>`, or several nodes at the root.
    Fragment { children: Vec<Node> },
    /// Self closing tags. i.e. `<hr />`
    SelfClosing { name: String, attributes: Option<Vec<Attribute>> },
    /// Tags that have children. i.e. `<div></div>`
    Open { name: String, attributes: Option<Vec<Attribute>>, children: Option<Vec<Node>> },
    /// Text.
    Text(String),
    /// The tokens inside a brace group.
    Code(Vec<Token>),
}

/// An attribute: a key and an optional value.
#[derive(Debug)]
pub struct Attribute {
    pub key: String,
    pub value: Option<AttributeValue>,
}

/// An attribute value: text, or the tokens inside a brace group.
#[derive(Debug)]
pub enum AttributeValue {
    Text(String),
    Code(Vec<Token>),
}

impl View for AttributeValue {
    type V = ValueV;

    open spec fn view(&self) -> ValueV {
        match self {
            AttributeValue::Text(s) => ValueV::Text(s@),
            AttributeValue::Code(ts) => ValueV::Code(tokens_v(ts@)),
        }
    }
}

/// The mathematical value of an `Attribute`.
pub struct AttributeV {
    pub key: Seq<char>,
    pub value: Option<ValueV>,
}

impl View for Attribute {
    type V = AttributeV;

    open spec fn view(&self) -> AttributeV {
        AttributeV {
            key: self.key@,
            value: match self.value {
                Some(v) => Some(v@),
                None => None,
            },
        }
    }
}

/// The values of a sequence of attributes.
pub open spec fn attributes_v(s: Seq<Attribute>) -> Seq<AttributeV> {
    s.map_values(|a: Attribute| a@)
}

/// The values of optional attributes.
pub open spec fn opt_attributes_v(s: Option<Vec<Attribute>>) -> Option<Seq<AttributeV>> {
    match s {
        Some(v) => Some(attributes_v(v@)),
        None => None,
    }
}

/// The mathematical value of a `Node`.
#[allow(inconsistent_fields)]
pub enum NodeV {
    Empty,
    Doctype { name: Seq<char>, attributes: Option<Seq<AttributeV>> },
    Comment { children: Option<Seq<NodeV>> },
    Fragment { children: Seq<NodeV> },
    SelfClosing { name: Seq<char>, attributes: Option<Seq<AttributeV>> },
    Open { name: Seq<char>, attributes: Option<Seq<AttributeV>>, children: Option<Seq<NodeV>> },
    Text(Seq<char>),
    Code(Seq<TokenV>),
}

impl Node {
    /// The value of this node.
    pub open spec fn nv(self) -> NodeV
        decreases self,
    {
        match self {
            Node::Empty => NodeV::Empty,
            Node::Doctype { name, attributes } => NodeV::Doctype {
                name: name@,
                attributes: opt_attributes_v(attributes),
            },
            Node::Comment { children } => NodeV::Comment { children: opt_nodes_v(children) },
            Node::Fragment { children } => NodeV::Fragment { children: nodes_v(children@) },
            Node::SelfClosing { name, attributes } => NodeV::SelfClosing {
                name: name@,
                attributes: opt_attributes_v(attributes),
            },
            Node::Open { name, attributes, children } => NodeV::Open {
                name: name@,
                attributes: opt_attributes_v(attributes),
                children: opt_nodes_v(children),
            },
            Node::Text(s) => NodeV::Text(s@),
            Node::Code(ts) => NodeV::Code(tokens_v(ts@)),
        }
    }
}

/// The values of a sequence of nodes.
pub open spec fn nodes_v(s: Seq<Node>) -> Seq<NodeV>
    decreases s,
{
    if s.len() == 0 {
        Seq::empty()
    } else {
        nodes_v(s.drop_last()).push(s.last().nv())
    }
}

/// The values of optional nodes.
pub open spec fn opt_nodes_v(s: Option<Vec<Node>>) -> Option<Seq<NodeV>>
    decreases s,
{
    match s {
        Some(v) => Some(nodes_v(v@)),
        None => None,
    }
}

/// The values of a sequence grown by one node.
pub proof fn lemma_nodes_v_push(s: Seq<Node>, n: Node)
    ensures
        nodes_v(s.push(n)) == nodes_v(s).push(n.nv()),
{
    assert(s.push(n).drop_last() =~= s);
}

/// The number of node values is the number of nodes.
pub proof fn lemma_nodes_v_len(s: Seq<Node>)
    ensures
        nodes_v(s).len() == s.len(),
    decreases s.len(),
{
    if s.len() > 0 {
        lemma_nodes_v_len(s.drop_last());
    }
}

} // verus!
