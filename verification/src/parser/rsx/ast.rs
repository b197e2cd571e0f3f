//! Syntax trees of the RSX grammar.

pub use crate::parser::ast::attribute::{
    attributes_v, opt_attributes_v, opt_value_v, Attribute, AttributeV,
};
pub use crate::parser::ast::value::{Value, ValueV};
use crate::token::{tokens_v, Token, TokenV};
use vstd::prelude::*;

verus! {

/// A node of markup.
#[derive(Debug)]
#[allow(inconsistent_fields)]
pub enum Node {
    /// `</>` or `<></>`.
    Empty,
    /// `<!name attributes>`.
    Doctype { name: Value, attributes: Option<Vec<Attribute>> },
    /// `<!-- children -->`.
    Comment { children: Option<Vec<Node>> },
    /// `<>children</>`, or several nodes at the root.
    Fragment { children: Vec<Node> },
    /// `<name attributes/>`.
    SelfClosing { name: Value, attributes: Option<Vec<Attribute>> },
    /// `<Name attributes/>`, where `Name` names a component.
    SelfClosingComponent { name: String, attributes: Option<Vec<Attribute>> },
    /// `<name attributes>children</name>`.
    Open { name: Value, attributes: Option<Vec<Attribute>>, children: Option<Vec<Node>> },
    /// `<Name attributes>children</Name>`, where `Name` names a component.
    OpenComponent {
        name: String,
        attributes: Option<Vec<Attribute>>,
        children: Option<Vec<Node>>,
    },
    /// Text.
    Text(String),
    /// The tokens inside a brace group.
    Code(Vec<Token>),
}

/// The mathematical value of a `Node`.
#[allow(inconsistent_fields)]
pub enum NodeV {
    Empty,
    Doctype { name: ValueV, attributes: Option<Seq<AttributeV>> },
    Comment { children: Option<Seq<NodeV>> },
    Fragment { children: Seq<NodeV> },
    SelfClosing { name: ValueV, attributes: Option<Seq<AttributeV>> },
    SelfClosingComponent { name: Seq<char>, attributes: Option<Seq<AttributeV>> },
    Open { name: ValueV, attributes: Option<Seq<AttributeV>>, children: Option<Seq<NodeV>> },
    OpenComponent {
        name: Seq<char>,
        attributes: Option<Seq<AttributeV>>,
        children: Option<Seq<NodeV>>,
    },
    Text(Seq<char>),
    Code(Seq<TokenV>),
}

impl Node {
    /// The value of this node.
    pub open spec fn nv(self) -> NodeV
        decreases self,
    {
        match self {
            Node::Empty => NodeV::Empty,
            Node::Doctype { name, attributes } => NodeV::Doctype {
                name: name@,
                attributes: opt_attributes_v(attributes),
            },
            Node::Comment { children } => NodeV::Comment { children: opt_nodes_v(children) },
            Node::Fragment { children } => NodeV::Fragment { children: nodes_v(children@) },
            Node::SelfClosing { name, attributes } => NodeV::SelfClosing {
                name: name@,
                attributes: opt_attributes_v(attributes),
            },
            Node::SelfClosingComponent { name, attributes } => NodeV::SelfClosingComponent {
                name: name@,
                attributes: opt_attributes_v(attributes),
            },
            Node::Open { name, attributes, children } => NodeV::Open {
                name: name@,
                attributes: opt_attributes_v(attributes),
                children: opt_nodes_v(children),
            },
            Node::OpenComponent { name, attributes, children } => NodeV::OpenComponent {
                name: name@,
                attributes: opt_attributes_v(attributes),
                children: opt_nodes_v(children),
            },
            Node::Text(s) => NodeV::Text(s@),
            Node::Code(ts) => NodeV::Code(tokens_v(ts@)),
        }
    }
}

/// The values of a sequence of nodes.
pub open spec fn nodes_v(s: Seq<Node>) -> Seq<NodeV>
    decreases s,
{
    if s.len() == 0 {
        Seq::empty()
    } else {
        nodes_v(s.drop_last()).push(s.last().nv())
    }
}

/// The values of optional nodes.
pub open spec fn opt_nodes_v(s: Option<Vec<Node>>) -> Option<Seq<NodeV>>
    decreases s,
{
    match s {
        Some(v) => Some(nodes_v(v@)),
        None => None,
    }
}

/// The values of a sequence grown by one node.
pub proof fn lemma_nodes_v_push(s: Seq<Node>, n: Node)
    ensures
        nodes_v(s.push(n)) == nodes_v(s).push(n.nv()),
{
    assert(s.push(n).drop_last() =~= s);
}

} // verus!
