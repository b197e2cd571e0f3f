//! The basic document tree: what its renderer reads of a node.

use vstd::prelude::*;

verus! {

/// A child of a node.
#[derive(Clone, Debug)]
pub enum Child {
    StaticText(String),
}

/// An attribute, by its key.
#[derive(Clone, Debug)]
pub struct Attribute {
    pub key: String,
}

/// What a node holds after its opening tag.
#[derive(Clone, Debug)]
pub enum Contents {
    /// The node closes itself: `<name/>`.
    SelfClosing,
    /// The node has no children.
    Empty,
    /// The node's children.
    Children(Vec<Child>),
}

/// A node: a name (empty for a nameless node), attributes and contents.
#[derive(Clone, Debug)]
pub struct Node {
    pub name: String,
    pub attributes: Option<Vec<Attribute>>,
    pub contents: Contents,
}

impl Node {
    /// Returns whether the node has a name.
    pub fn is_named(&self) -> (r: bool)
        ensures
            r == (self.name@.len() > 0),
    {
        self.name.as_str().unicode_len() > 0
    }
}

} // verus!
