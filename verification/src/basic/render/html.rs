//! Rendering basic nodes to HTML text.

use crate::basic::dom::{Attribute, Child, Contents, Node};
use crate::text::{push_char, push_text};
use vstd::prelude::*;

verus! {

/// The keys of attributes, each after a space.
pub open spec fn keys_html(attrs: Seq<Attribute>) -> Seq<char>
    decreases attrs.len(),
{
    if attrs.len() == 0 {
        Seq::empty()
    } else {
        keys_html(attrs.drop_last()) + seq![' '] + attrs.last().key@
    }
}

/// The text of children, one after another.
pub open spec fn children_html(cs: Seq<Child>) -> Seq<char>
    decreases cs.len(),
{
    if cs.len() == 0 {
        Seq::empty()
    } else {
        children_html(cs.drop_last()) + match cs.last() {
            Child::StaticText(t) => t@,
        }
    }
}

/// What the renderer writes for a node. A named node gets `<name`, its
/// attribute keys, and then `/>` when self-closing, `></name>` when empty,
/// and `>`, its children and `</name>` otherwise. A nameless node writes its
/// attribute keys and its children only.
pub open spec fn node_html(n: Node) -> Seq<char> {
    let named = n.name@.len() > 0;
    let keys = match n.attributes {
        Some(a) => keys_html(a@),
        None => Seq::empty(),
    };
    let closing = seq!['<', '/'] + n.name@ + seq!['>'];
    if named {
        seq!['<'] + n.name@ + keys + match n.contents {
            Contents::SelfClosing => seq!['/', '>'],
            Contents::Empty => seq!['>'] + closing,
            Contents::Children(cs) => seq!['>'] + children_html(cs@) + closing,
        }
    } else {
        keys + match n.contents {
            Contents::Children(cs) => children_html(cs@),
            _ => Seq::empty(),
        }
    }
}

/// Renders nodes into a text buffer.
#[derive(Clone, Debug)]
pub struct Render {
    buffer: String,
}

impl View for Render {
    type V = Seq<char>;

    /// The text rendered so far.
    closed spec fn view(&self) -> Seq<char> {
        self.buffer@
    }
}

impl Render {
    /// A renderer that has rendered nothing yet.
    pub fn new() -> (r: Self)
        ensures
            r@ == Seq::<char>::empty(),
    {
        Self { buffer: String::new() }
    }

    /// Appends what `node_html` gives for `node`.
    pub fn render(&mut self, node: Node) -> (r: Result<(), std::fmt::Error>)
        ensures
            r is Ok,
            final(self)@ == old(self)@ + node_html(node),
    {
        let ghost start = self@;
        let is_named = node.is_named();
        if is_named {
            push_char(&mut self.buffer, '<');
            push_text(&mut self.buffer, node.name.as_str());
        }
        self.render_maybe_attributes(&node.attributes);
        match &node.contents {
            Contents::SelfClosing => {
                if is_named {
                    push_char(&mut self.buffer, '/');
                    push_char(&mut self.buffer, '>');
                }
            },
            Contents::Empty => {
                if is_named {
                    push_char(&mut self.buffer, '>');
                    self.render_closing_tag(&node.name);
                }
            },
            Contents::Children(children) => {
                if is_named {
                    push_char(&mut self.buffer, '>');
                }
                self.render_children(children);
                if is_named {
                    self.render_closing_tag(&node.name);
                }
            },
        }
        assert(self@ =~= start + node_html(node));
        Ok(())
    }

    /// The text rendered so far.
    pub fn into_string(self) -> (r: String)
        ensures
            r@ == self@,
    {
        self.buffer
    }

    fn render_maybe_attributes(&mut self, maybe_attributes: &Option<Vec<Attribute>>)
        ensures
            final(self)@ == old(self)@ + match *maybe_attributes {
                Some(a) => keys_html(a@),
                None => Seq::empty(),
            },
    {
        match maybe_attributes {
            Some(attributes) => self.render_attributes(attributes),
            None => {
                assert(self@ =~= old(self)@ + Seq::<char>::empty());
            },
        }
    }

    fn render_attributes(&mut self, attributes: &Vec<Attribute>)
        ensures
            final(self)@ == old(self)@ + keys_html(attributes@),
    {
        let ghost start = self@;
        let mut i: usize = 0;
        while i < attributes.len()
            invariant
                i <= attributes@.len(),
                self@ == start + keys_html(attributes@.take(i as int)),
            decreases attributes.len() - i,
        {
            push_char(&mut self.buffer, ' ');
            push_text(&mut self.buffer, attributes[i].key.as_str());
            proof {
                let a = attributes@.take(i + 1);
                assert(a.drop_last() =~= attributes@.take(i as int));
                assert(self@ =~= start + keys_html(a));
            }
            i = i + 1;
        }
        assert(attributes@.take(attributes@.len() as int) =~= attributes@);
    }

    /// Writes `</name>`.
    fn render_closing_tag(&mut self, name: &String)
        ensures
            final(self)@ == old(self)@ + seq!['<', '/'] + name@ + seq!['>'],
    {
        push_char(&mut self.buffer, '<');
        push_char(&mut self.buffer, '/');
        push_text(&mut self.buffer, name.as_str());
        push_char(&mut self.buffer, '>');
    }

    /// Writes the text of each child, in order.
    fn render_children(&mut self, children: &Vec<Child>)
        ensures
            final(self)@ == old(self)@ + children_html(children@),
    {
        let ghost start = self@;
        let mut i: usize = 0;
        while i < children.len()
            invariant
                i <= children@.len(),
                self@ == start + children_html(children@.take(i as int)),
            decreases children.len() - i,
        {
            match &children[i] {
                Child::StaticText(t) => push_text(&mut self.buffer, t.as_str()),
            }
            proof {
                let c = children@.take(i + 1);
                assert(c.drop_last() =~= children@.take(i as int));
                assert(self@ =~= start + children_html(c));
            }
            i = i + 1;
        }
        assert(children@.take(children@.len() as int) =~= children@);
    }
}

/// Renders a node to text.
pub fn render(node: Node) -> (r: String)
    ensures
        r@ == node_html(node),
{
    let mut render = Render::new();
    let _ = render.render(node);
    render.into_string()
}

} // verus!
