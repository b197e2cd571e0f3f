//! Rendering on the server: items are appended to a text buffer.

use crate::basic::render::Render;
use crate::text::push_text;
use vstd::prelude::*;

verus! {

/// Collects rendered text.
#[derive(Clone, Debug)]
pub struct ServerRender {
    buffer: String,
}

impl View for ServerRender {
    type V = Seq<char>;

    /// The text collected so far.
    closed spec fn view(&self) -> Seq<char> {
        self.buffer@
    }
}

impl ServerRender {
    /// An empty buffer.
    pub fn new() -> (r: Self)
        ensures
            r@ == Seq::<char>::empty(),
    {
        Self { buffer: String::new() }
    }

    /// The text collected so far.
    pub fn to_string(&self) -> (r: String)
        ensures
            r@ == self@,
    {
        self.buffer.clone()
    }

    /// The text collected so far, borrowed.
    pub fn as_str(&self) -> (r: &str)
        ensures
            r@ == self@,
    {
        self.buffer.as_str()
    }
}

impl Render for ServerRender {
    /// Appends `item`; writing to a buffer does not fail.
    fn render(&mut self, item: &str) -> (r: Result<(), std::fmt::Error>)
        ensures
            r is Ok,
            final(self)@ == old(self)@ + item@,
    {
        push_text(&mut self.buffer, item);
        Ok(())
    }
}

impl From<ServerRender> for String {
    fn from(render: ServerRender) -> (r: String)
        ensures
            r@ == render@,
    {
        render.buffer
    }
}

impl vstd::std_specs::convert::FromSpecImpl<ServerRender> for String {
    open spec fn obeys_from_spec() -> bool {
        true
    }

    closed spec fn from_spec(v: ServerRender) -> String {
        v.buffer
    }
}

} // verus!
