//! Renderers that collect displayed items into a text buffer.

pub mod html;

use vstd::prelude::*;

verus! {

/// A sink for displayed items.
pub trait Render {
    /// Appends the text of an item.
    fn render(&mut self, item: &str) -> Result<(), std::fmt::Error>;
}

} // verus!
