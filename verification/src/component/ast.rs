//! A component function, by the source text of its parts.

use vstd::prelude::*;

verus! {

/// A function that a component is made of. Each piece of syntax is held by
/// its source text.
#[derive(Clone, Debug)]
pub struct Function {
    pub visibility: String,
    pub constness: bool,
    pub asyncness: bool,
    pub unsafety: bool,
    pub name: String,
    pub return_type: String,
    pub props: Option<Props>,
    pub code: String,
}

/// The one parameter of a component function: its props.
#[derive(Clone, Debug)]
pub struct Props {
    pub attributes: Vec<String>,
    pub pattern: String,
    pub item_type: String,
}

} // verus!
