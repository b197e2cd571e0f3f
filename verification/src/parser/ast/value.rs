//! A markup value: plain text, or Rust code between braces.

use crate::parser::token_stream_compare::{same_tokens, token_stream_eq};
use crate::token::{tokens_v, Token, TokenV};
use vstd::prelude::*;

verus! {

/// A name or an attribute value in markup.
#[derive(Debug)]
pub enum Value {
    /// Text, such as `div` or `"my-class"`.
    Text(String),
    /// The tokens inside a brace group, such as `{el}`.
    Code(Vec<Token>),
}

/// The mathematical value of a `Value`.
pub enum ValueV {
    Text(Seq<char>),
    Code(Seq<TokenV>),
}

impl View for Value {
    type V = ValueV;

    open spec fn view(&self) -> ValueV {
        match self {
            Value::Text(s) => ValueV::Text(s@),
            Value::Code(ts) => ValueV::Code(tokens_v(ts@)),
        }
    }
}

/// Two values are the same text, or code of the same tokens.
pub open spec fn same_value(a: ValueV, b: ValueV) -> bool {
    match (a, b) {
        (ValueV::Text(l), ValueV::Text(r)) => l == r,
        (ValueV::Code(l), ValueV::Code(r)) => same_tokens(l, r),
        _ => false,
    }
}

impl PartialEq for Value {
    fn eq(&self, other: &Self) -> (r: bool) {
        match (self, other) {
            (Value::Text(left), Value::Text(right)) => *left == *right,
            (Value::Code(left), Value::Code(right)) => token_stream_eq(left, right),
            _ => false,
        }
    }
}

impl vstd::std_specs::cmp::PartialEqSpecImpl for Value {
    open spec fn obeys_eq_spec() -> bool {
        true
    }

    open spec fn eq_spec(&self, other: &Self) -> bool {
        same_value(self@, other@)
    }
}

} // verus!
