//! A markup attribute whose key may be text or code.

use crate::parser::ast::value::{same_value, Value, ValueV};
use vstd::prelude::*;

verus! {

/// An attribute: a key and an optional value, such as `type="text"` or `disabled`.
#[derive(Debug)]
pub struct Attribute {
    pub key: Value,
    pub value: Option<Value>,
}

/// The mathematical value of an `Attribute`.
pub struct AttributeV {
    pub key: ValueV,
    pub value: Option<ValueV>,
}

/// The value of an optional markup value.
pub open spec fn opt_value_v(v: Option<Value>) -> Option<ValueV> {
    match v {
        Some(x) => Some(x@),
        None => None,
    }
}

impl View for Attribute {
    type V = AttributeV;

    open spec fn view(&self) -> AttributeV {
        AttributeV { key: self.key@, value: opt_value_v(self.value) }
    }
}

/// The values of a sequence of attributes.
pub open spec fn attributes_v(s: Seq<Attribute>) -> Seq<AttributeV> {
    s.map_values(|a: Attribute| a@)
}

/// The values of optional attributes.
pub open spec fn opt_attributes_v(s: Option<Vec<Attribute>>) -> Option<Seq<AttributeV>> {
    match s {
        Some(v) => Some(attributes_v(v@)),
        None => None,
    }
}

/// Two attributes have the same key and the same value, or both no value.
pub open spec fn same_attribute(a: AttributeV, b: AttributeV) -> bool {
    same_value(a.key, b.key) && match (a.value, b.value) {
        (Some(l), Some(r)) => same_value(l, r),
        (None, None) => true,
        _ => false,
    }
}

impl PartialEq for Attribute {
    fn eq(&self, other: &Self) -> (r: bool) {
        self.key == other.key && self.value == other.value
    }
}

impl vstd::std_specs::cmp::PartialEqSpecImpl for Attribute {
    open spec fn obeys_eq_spec() -> bool {
        true
    }

    open spec fn eq_spec(&self, other: &Self) -> bool {
        same_attribute(self@, other@)
    }
}

} // verus!
