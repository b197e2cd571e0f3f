//! The component macro: a function becomes a type that can be called with
//! its props and used as a tag.

pub mod ast;
pub mod error;
pub mod grammar;
pub mod output;
pub mod syntax;

use crate::component::error::{Error, Result};
use crate::component::grammar::{function_spec, ParsedFunction};
use crate::component::output::function_out;
use crate::token::{emitted_v, Emitted, Token};
use vstd::prelude::*;

verus! {

/// `r` is what expanding the parsed function item `p` gives: the code of its
/// component function, or the error that reading it gave.
pub open spec fn expands_to(p: ParsedFunction, r: Result<Vec<Emitted>>) -> bool {
    match function_spec(p) {
        Ok(f) => r matches Ok(code) && emitted_v(code@) == function_out(f),
        Err(e) => r matches Err(e2) && e2 == e,
    }
}

/// Expands a component function; the attribute must be given no arguments.
/// The function's one typed parameter, if it has one, becomes the props.
/// What the function item is rests on `syn` (see `grammar::parse`), so what is
/// stated beyond the macro's own errors is what holds of every outcome: a
/// `syn` error, or the expansion of some parsed function item.
pub fn parse(old_attrs: Vec<Token>, old_stream: Vec<Token>) -> (r: Result<Vec<Emitted>>)
    ensures
        old_attrs@.len() > 0 ==> r matches Err(Error::AttributeFound),
        old_attrs@.len() == 0 && old_stream@.len() == 0 ==> r matches Err(
            Error::EmptyMacroStreamGiven,
        ),
        old_attrs@.len() == 0 && old_stream@.len() > 0 ==> (r matches Err(Error::SynError(_)))
            || exists|p: ParsedFunction| #![trigger expands_to(p, r)] expands_to(p, r),
{
    if old_attrs.len() > 0 {
        return Err(Error::AttributeFound);
    }
    let ghost nonempty = old_stream@.len() > 0;
    let read = grammar::parse(old_stream);
    let ghost function = read;
    let r = match read {
        Ok(ast) => Ok(output::build(ast)),
        Err(e) => Err(e),
    };
    proof {
        if nonempty && !(function matches Err(Error::SynError(_))) {
            let p = choose|p: ParsedFunction|
                #![trigger function_spec(p)]
                function == function_spec(p);
            assert(expands_to(p, r));
        }
    }
    r
}

} // verus!
