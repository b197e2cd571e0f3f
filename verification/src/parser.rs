//! The RSX grammar, its syntax trees and the code generated from them.

pub mod token_stream;
pub mod token_stream_compare;
pub mod grammar;
pub mod ast;
pub mod rsx;
pub mod error;
pub mod output;

use crate::parser::grammar::parse_spec;
use crate::parser::output::{code_free, node_out};
use crate::token::{emitted_v, tokens_v, tokens_wf, Emitted, EmittedV, Token};
use vstd::prelude::*;

verus! {

/// Parses markup and returns the code that builds its `dom` node.
pub fn parse(old_stream: Vec<Token>) -> (r: error::Result<Vec<Emitted>>)
    requires
        tokens_wf(tokens_v(old_stream@)),
        parse_spec(tokens_v(old_stream@)) matches Ok(n) ==> code_free(n),
    ensures
        match parse_spec(tokens_v(old_stream@)) {
            Ok(n) => r matches Ok(x) && emitted_v(x@) == node_out(n),
            Err(e) => r matches Err(f) && f == e,
        },
{
    let ast = match grammar::parse(old_stream) {
        Ok(a) => a,
        Err(e) => return Err(e),
    };
    Ok(output::build(ast))
}

} // verus!
