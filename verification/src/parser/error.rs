//! Errors of the markup grammar.

use crate::parser::grammar::token_iterator::TokenIteratorError;
use vstd::prelude::*;

verus! {

/// Why markup could not be parsed.
#[derive(Clone, Copy, Debug, PartialEq, Eq, Structural)]
pub enum Error {
    EmptyMacroStreamGiven,
    UnexpectedStartingInput,
    UnexpectedToken,
    ExcessNodesFound,
    PeekOnEmptyNode,
    MoreTokensExpected,
    ChompOnEmptyNode,
    MismatchedTagName,
    /// Writing to a string failed.
    FmtError,
}

/// A result of the markup grammar.
pub type Result<N> = core::result::Result<N, Error>;

/// The grammar error that a cursor error stands for.
pub open spec fn from_iter_error(err: TokenIteratorError) -> Error {
    match err {
        TokenIteratorError::ChompOnEmptyNode => Error::ChompOnEmptyNode,
        TokenIteratorError::UnexpectedToken => Error::UnexpectedToken,
    }
}

impl From<TokenIteratorError> for Error {
    fn from(err: TokenIteratorError) -> (r: Self)
        ensures
            r == from_iter_error(err),
    {
        match err {
            TokenIteratorError::ChompOnEmptyNode => Error::ChompOnEmptyNode,
            TokenIteratorError::UnexpectedToken => Error::UnexpectedToken,
        }
    }
}

impl vstd::std_specs::convert::FromSpecImpl<TokenIteratorError> for Error {
    open spec fn obeys_from_spec() -> bool {
        true
    }

    open spec fn from_spec(v: TokenIteratorError) -> Self {
        from_iter_error(v)
    }
}

} // verus!
