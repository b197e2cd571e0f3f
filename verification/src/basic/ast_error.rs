//! Errors of the basic grammar.

use crate::parser::grammar::token_iterator::TokenIteratorError;
use vstd::prelude::*;

verus! {

/// Why markup could not be read.
#[derive(Clone, Copy, Debug, PartialEq, Eq, Structural)]
pub enum ASTError {
    UnexpectedInput,
    UnexpectedToken,
    ExcessNodesFound,
    PeekOnEmptyNode,
    ChompOnEmptyNode,
    MismatchedTagName,
    /// Writing to a string failed.
    FmtError,
}

/// A result of the basic grammar.
pub type Result<N> = core::result::Result<N, ASTError>;

/// The grammar error that a cursor error stands for.
pub open spec fn ast_error_of(err: TokenIteratorError) -> ASTError {
    match err {
        TokenIteratorError::ChompOnEmptyNode => ASTError::ChompOnEmptyNode,
        TokenIteratorError::UnexpectedToken => ASTError::UnexpectedToken,
    }
}

impl From<TokenIteratorError> for ASTError {
    fn from(err: TokenIteratorError) -> (r: Self)
        ensures
            r == ast_error_of(err),
    {
        match err {
            TokenIteratorError::ChompOnEmptyNode => ASTError::ChompOnEmptyNode,
            TokenIteratorError::UnexpectedToken => ASTError::UnexpectedToken,
        }
    }
}

impl vstd::std_specs::convert::FromSpecImpl<TokenIteratorError> for ASTError {
    open spec fn obeys_from_spec() -> bool {
        true
    }

    open spec fn from_spec(v: TokenIteratorError) -> Self {
        ast_error_of(v)
    }
}

impl From<std::fmt::Error> for ASTError {
    fn from(err: std::fmt::Error) -> (r: Self)
        ensures
            r == ASTError::FmtError,
    {
        ASTError::FmtError
    }
}

impl vstd::std_specs::convert::FromSpecImpl<std::fmt::Error> for ASTError {
    open spec fn obeys_from_spec() -> bool {
        true
    }

    open spec fn from_spec(v: std::fmt::Error) -> Self {
        ASTError::FmtError
    }
}

} // verus!
