//! Errors of the component macro.

use vstd::prelude::*;

verus! {

/// Why a function could not be made a component.
#[derive(Debug)]
pub enum Error {
    NoReturnType,
    ExtraParametersFound,
    SelfArgUnsupported,
    AttributeFound,
    EmptyMacroStreamGiven,
    /// The function could not be read; the message of the parse error.
    SynError(String),
}

/// A result of the component macro.
pub type Result<N> = core::result::Result<N, Error>;

} // verus!
