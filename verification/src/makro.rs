//! The messages that the macros report errors with.

use crate::component::error::Error as ComponentError;
use crate::parser::rsx::error::Error as RsxError;
use crate::text::push_text;
use vstd::prelude::*;

verus! {

/// The message of a markup error.
pub open spec fn rsx_error_message(err: RsxError) -> Seq<char> {
    match err {
        RsxError::MismatchedClosingTagCode => "Mismatched closing code, note you can use `</{}>` for simplicity."@,
        RsxError::MismatchedClosingTagName => "Open and closing tag names don't match"@,
        RsxError::ExpectedName => "Internal error; expected parsing a name (this should never be visible)"@,
        RsxError::EmptyMacroStreamGiven => "Empty rsx given"@,
        RsxError::UnexpectedStartingInput => "HTML doesn't start with a node"@,
        RsxError::UnexpectedToken => "Unexpect token"@,
        RsxError::ExcessNodesFound => "Excess html found after the initial html"@,
        RsxError::MoreTokensExpected => "Expected more tokens; could be missing a closing tag?"@,
        RsxError::PeekOnEmptyNode => "Internal error; peeked on an empty node (this should never be visible)"@,
        RsxError::ChompOnEmptyNode => "Internal error; chomped on an empty node (this should never be visible)"@,
        RsxError::FmtError => "Internal error; failed writing to string (this should never be visible), an error occurred when formatting an argument"@,
    }
}

/// Returns the message that a markup error is reported with.
pub fn display_rsx_error(err: &RsxError) -> (r: &'static str)
    ensures
        r@ == rsx_error_message(*err),
{
    match err {
        RsxError::MismatchedClosingTagCode => "Mismatched closing code, note you can use `</{}>` for simplicity.",
        RsxError::MismatchedClosingTagName => "Open and closing tag names don't match",
        RsxError::ExpectedName => "Internal error; expected parsing a name (this should never be visible)",
        RsxError::EmptyMacroStreamGiven => "Empty rsx given",
        RsxError::UnexpectedStartingInput => "HTML doesn't start with a node",
        RsxError::UnexpectedToken => "Unexpect token",
        RsxError::ExcessNodesFound => "Excess html found after the initial html",
        RsxError::MoreTokensExpected => "Expected more tokens; could be missing a closing tag?",
        RsxError::PeekOnEmptyNode => "Internal error; peeked on an empty node (this should never be visible)",
        RsxError::ChompOnEmptyNode => "Internal error; chomped on an empty node (this should never be visible)",
        RsxError::FmtError => "Internal error; failed writing to string (this should never be visible), an error occurred when formatting an argument",
    }
}

/// The message of a component error; a parse error keeps its own message.
pub open spec fn component_error_message(err: ComponentError) -> Seq<char> {
    match err {
        ComponentError::AttributeFound => "Component macro does not support any attributes; use `#[component]` on it's own."@,
        ComponentError::EmptyMacroStreamGiven => "Empty rsx given"@,
        ComponentError::NoReturnType => "Component function has no return type"@,
        ComponentError::ExtraParametersFound => "Component function takes more than one parameter"@,
        ComponentError::SelfArgUnsupported => "Component function cannot take `self`"@,
        ComponentError::SynError(message) => message@,
    }
}

/// Returns the message that a component error is reported with.
pub fn display_component_error(err: &ComponentError) -> (r: String)
    ensures
        r@ == component_error_message(*err),
{
    let mut message = String::new();
    match err {
        ComponentError::AttributeFound => push_text(
            &mut message,
            "Component macro does not support any attributes; use `#[component]` on it's own.",
        ),
        ComponentError::EmptyMacroStreamGiven => push_text(&mut message, "Empty rsx given"),
        ComponentError::NoReturnType => push_text(
            &mut message,
            "Component function has no return type",
        ),
        ComponentError::ExtraParametersFound => push_text(
            &mut message,
            "Component function takes more than one parameter",
        ),
        ComponentError::SelfArgUnsupported => push_text(
            &mut message,
            "Component function cannot take `self`",
        ),
        ComponentError::SynError(text) => push_text(&mut message, text.as_str()),
    }
    assert(message@ =~= component_error_message(*err));
    message
}

} // verus!
