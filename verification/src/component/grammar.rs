//! Reading a component function: a function with a return type and at most
//! one typed parameter, its props.

use crate::component::ast::{Function, Props};
use crate::component::error::{Error, Result};
use crate::token::{source_text, Token};
use quote::ToTokens;
use syn::punctuated::Punctuated;
use syn::token::Comma;
use syn::FnArg;
use vstd::prelude::*;

verus! {

/// A function item as `syn` reads it: each piece of syntax by its source
/// text.
pub struct ParsedFunction {
    pub visibility: String,
    pub constness: bool,
    pub asyncness: bool,
    pub unsafety: bool,
    pub name: String,
    /// The return type, if the function declares one.
    pub output: Option<String>,
    pub inputs: Vec<ParsedArgument>,
    pub block: String,
}

/// A function parameter as `syn` reads it.
pub enum ParsedArgument {
    /// A `self` parameter.
    Receiver,
    /// A parameter with a pattern and a type.
    Typed { attributes: Vec<String>, pattern: String, item_type: String },
}

/// The props that the one parameter `arg` of a component gives.
pub open spec fn props_of_spec(arg: ParsedArgument) -> Result<Option<Props>> {
    match arg {
        ParsedArgument::Receiver => Err(Error::SelfArgUnsupported),
        ParsedArgument::Typed { attributes, pattern, item_type } => Ok(
            Some(Props { attributes, pattern, item_type }),
        ),
    }
}

/// The props of a component with the parameters `inputs`.
pub open spec fn props_spec(inputs: Seq<ParsedArgument>) -> Result<Option<Props>> {
    if inputs.len() == 0 {
        Ok(None)
    } else if inputs.len() > 1 {
        Err(Error::ExtraParametersFound)
    } else {
        props_of_spec(inputs[0])
    }
}

/// The component function that a parsed function item makes.
pub open spec fn function_spec(p: ParsedFunction) -> Result<Function> {
    match p.output {
        None => Err(Error::NoReturnType),
        Some(return_type) => match props_spec(p.inputs@) {
            Err(e) => Err(e),
            Ok(props) => Ok(
                Function {
                    visibility: p.visibility,
                    constness: p.constness,
                    asyncness: p.asyncness,
                    unsafety: p.unsafety,
                    name: p.name,
                    props,
                    return_type,
                    code: p.block,
                },
            ),
        },
    }
}

/// A function item as `syn` reads it, before its parameters are read: each
/// other piece of syntax by its source text.
struct ItemFnParts {
    visibility: String,
    constness: bool,
    asyncness: bool,
    unsafety: bool,
    name: String,
    output: Option<String>,
    inputs: Punctuated<FnArg, Comma>,
    block: String,
}

/// For each parameter that `inputs` holds, in order, whether it is `self`.
pub uninterp spec fn receivers(inputs: Punctuated<FnArg, Comma>) -> Seq<bool>;

/// Parses source text as a function item.
///
/// Trusted: wraps `syn::parse_str::<syn::ItemFn>`; a parse error comes back
/// as its message. Nothing is stated of the result: `proc_macro2` lexes the
/// text with the compiler's lexer inside a procedural macro and with its own
/// lexer elsewhere, and the two differ (identifiers are normalised by one
/// only, and they refuse different texts), and the source texts of the
/// visibility, return type and block are printed differently too.
#[verifier::external_body]
fn parse_item_fn(source: &str) -> (r: core::result::Result<ItemFnParts, String>)
{
    let f = syn::parse_str::<syn::ItemFn>(source).map_err(|e| e.to_string())?;
    let output = match f.sig.output {
        syn::ReturnType::Default => None,
        syn::ReturnType::Type(_, t) => Some(t.to_token_stream().to_string()),
    };
    Ok(ItemFnParts {
        visibility: f.vis.to_token_stream().to_string(),
        constness: f.sig.constness.is_some(),
        asyncness: f.sig.asyncness.is_some(),
        unsafety: matches!(f.sig.safety, syn::Safety::Unsafe(_)),
        name: f.sig.ident.to_string(),
        output,
        inputs: f.sig.inputs,
        block: f.block.to_token_stream().to_string(),
    })
}

/// Reads the parameters of a function item, in order.
///
/// Trusted: walks `syn::punctuated::Punctuated::iter`, tells the two
/// variants of `syn::FnArg` apart and prints the attributes, pattern and
/// type of a typed parameter with `proc_macro2`. The contract says which
/// parameters are `self`; the printed texts are left unsaid, as above.
#[verifier::external_body]
fn arguments_of(inputs: Punctuated<FnArg, Comma>) -> (r: Vec<ParsedArgument>)
    ensures
        r@.map_values(|a: ParsedArgument| a is Receiver) == receivers(inputs),
{
    let text = |t: &dyn ToTokens| t.to_token_stream().to_string();
    let argument = |a: &FnArg| match a {
        FnArg::Receiver(_) => ParsedArgument::Receiver,
        FnArg::Typed(p) => ParsedArgument::Typed {
            attributes: p.attrs.iter().map(|x| text(x)).collect(),
            pattern: text(&p.pat),
            item_type: text(&p.ty),
        },
    };
    inputs.iter().map(argument).collect()
}

/// The props of a component whose one parameter is `arg`: a `self`
/// parameter is refused.
pub fn props_of(arg: ParsedArgument) -> (r: Result<Option<Props>>)
    ensures
        r == props_of_spec(arg),
{
    match arg {
        ParsedArgument::Receiver => Err(Error::SelfArgUnsupported),
        ParsedArgument::Typed { attributes, pattern, item_type } => Ok(
            Some(Props { attributes, pattern, item_type }),
        ),
    }
}

/// Reads the props of a component from its parameters: none, or exactly one.
fn parse_props(input: Vec<ParsedArgument>) -> (r: Result<Option<Props>>)
    ensures
        r == props_spec(input@),
{
    if input.len() == 0 {
        return Ok(None);
    }
    if input.len() > 1 {
        return Err(Error::ExtraParametersFound);
    }
    let mut input = input;
    match input.pop() {
        Some(fn_arg) => props_of(fn_arg),
        None => Ok(None),
    }
}

/// The component function of a parsed function item: it must declare a
/// return type and have at most one parameter, which is not `self`; that
/// parameter becomes its props.
pub fn function_of(parsed: ParsedFunction) -> (r: Result<Function>)
    ensures
        r == function_spec(parsed),
{
    let ParsedFunction {
        visibility,
        constness,
        asyncness,
        unsafety,
        name,
        output,
        inputs,
        block,
    } = parsed;
    let return_type = match output {
        None => {
            return Err(Error::NoReturnType);
        },
        Some(r_type) => r_type,
    };
    let props = match parse_props(inputs) {
        Ok(p) => p,
        Err(e) => return Err(e),
    };
    Ok(
        Function {
            visibility,
            constness,
            asyncness,
            unsafety,
            name,
            props,
            return_type,
            code: block,
        },
    )
}

/// Reads a component function from its tokens: the function item that `syn`
/// reads from their source text, with its one typed parameter, if any, as
/// its props. Which item that is rests on the lexer that `proc_macro2` uses,
/// so what is stated is what holds of every outcome: a `syn` error, or the
/// component function of some parsed function item (see `function_of`).
pub fn parse(stream: Vec<Token>) -> (r: Result<Function>)
    ensures
        stream@.len() == 0 ==> r matches Err(Error::EmptyMacroStreamGiven),
        stream@.len() > 0 ==> (r matches Err(Error::SynError(_))) || exists|p: ParsedFunction|
            #![trigger function_spec(p)]
            r == function_spec(p),
{
    if stream.len() == 0 {
        return Err(Error::EmptyMacroStreamGiven);
    }
    let source = source_text(&stream);
    let parts = match parse_item_fn(source.as_str()) {
        Ok(p) => p,
        Err(e) => return Err(Error::SynError(e)),
    };
    let ItemFnParts { visibility, constness, asyncness, unsafety, name, output, inputs, block } =
        parts;
    let parsed = ParsedFunction {
        visibility,
        constness,
        asyncness,
        unsafety,
        name,
        output,
        inputs: arguments_of(inputs),
        block,
    };
    let ghost read = parsed;
    let r = function_of(parsed);
    assert(r == function_spec(read));
    r
}

} // verus!
