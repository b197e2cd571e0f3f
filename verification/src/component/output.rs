//! The code a component function expands to: a unit struct named after the
//! function, callable with its props, and its `Component` impl.

use crate::component::ast::{Function, Props};
use crate::emit::{
    group_e, ident_e, path_v, punct_e, push_group, push_ident, push_joint, push_literal,
    push_path, push_punct, push_source, strs_v,
};
use crate::token::{emitted_v, Delimiter, Emitted, EmittedV, Spacing};
use vstd::prelude::*;

verus! {

// ----- the generated code, as spec functions of the function -----

/// Code given by its source text.
pub open spec fn source_e(s: Seq<char>) -> EmittedV {
    EmittedV::Source(s)
}

/// `()`.
pub open spec fn unit_e() -> EmittedV {
    group_e(Delimiter::Parenthesis, Seq::empty())
}

/// Each attribute, by its source text.
pub open spec fn attributes_out(attributes: Seq<String>) -> Seq<EmittedV> {
    attributes.map_values(|a: String| source_e(a@))
}

/// The pattern of the arguments tuple: `_`, or `attributes (pattern,)`.
pub open spec fn args_patterns_out(props: Option<Props>) -> Seq<EmittedV> {
    match props {
        None => seq![ident_e("_"@)],
        Some(p) => attributes_out(p.attributes@) + seq![
            group_e(Delimiter::Parenthesis, seq![source_e(p.pattern@), punct_e(',')]),
        ],
    }
}

/// The type of the arguments tuple: `()`, or `(item_type,)`.
pub open spec fn args_types_out(props: Option<Props>) -> Seq<EmittedV> {
    match props {
        None => seq![unit_e()],
        Some(p) => seq![
            group_e(Delimiter::Parenthesis, seq![source_e(p.item_type@), punct_e(',')]),
        ],
    }
}

/// The props type: `()`, or the parameter's type.
pub open spec fn props_type_out(props: Option<Props>) -> Seq<EmittedV> {
    match props {
        None => seq![unit_e()],
        Some(p) => seq![source_e(p.item_type@)],
    }
}

/// `const`, `async` and `unsafe`, for those the function has.
pub open spec fn modifiers_out(f: Function) -> Seq<EmittedV> {
    (if f.constness {
        seq![ident_e("const"@)]
    } else {
        Seq::empty()
    }) + (if f.asyncness {
        seq![ident_e("async"@)]
    } else {
        Seq::empty()
    }) + (if f.unsafety {
        seq![ident_e("unsafe"@)]
    } else {
        Seq::empty()
    })
}

/// `#[allow(non_snake_case)]`.
pub open spec fn allow_out() -> Seq<EmittedV> {
    seq![
        punct_e('#'),
        group_e(
            Delimiter::Bracket,
            seq![
                ident_e("allow"@),
                group_e(Delimiter::Parenthesis, seq![ident_e("non_snake_case"@)]),
            ],
        ),
    ]
}

/// The body of the `FnOnce` impl.
pub open spec fn call_once_out(f: Function) -> Seq<EmittedV> {
    seq![
        ident_e("type"@),
        ident_e("Output"@),
        punct_e('='),
        source_e(f.return_type@),
        punct_e(';'),
    ] + modifiers_out(f) + seq![
        ident_e("extern"@),
        EmittedV::Literal("\"rust-call\""@),
        ident_e("fn"@),
        ident_e("call_once"@),
        group_e(
            Delimiter::Parenthesis,
            seq![ident_e("self"@), punct_e(',')] + args_patterns_out(f.props) + seq![punct_e(':')]
                + args_types_out(f.props),
        ),
        EmittedV::Punct('-', Spacing::Joint),
        punct_e('>'),
        source_e(f.return_type@),
        source_e(f.code@),
    ]
}

/// What a component function expands to:
///
/// ```text
/// #[allow(non_snake_case)]
/// visibility struct Name;
/// impl FnOnce<args_types> for Name {
///     type Output = return_type;
///     modifiers extern "rust-call" fn call_once(self, args_patterns: args_types) -> return_type code
/// }
/// impl ::renderx::Component for Name { type Props = props_type; }
/// ```
pub open spec fn function_out(f: Function) -> Seq<EmittedV> {
    allow_out() + seq![
        source_e(f.visibility@),
        ident_e("struct"@),
        ident_e(f.name@),
        punct_e(';'),
        ident_e("impl"@),
        ident_e("FnOnce"@),
        punct_e('<'),
    ] + args_types_out(f.props) + seq![
        punct_e('>'),
        ident_e("for"@),
        ident_e(f.name@),
        group_e(Delimiter::Brace, call_once_out(f)),
        ident_e("impl"@),
    ] + path_v(seq!["renderx"@, "Component"@]) + seq![
        ident_e("for"@),
        ident_e(f.name@),
        group_e(
            Delimiter::Brace,
            seq![ident_e("type"@), ident_e("Props"@), punct_e('=')] + props_type_out(f.props)
                + seq![punct_e(';')],
        ),
    ]
}

// ----- generating -----

/// Returns the code a component function expands to.
pub fn build(ast: Function) -> (r: Vec<Emitted>)
    ensures
        emitted_v(r@) == function_out(ast),
{
    visit_function(&ast)
}

fn visit_function(f: &Function) -> (r: Vec<Emitted>)
    ensures
        emitted_v(r@) == function_out(*f),
{
    let mut out: Vec<Emitted> = Vec::new();
    // #[allow(non_snake_case)]
    push_punct(&mut out, '#');
    let mut allow: Vec<Emitted> = Vec::new();
    push_ident(&mut allow, "allow");
    let mut lint: Vec<Emitted> = Vec::new();
    push_ident(&mut lint, "non_snake_case");
    assert(emitted_v(lint@) =~= seq![ident_e("non_snake_case"@)]);
    push_group(&mut allow, Delimiter::Parenthesis, lint);
    assert(emitted_v(allow@) =~= seq![
        ident_e("allow"@),
        group_e(Delimiter::Parenthesis, seq![ident_e("non_snake_case"@)]),
    ]);
    push_group(&mut out, Delimiter::Bracket, allow);
    assert(emitted_v(out@) =~= allow_out());
    // visibility struct Name;
    push_source(&mut out, f.visibility.as_str());
    push_ident(&mut out, "struct");
    push_ident(&mut out, f.name.as_str());
    push_punct(&mut out, ';');
    // impl FnOnce<args_types> for Name { ... }
    push_ident(&mut out, "impl");
    push_ident(&mut out, "FnOnce");
    push_punct(&mut out, '<');
    visit_args_types(&f.props, &mut out);
    push_punct(&mut out, '>');
    push_ident(&mut out, "for");
    push_ident(&mut out, f.name.as_str());
    let body = visit_call_once(f);
    push_group(&mut out, Delimiter::Brace, body);
    // impl ::renderx::Component for Name { type Props = props_type; }
    push_ident(&mut out, "impl");
    let segs = ["renderx", "Component"];
    push_path(&mut out, segs.as_slice());
    assert(strs_v(segs@) =~= seq!["renderx"@, "Component"@]);
    push_ident(&mut out, "for");
    push_ident(&mut out, f.name.as_str());
    let mut props: Vec<Emitted> = Vec::new();
    push_ident(&mut props, "type");
    push_ident(&mut props, "Props");
    push_punct(&mut props, '=');
    visit_props_type(&f.props, &mut props);
    push_punct(&mut props, ';');
    assert(emitted_v(props@) =~= seq![ident_e("type"@), ident_e("Props"@), punct_e('=')]
        + props_type_out(f.props) + seq![punct_e(';')]);
    push_group(&mut out, Delimiter::Brace, props);
    assert(emitted_v(out@) =~= function_out(*f));
    out
}

/// The body of the `FnOnce` impl.
fn visit_call_once(f: &Function) -> (r: Vec<Emitted>)
    ensures
        emitted_v(r@) == call_once_out(*f),
{
    let mut out: Vec<Emitted> = Vec::new();
    push_ident(&mut out, "type");
    push_ident(&mut out, "Output");
    push_punct(&mut out, '=');
    push_source(&mut out, f.return_type.as_str());
    push_punct(&mut out, ';');
    let ghost before_modifiers = emitted_v(out@);
    assert(before_modifiers =~= seq![
        ident_e("type"@),
        ident_e("Output"@),
        punct_e('='),
        source_e(f.return_type@),
        punct_e(';'),
    ]);
    visit_modifiers(f, &mut out);
    let mut params: Vec<Emitted> = Vec::new();
    push_ident(&mut params, "self");
    push_punct(&mut params, ',');
    visit_args_patterns(&f.props, &mut params);
    push_punct(&mut params, ':');
    visit_args_types(&f.props, &mut params);
    assert(emitted_v(params@) =~= seq![ident_e("self"@), punct_e(',')] + args_patterns_out(f.props)
        + seq![punct_e(':')] + args_types_out(f.props));
    let mut tail: Vec<Emitted> = Vec::new();
    push_ident(&mut tail, "extern");
    push_literal(&mut tail, "\"rust-call\"");
    push_ident(&mut tail, "fn");
    push_ident(&mut tail, "call_once");
    push_group(&mut tail, Delimiter::Parenthesis, params);
    push_joint(&mut tail, '-');
    push_punct(&mut tail, '>');
    push_source(&mut tail, f.return_type.as_str());
    push_source(&mut tail, f.code.as_str());
    let ghost t = emitted_v(tail@);
    crate::emit::push_all(&mut out, tail);
    assert(emitted_v(out@) =~= before_modifiers + modifiers_out(*f) + t);
    assert(emitted_v(out@) =~= call_once_out(*f));
    out
}

/// Appends `const`, `async` and `unsafe`, for those the function has.
fn visit_modifiers(f: &Function, out: &mut Vec<Emitted>)
    ensures
        emitted_v(final(out)@) == emitted_v(old(out)@) + modifiers_out(*f),
{
    let ghost start = emitted_v(out@);
    if f.constness {
        push_ident(out, "const");
    }
    if f.asyncness {
        push_ident(out, "async");
    }
    if f.unsafety {
        push_ident(out, "unsafe");
    }
    assert(emitted_v(out@) =~= start + modifiers_out(*f));
}

/// Appends the pattern of the arguments tuple.
fn visit_args_patterns(maybe_props: &Option<Props>, out: &mut Vec<Emitted>)
    ensures
        emitted_v(final(out)@) == emitted_v(old(out)@) + args_patterns_out(*maybe_props),
{
    let ghost start = emitted_v(out@);
    match maybe_props {
        None => {
            push_ident(out, "_");
            assert(emitted_v(out@) =~= start + args_patterns_out(*maybe_props));
        },
        Some(props) => {
            let mut i: usize = 0;
            while i < props.attributes.len()
                invariant
                    i <= props.attributes@.len(),
                    emitted_v(out@) == start + attributes_out(props.attributes@.take(i as int)),
                decreases props.attributes.len() - i,
            {
                push_source(out, props.attributes[i].as_str());
                assert(attributes_out(props.attributes@.take(i + 1)) =~= attributes_out(
                    props.attributes@.take(i as int),
                ).push(source_e(props.attributes@[i as int]@)));
                assert(emitted_v(out@) =~= start + attributes_out(props.attributes@.take(i + 1)));
                i = i + 1;
            }
            assert(props.attributes@.take(props.attributes@.len() as int) =~= props.attributes@);
            let mut tuple: Vec<Emitted> = Vec::new();
            push_source(&mut tuple, props.pattern.as_str());
            push_punct(&mut tuple, ',');
            assert(emitted_v(tuple@) =~= seq![source_e(props.pattern@), punct_e(',')]);
            push_group(out, Delimiter::Parenthesis, tuple);
            assert(emitted_v(out@) =~= start + args_patterns_out(*maybe_props));
        },
    }
}

/// Appends the type of the arguments tuple.
fn visit_args_types(maybe_props: &Option<Props>, out: &mut Vec<Emitted>)
    ensures
        emitted_v(final(out)@) == emitted_v(old(out)@) + args_types_out(*maybe_props),
{
    let ghost start = emitted_v(out@);
    let mut tuple: Vec<Emitted> = Vec::new();
    match maybe_props {
        None => {},
        Some(props) => {
            push_source(&mut tuple, props.item_type.as_str());
            push_punct(&mut tuple, ',');
        },
    }
    assert(emitted_v(tuple@) =~= match *maybe_props {
        None => Seq::<EmittedV>::empty(),
        Some(p) => seq![source_e(p.item_type@), punct_e(',')],
    });
    push_group(out, Delimiter::Parenthesis, tuple);
    assert(emitted_v(out@) =~= start + args_types_out(*maybe_props));
}

/// Appends the props type.
fn visit_props_type(maybe_props: &Option<Props>, out: &mut Vec<Emitted>)
    ensures
        emitted_v(final(out)@) == emitted_v(old(out)@) + props_type_out(*maybe_props),
{
    let ghost start = emitted_v(out@);
    match maybe_props {
        None => {
            let unit: Vec<Emitted> = Vec::new();
            assert(emitted_v(unit@) =~= Seq::<EmittedV>::empty());
            push_group(out, Delimiter::Parenthesis, unit);
        },
        Some(props) => {
            push_source(out, props.item_type.as_str());
        },
    }
    assert(emitted_v(out@) =~= start + props_type_out(*maybe_props));
}

} // verus!
