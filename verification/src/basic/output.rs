//! The code that basic markup expands to.

use crate::emit::{
    comma_joined, group_e, ident_e, path_v, punct_e, push_group, push_ident, push_path,
    push_punct, push_str, strs_v, vec_macro,
};
use crate::basic::ast::{children_v, lemma_children_v, Attribute, Child, ChildV, Node, NodeV};
use crate::parser::output::lemma_comma_joined_push;
use crate::token::{emitted_v, Delimiter, Emitted, EmittedV};
use vstd::prelude::*;

verus! {

// ----- the generated code, as spec functions of the syntax tree -----

/// `::rsx_core::dom::{item}::{name}`.
pub open spec fn core_path(item: Seq<char>, name: Seq<char>) -> Seq<EmittedV> {
    path_v(seq!["rsx_core"@, "dom"@, item, name])
}

/// `None`, or `Some(vec![None, ...])` with a `None` for each attribute.
pub open spec fn opt_attributes_out(attrs: Option<nat>) -> Seq<EmittedV> {
    match attrs {
        None => seq![ident_e("None"@)],
        Some(n) => seq![
            ident_e("Some"@),
            group_e(
                Delimiter::Parenthesis,
                vec_macro(comma_joined(Seq::new(n, |i: int| seq![ident_e("None"@)]))),
            ),
        ],
    }
}

/// The expression that builds a node.
pub open spec fn node_out(n: NodeV) -> Seq<EmittedV>
    decreases n,
{
    if n.is_self_closing {
        core_path("Node"@, "new_self_closing"@).push(
            group_e(
                Delimiter::Parenthesis,
                seq![EmittedV::Str(n.name), punct_e(',')] + opt_attributes_out(n.attributes),
            ),
        )
    } else {
        core_path("Node"@, "new"@).push(
            group_e(
                Delimiter::Parenthesis,
                seq![EmittedV::Str(n.name), punct_e(',')] + opt_attributes_out(n.attributes)
                    + seq![punct_e(',')] + match n.children {
                    None => seq![ident_e("None"@)],
                    Some(cs) => seq![
                        ident_e("Some"@),
                        group_e(Delimiter::Parenthesis, vec_macro(children_joined(cs))),
                    ],
                },
            ),
        )
    }
}

/// The expression of each child, separated by commas.
pub open spec fn children_joined(cs: Seq<ChildV>) -> Seq<EmittedV>
    decreases cs,
{
    if cs.len() == 0 {
        Seq::empty()
    } else if cs.len() == 1 {
        child_out(cs[0])
    } else {
        children_joined(cs.drop_last()) + seq![punct_e(',')] + child_out(cs.last())
    }
}

/// The expression of a child: text in a `Child::Text`, a node in a
/// `Child::Node`, and the text of code as a string literal.
pub open spec fn child_out(c: ChildV) -> Seq<EmittedV>
    decreases c,
{
    match c {
        ChildV::Text(t) => core_path("Child"@, "Text"@).push(
            group_e(Delimiter::Parenthesis, seq![EmittedV::Str(t)]),
        ),
        ChildV::Code(code) => seq![EmittedV::Str(code)],
        ChildV::Node(n) => core_path("Child"@, "Node"@).push(
            group_e(Delimiter::Parenthesis, node_out(n)),
        ),
    }
}

// ----- generating -----

proof fn lemma_children_joined_push(cs: Seq<ChildV>, c: ChildV)
    ensures
        children_joined(cs.push(c)) == if cs.len() == 0 {
            child_out(c)
        } else {
            children_joined(cs) + seq![punct_e(',')] + child_out(c)
        },
{
    assert(cs.push(c).drop_last() =~= cs);
}

/// Appends `::rsx_core::dom::{item}::{name}`.
fn push_core_path(out: &mut Vec<Emitted>, item: &str, name: &str)
    ensures
        emitted_v(final(out)@) == emitted_v(old(out)@) + core_path(item@, name@),
{
    let segs = ["rsx_core", "dom", item, name];
    push_path(out, segs.as_slice());
    assert(strs_v(segs@) =~= seq!["rsx_core"@, "dom"@, item@, name@]);
}

/// Returns the code that builds a node.
pub fn build(ast: Node) -> (r: Vec<Emitted>)
    ensures
        emitted_v(r@) == node_out(ast.nv()),
{
    let mut out: Vec<Emitted> = Vec::new();
    visit_node(&ast, &mut out);
    assert(emitted_v(out@) =~= Seq::<EmittedV>::empty() + node_out(ast.nv()));
    out
}

fn visit_node(node: &Node, out: &mut Vec<Emitted>)
    ensures
        emitted_v(final(out)@) == emitted_v(old(out)@) + node_out(node.nv()),
    decreases node, 1nat,
{
    if node.is_self_closing {
        visit_node_self_closing(node, out)
    } else {
        visit_node_with_children(node, out)
    }
}

fn visit_node_self_closing(node: &Node, out: &mut Vec<Emitted>)
    requires
        node.is_self_closing,
    ensures
        emitted_v(final(out)@) == emitted_v(old(out)@) + node_out(node.nv()),
{
    let ghost start = emitted_v(out@);
    let mut args: Vec<Emitted> = Vec::new();
    push_str(&mut args, node.name.as_str());
    push_punct(&mut args, ',');
    visit_optional_attributes(&node.attributes, &mut args);
    let ghost nv = node.nv();
    assert(emitted_v(args@) =~= seq![EmittedV::Str(nv.name), punct_e(',')] + opt_attributes_out(
        nv.attributes,
    ));
    push_core_path(out, "Node", "new_self_closing");
    push_group(out, Delimiter::Parenthesis, args);
    assert(emitted_v(out@) =~= start + node_out(nv));
}

fn visit_node_with_children(node: &Node, out: &mut Vec<Emitted>)
    requires
        !node.is_self_closing,
    ensures
        emitted_v(final(out)@) == emitted_v(old(out)@) + node_out(node.nv()),
    decreases node, 0nat,
{
    let ghost start = emitted_v(out@);
    let mut args: Vec<Emitted> = Vec::new();
    push_str(&mut args, node.name.as_str());
    push_punct(&mut args, ',');
    visit_optional_attributes(&node.attributes, &mut args);
    let ghost nv = node.nv();
    push_punct(&mut args, ',');
    visit_optional_children(&node.children, &mut args);
    assert(emitted_v(args@) =~= seq![EmittedV::Str(nv.name), punct_e(',')] + opt_attributes_out(
        nv.attributes,
    ) + seq![punct_e(',')] + match nv.children {
        None => seq![ident_e("None"@)],
        Some(cs) => seq![
            ident_e("Some"@),
            group_e(Delimiter::Parenthesis, vec_macro(children_joined(cs))),
        ],
    });
    push_core_path(out, "Node", "new");
    push_group(out, Delimiter::Parenthesis, args);
    assert(emitted_v(out@) =~= start + node_out(nv));
}

fn visit_optional_attributes(maybe_attributes: &Option<Vec<Attribute>>, out: &mut Vec<Emitted>)
    ensures
        emitted_v(final(out)@) == emitted_v(old(out)@) + opt_attributes_out(
            match *maybe_attributes {
                Some(a) => Some(a@.len()),
                None => None,
            },
        ),
{
    let ghost start = emitted_v(out@);
    match maybe_attributes {
        None => {
            push_ident(out, "None");
            assert(emitted_v(out@) =~= start + seq![ident_e("None"@)]);
        },
        Some(attributes) => {
            push_ident(out, "Some");
            let mut inner: Vec<Emitted> = Vec::new();
            visit_attributes(attributes, &mut inner);
            push_group(out, Delimiter::Parenthesis, inner);
            assert(emitted_v(out@) =~= start + opt_attributes_out(Some(attributes@.len())));
        },
    }
}

fn visit_attributes(attributes: &Vec<Attribute>, out: &mut Vec<Emitted>)
    ensures
        emitted_v(final(out)@) == emitted_v(old(out)@) + vec_macro(
            comma_joined(Seq::new(attributes@.len(), |i: int| seq![ident_e("None"@)])),
        ),
{
    let ghost start = emitted_v(out@);
    let mut inner: Vec<Emitted> = Vec::new();
    let mut i: usize = 0;
    while i < attributes.len()
        invariant
            i <= attributes@.len(),
            emitted_v(inner@) == comma_joined(Seq::new(i as nat, |j: int| seq![ident_e("None"@)])),
        decreases attributes.len() - i,
    {
        let ghost before = emitted_v(inner@);
        let ghost items = Seq::new(i as nat, |j: int| seq![ident_e("None"@)]);
        if i > 0 {
            push_punct(&mut inner, ',');
        }
        visit_attribute(&attributes[i], &mut inner);
        proof {
            lemma_comma_joined_push(items, seq![ident_e("None"@)]);
            assert(Seq::new((i + 1) as nat, |j: int| seq![ident_e("None"@)]) =~= items.push(
                seq![ident_e("None"@)],
            ));
            if i == 0 {
                assert(emitted_v(inner@) =~= seq![ident_e("None"@)]);
            } else {
                assert(emitted_v(inner@) =~= before + seq![punct_e(',')] + seq![ident_e("None"@)]);
            }
        }
        i = i + 1;
    }
    push_ident(out, "vec");
    push_punct(out, '!');
    push_group(out, Delimiter::Bracket, inner);
    assert(emitted_v(out@) =~= start + vec_macro(
        comma_joined(Seq::new(attributes@.len(), |i: int| seq![ident_e("None"@)])),
    ));
}

/// An attribute's code is `None`, whatever the attribute.
fn visit_attribute(attribute: &Attribute, out: &mut Vec<Emitted>)
    ensures
        emitted_v(final(out)@) == emitted_v(old(out)@).push(ident_e("None"@)),
{
    push_ident(out, "None");
}

fn visit_optional_children(maybe_children: &Option<Vec<Child>>, out: &mut Vec<Emitted>)
    ensures
        emitted_v(final(out)@) == emitted_v(old(out)@) + match *maybe_children {
            None => seq![ident_e("None"@)],
            Some(cs) => seq![
                ident_e("Some"@),
                group_e(Delimiter::Parenthesis, vec_macro(children_joined(children_v(cs@)))),
            ],
        },
    decreases maybe_children, 0nat,
{
    let ghost start = emitted_v(out@);
    match maybe_children {
        None => {
            push_ident(out, "None");
            assert(emitted_v(out@) =~= start + seq![ident_e("None"@)]);
        },
        Some(children) => {
            push_ident(out, "Some");
            let mut inner: Vec<Emitted> = Vec::new();
            visit_children(children, &mut inner);
            push_group(out, Delimiter::Parenthesis, inner);
            assert(emitted_v(out@) =~= start + seq![
                ident_e("Some"@),
                group_e(Delimiter::Parenthesis, vec_macro(children_joined(children_v(children@)))),
            ]);
        },
    }
}

fn visit_children(children: &Vec<Child>, out: &mut Vec<Emitted>)
    ensures
        emitted_v(final(out)@) == emitted_v(old(out)@) + vec_macro(
            children_joined(children_v(children@)),
        ),
    decreases children, 0nat,
{
    let ghost start = emitted_v(out@);
    let mut inner: Vec<Emitted> = Vec::new();
    let mut i: usize = 0;
    while i < children.len()
        invariant
            i <= children@.len(),
            emitted_v(inner@) == children_joined(children_v(children@.take(i as int))),
        decreases children.len() - i,
    {
        let ghost before = emitted_v(inner@);
        if i > 0 {
            push_punct(&mut inner, ',');
        }
        visit_child(&children[i], &mut inner);
        proof {
            let c = children@[i as int];
            assert(children@.take(i + 1) =~= children@.take(i as int).push(c));
            assert(children@.take(i as int).push(c).drop_last() =~= children@.take(i as int));
            lemma_children_v(children@.take(i as int));
            lemma_children_joined_push(children_v(children@.take(i as int)), c.cv());
            if i == 0 {
                assert(emitted_v(inner@) =~= child_out(c.cv()));
            } else {
                assert(emitted_v(inner@) =~= before + seq![punct_e(',')] + child_out(c.cv()));
            }
        }
        i = i + 1;
    }
    assert(children@.take(children@.len() as int) =~= children@);
    push_ident(out, "vec");
    push_punct(out, '!');
    push_group(out, Delimiter::Bracket, inner);
    assert(emitted_v(out@) =~= start + vec_macro(children_joined(children_v(children@))));
}

fn visit_child(child: &Child, out: &mut Vec<Emitted>)
    ensures
        emitted_v(final(out)@) == emitted_v(old(out)@) + child_out(child.cv()),
    decreases child, 0nat,
{
    let ghost start = emitted_v(out@);
    match child {
        Child::Text(text) => {
            push_core_path(out, "Child", "Text");
            let mut args: Vec<Emitted> = Vec::new();
            push_str(&mut args, text.as_str());
            push_group(out, Delimiter::Parenthesis, args);
            assert(emitted_v(out@) =~= start + child_out(child.cv()));
        },
        Child::Code(code) => {
            push_str(out, code.as_str());
            assert(emitted_v(out@) =~= start + child_out(child.cv()));
        },
        Child::Node(node) => {
            push_core_path(out, "Child", "Node");
            let mut args: Vec<Emitted> = Vec::new();
            visit_node(node, &mut args);
            push_group(out, Delimiter::Parenthesis, args);
            assert(emitted_v(args@) =~= node_out(node.nv()));
            assert(emitted_v(out@) =~= start + child_out(child.cv()));
        },
    }
}

} // verus!
