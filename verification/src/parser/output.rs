//! The code that markup expands to: expressions that build a `dom` node.

use crate::emit::{
    comma_joined, group_e, ident_e, path_v, punct_e, push_carried, push_group, push_ident,
    push_path, push_punct, push_str, strs_v, vec_macro,
};
use crate::parser::ast::value::ValueV;
use crate::parser::ast::{
    attributes_v, lemma_nodes_v_push, nodes_v, Attribute, AttributeV, AttributeValue, Node, NodeV,
};
use crate::token::{carried_seq, emitted_v, Delimiter, Emitted, EmittedV};
use vstd::prelude::*;

verus! {

// ----- the generated code, as spec functions of the syntax tree -----

/// `::renderx::dom::{item}::{name}`.
pub open spec fn dom_path(item: Seq<char>, name: Seq<char>) -> Seq<EmittedV> {
    path_v(seq!["renderx"@, "dom"@, item, name])
}

/// A string literal whose value is `s`.
pub open spec fn str_e(s: Seq<char>) -> EmittedV {
    EmittedV::Str(s)
}

/// `field: value,` of a struct expression, the comma left out for the last field.
pub open spec fn field_e(name: Seq<char>, value: Seq<EmittedV>) -> Seq<EmittedV> {
    seq![ident_e(name), punct_e(':')] + value
}

/// The code of an attribute value: a string literal, or the code as it is.
pub open spec fn attribute_value_out(v: ValueV) -> Seq<EmittedV> {
    match v {
        ValueV::Text(t) => seq![str_e(t)],
        ValueV::Code(c) => carried_seq(c),
    }
}

/// `::renderx::dom::Attribute::new(key, None)` or `...(key, Some(value))`.
pub open spec fn attribute_out(a: AttributeV) -> Seq<EmittedV> {
    dom_path("Attribute"@, "new"@).push(
        group_e(
            Delimiter::Parenthesis,
            seq![str_e(a.key), punct_e(',')] + match a.value {
                None => seq![ident_e("None"@)],
                Some(v) => seq![
                    ident_e("Some"@),
                    group_e(Delimiter::Parenthesis, attribute_value_out(v)),
                ],
            },
        ),
    )
}

/// The code of each attribute, separated by commas.
pub open spec fn attributes_joined(attrs: Seq<AttributeV>) -> Seq<EmittedV> {
    comma_joined(attrs.map_values(|a: AttributeV| attribute_out(a)))
}

/// `None`, or `Some(vec![attributes])`.
pub open spec fn opt_attributes_out(attrs: Option<Seq<AttributeV>>) -> Seq<EmittedV> {
    match attrs {
        None => seq![ident_e("None"@)],
        Some(a) => seq![
            ident_e("Some"@),
            group_e(Delimiter::Parenthesis, vec_macro(attributes_joined(a))),
        ],
    }
}

/// Markup has no code where a node stands, at any depth (code is only
/// generated for attribute values).
pub open spec fn code_free(n: NodeV) -> bool
    decreases n,
{
    match n {
        NodeV::Code(_) => false,
        NodeV::Comment { children: Some(cs) } => all_code_free(cs),
        NodeV::Fragment { children } => all_code_free(children),
        NodeV::Open { children: Some(cs), .. } => all_code_free(cs),
        _ => true,
    }
}

/// No node of `cs` has code where a node stands.
pub open spec fn all_code_free(cs: Seq<NodeV>) -> bool
    decreases cs,
{
    if cs.len() == 0 {
        true
    } else {
        all_code_free(cs.drop_last()) && code_free(cs.last())
    }
}

/// The code of each node, separated by commas.
pub open spec fn nodes_joined(cs: Seq<NodeV>) -> Seq<EmittedV>
    decreases cs,
{
    if cs.len() == 0 {
        Seq::empty()
    } else if cs.len() == 1 {
        node_out(cs[0])
    } else {
        nodes_joined(cs.drop_last()) + seq![punct_e(',')] + node_out(cs.last())
    }
}

/// `None`, or `Some(vec![...])` of the code of each node.
pub open spec fn children_out(children: Option<Seq<NodeV>>) -> Seq<EmittedV>
    decreases children,
{
    match children {
        None => seq![ident_e("None"@)],
        Some(cs) => seq![
            ident_e("Some"@),
            group_e(Delimiter::Parenthesis, vec_macro(nodes_joined(cs))),
        ],
    }
}

/// The expression that builds the `dom` node of a markup node.
pub open spec fn node_out(n: NodeV) -> Seq<EmittedV>
    decreases n,
{
    match n {
        NodeV::Empty => dom_path("Node"@, "Empty"@),
        NodeV::Doctype { name, attributes } => dom_path("Node"@, "Doctype"@).push(
            group_e(
                Delimiter::Brace,
                field_e("name"@, seq![str_e(name)]) + seq![punct_e(',')] + field_e(
                    "attributes"@,
                    opt_attributes_out(attributes),
                ) + seq![punct_e(',')],
            ),
        ),
        NodeV::Fragment { children } => dom_path("Node"@, "Fragment"@).push(
            group_e(Delimiter::Brace, field_e("children"@, vec_macro(nodes_joined(children)))),
        ),
        NodeV::Comment { children } => dom_path("Node"@, "Comment"@).push(
            group_e(
                Delimiter::Brace,
                field_e(
                    "children"@,
                    children_out(children),
                ),
            ),
        ),
        NodeV::SelfClosing { name, attributes } => dom_path("Node"@, "new_self_closing"@).push(
            group_e(
                Delimiter::Parenthesis,
                seq![str_e(name), punct_e(',')] + opt_attributes_out(attributes),
            ),
        ),
        NodeV::Open { name, attributes, children } => dom_path("Node"@, "new_open"@).push(
            group_e(
                Delimiter::Parenthesis,
                seq![str_e(name), punct_e(',')] + opt_attributes_out(attributes) + seq![
                    punct_e(','),
                ] + children_out(children),
            ),
        ),
        NodeV::Text(t) => dom_path("Node"@, "Text"@).push(
            group_e(Delimiter::Brace, field_e("contents"@, seq![str_e(t)]) + seq![punct_e(',')]),
        ),
        NodeV::Code(_) => Seq::empty(),
    }
}

// ----- facts about the generated code -----

/// The values of nodes, element by element.
pub proof fn lemma_nodes_v(s: Seq<Node>)
    ensures
        nodes_v(s).len() == s.len(),
        forall|i: int| 0 <= i < s.len() ==> #[trigger] nodes_v(s)[i] == s[i].nv(),
    decreases s.len(),
{
    if s.len() > 0 {
        lemma_nodes_v(s.drop_last());
    }
}

/// No node of a sequence has code, node by node.
pub proof fn lemma_all_code_free(cs: Seq<NodeV>)
    ensures
        all_code_free(cs) <==> forall|i: int| 0 <= i < cs.len() ==> #[trigger] code_free(cs[i]),
    decreases cs.len(),
{
    if cs.len() > 0 {
        lemma_all_code_free(cs.drop_last());
        if all_code_free(cs) {
            assert forall|i: int| 0 <= i < cs.len() implies #[trigger] code_free(cs[i]) by {
                if i < cs.len() - 1 {
                    assert(cs.drop_last()[i] == cs[i]);
                }
            }
        }
        if forall|i: int| 0 <= i < cs.len() ==> #[trigger] code_free(cs[i]) {
            assert forall|i: int| 0 <= i < cs.drop_last().len() implies #[trigger] code_free(
                cs.drop_last()[i],
            ) by {
                assert(cs.drop_last()[i] == cs[i]);
                assert(code_free(cs[i]));
            }
            assert(code_free(cs[cs.len() - 1]));
        }
    }
}

/// Joining one more node's code.
proof fn lemma_nodes_joined_push(cs: Seq<NodeV>, n: NodeV)
    ensures
        nodes_joined(cs.push(n)) == if cs.len() == 0 {
            node_out(n)
        } else {
            nodes_joined(cs) + seq![punct_e(',')] + node_out(n)
        },
{
    assert(cs.push(n).drop_last() =~= cs);
}

/// Joining one more item.
pub proof fn lemma_comma_joined_push(items: Seq<Seq<EmittedV>>, x: Seq<EmittedV>)
    ensures
        comma_joined(items.push(x)) == if items.len() == 0 {
            x
        } else {
            comma_joined(items) + seq![punct_e(',')] + x
        },
{
    assert(items.push(x).drop_last() =~= items);
}

// ----- laws of the generated code -----

/// `part` occurs in `s` as a run of consecutive trees.
pub open spec fn holds_run(s: Seq<EmittedV>, part: Seq<EmittedV>) -> bool {
    exists|i: int|
        0 <= i <= s.len() && part.len() <= s.len() - i && (#[trigger] s.skip(i)).take(
            part.len() as int,
        ) == part
}

/// A run between two others is held.
pub proof fn lemma_holds_run(pre: Seq<EmittedV>, part: Seq<EmittedV>, post: Seq<EmittedV>)
    ensures
        holds_run(pre + part + post, part),
{
    let s = pre + part + post;
    assert(s.skip(pre.len() as int).take(part.len() as int) =~= part);
}

/// A run held in a prefix is held in the whole.
proof fn lemma_holds_run_prefix(s: Seq<EmittedV>, post: Seq<EmittedV>, part: Seq<EmittedV>)
    requires
        holds_run(s, part),
    ensures
        holds_run(s + post, part),
{
    let i = choose|i: int|
        0 <= i <= s.len() && part.len() <= s.len() - i && (#[trigger] s.skip(i)).take(
            part.len() as int,
        ) == part;
    assert((s + post).skip(i).take(part.len() as int) =~= s.skip(i).take(part.len() as int));
}

/// Items joined by commas each stand in the joined code.
pub proof fn lemma_comma_joined_holds(items: Seq<Seq<EmittedV>>, i: int)
    requires
        0 <= i < items.len(),
    ensures
        holds_run(comma_joined(items), items[i]),
    decreases items.len(),
{
    if items.len() == 1 {
        lemma_holds_run(Seq::empty(), items[0], Seq::empty());
        assert(Seq::<EmittedV>::empty() + items[0] + Seq::<EmittedV>::empty() =~= items[0]);
    } else if i == items.len() - 1 {
        lemma_holds_run(
            comma_joined(items.drop_last()) + seq![punct_e(',')],
            items.last(),
            Seq::empty(),
        );
        assert(comma_joined(items.drop_last()) + seq![punct_e(',')] + items.last()
            + Seq::<EmittedV>::empty() =~= comma_joined(items));
    } else {
        lemma_comma_joined_holds(items.drop_last(), i);
        lemma_holds_run_prefix(
            comma_joined(items.drop_last()),
            seq![punct_e(',')] + items.last(),
            items[i],
        );
        assert(comma_joined(items.drop_last()) + (seq![punct_e(',')] + items.last())
            =~= comma_joined(items));
    }
}

/// The trees inside a group (none for any other tree).
pub open spec fn inside(e: EmittedV) -> Seq<EmittedV> {
    match e {
        EmittedV::Group(_, inner) => inner,
        _ => Seq::empty(),
    }
}

/// The code of attributes builds each attribute, in a call that names its key
/// and, when it has one, its value.
pub proof fn law_attributes_code(a: Seq<AttributeV>, i: int)
    requires
        0 <= i < a.len(),
    ensures
        opt_attributes_out(Some(a)).len() == 2,
        opt_attributes_out(Some(a))[0] == ident_e("Some"@),
        holds_run(inside(inside(opt_attributes_out(Some(a))[1])[2]), attribute_out(a[i])),
        inside(attribute_out(a[i]).last())[0] == str_e(a[i].key),
        a[i].value matches Some(v) ==> inside(inside(attribute_out(a[i]).last()).last())
            == attribute_value_out(v),
{
    let items = a.map_values(|x: AttributeV| attribute_out(x));
    lemma_comma_joined_holds(items, i);
}

/// The code generated for a doctype, a tag or text holds the node's name, or
/// its text, as a string literal, and the code of its attributes and of its
/// children as they are.
pub proof fn law_nodes_keep_their_parts(
    name: Seq<char>,
    attributes: Option<Seq<AttributeV>>,
    children: Option<Seq<NodeV>>,
)
    ensures
        holds_run(inside(node_out(NodeV::Doctype { name, attributes }).last()), seq![str_e(name)]),
        holds_run(
            inside(node_out(NodeV::Doctype { name, attributes }).last()),
            opt_attributes_out(attributes),
        ),
        inside(node_out(NodeV::SelfClosing { name, attributes }).last())[0] == str_e(name),
        holds_run(
            inside(node_out(NodeV::SelfClosing { name, attributes }).last()),
            opt_attributes_out(attributes),
        ),
        inside(node_out(NodeV::Open { name, attributes, children }).last())[0] == str_e(name),
        holds_run(
            inside(node_out(NodeV::Open { name, attributes, children }).last()),
            opt_attributes_out(attributes),
        ),
        holds_run(
            inside(node_out(NodeV::Open { name, attributes, children }).last()),
            children_out(children),
        ),
        holds_run(inside(node_out(NodeV::Comment { children }).last()), children_out(children)),
        holds_run(inside(node_out(NodeV::Text(name)).last()), seq![str_e(name)]),
{
    let attrs = opt_attributes_out(attributes);
    let kids = children_out(children);
    let sep = seq![punct_e(',')];
    let name_field = field_e("name"@, seq![str_e(name)]);
    let doctype = name_field + sep + field_e("attributes"@, attrs) + sep;
    lemma_holds_run(seq![ident_e("name"@), punct_e(':')], seq![str_e(name)], sep + field_e("attributes"@, attrs) + sep);
    assert(seq![ident_e("name"@), punct_e(':')] + seq![str_e(name)] + (sep + field_e("attributes"@, attrs) + sep) =~= doctype);
    lemma_holds_run(name_field + sep + seq![ident_e("attributes"@), punct_e(':')], attrs, sep);
    assert(name_field + sep + seq![ident_e("attributes"@), punct_e(':')] + attrs + sep =~= doctype);
    let named = seq![str_e(name), punct_e(',')];
    lemma_holds_run(named, attrs, Seq::empty());
    assert(named + attrs + Seq::<EmittedV>::empty() =~= named + attrs);
    let open = named + attrs + sep + kids;
    lemma_holds_run(named, attrs, sep + kids);
    assert(named + attrs + (sep + kids) =~= open);
    lemma_holds_run(named + attrs + sep, kids, Seq::empty());
    assert(named + attrs + sep + kids + Seq::<EmittedV>::empty() =~= open);
    lemma_holds_run(seq![ident_e("children"@), punct_e(':')], kids, Seq::empty());
    assert(seq![ident_e("children"@), punct_e(':')] + kids + Seq::<EmittedV>::empty() =~= field_e(
        "children"@,
        kids,
    ));
    let text = field_e("contents"@, seq![str_e(name)]) + sep;
    lemma_holds_run(seq![ident_e("contents"@), punct_e(':')], seq![str_e(name)], sep);
    assert(seq![ident_e("contents"@), punct_e(':')] + seq![str_e(name)] + sep =~= text);
}

// ----- generating -----

/// Appends `::renderx::dom::{item}::{name}`.
fn push_dom_path(out: &mut Vec<Emitted>, item: &str, name: &str)
    ensures
        emitted_v(final(out)@) == emitted_v(old(out)@) + dom_path(item@, name@),
{
    let segs = ["renderx", "dom", item, name];
    push_path(out, segs.as_slice());
    assert(strs_v(segs@) =~= seq!["renderx"@, "dom"@, item@, name@]);
}

/// Appends the code of an attribute.
fn visit_attribute(attribute: &Attribute, out: &mut Vec<Emitted>)
    ensures
        emitted_v(final(out)@) == emitted_v(old(out)@) + attribute_out(attribute@),
{
    let ghost start = emitted_v(out@);
    push_dom_path(out, "Attribute", "new");
    let mut args: Vec<Emitted> = Vec::new();
    push_str(&mut args, attribute.key.as_str());
    push_punct(&mut args, ',');
    match &attribute.value {
        None => {
            push_ident(&mut args, "None");
        },
        Some(value) => {
            push_ident(&mut args, "Some");
            let mut inner: Vec<Emitted> = Vec::new();
            match value {
                AttributeValue::Text(text) => {
                    push_str(&mut inner, text.as_str());
                },
                AttributeValue::Code(code) => {
                    push_carried(&mut inner, code);
                },
            }
            assert(emitted_v(inner@) =~= attribute_value_out(value@));
            push_group(&mut args, Delimiter::Parenthesis, inner);
        },
    }
    assert(emitted_v(args@) =~= seq![str_e(attribute@.key), punct_e(',')] + match attribute@.value {
        None => seq![ident_e("None"@)],
        Some(v) => seq![ident_e("Some"@), group_e(Delimiter::Parenthesis, attribute_value_out(v))],
    });
    push_group(out, Delimiter::Parenthesis, args);
    assert(emitted_v(out@) =~= start + attribute_out(attribute@));
}

/// Appends `vec![...]` of the code of each attribute.
fn visit_attributes(attributes: &Vec<Attribute>, out: &mut Vec<Emitted>)
    ensures
        emitted_v(final(out)@) == emitted_v(old(out)@) + vec_macro(
            attributes_joined(attributes_v(attributes@)),
        ),
{
    let ghost start = emitted_v(out@);
    let mut inner: Vec<Emitted> = Vec::new();
    let mut i: usize = 0;
    while i < attributes.len()
        invariant
            i <= attributes@.len(),
            emitted_v(inner@) == attributes_joined(attributes_v(attributes@.take(i as int))),
        decreases attributes.len() - i,
    {
        let ghost before = emitted_v(inner@);
        let ghost items = attributes_v(attributes@.take(i as int)).map_values(
            |a: AttributeV| attribute_out(a),
        );
        if i > 0 {
            push_punct(&mut inner, ',');
        }
        visit_attribute(&attributes[i], &mut inner);
        proof {
            let x = attribute_out(attributes@[i as int]@);
            lemma_comma_joined_push(items, x);
            assert(attributes_v(attributes@.take(i + 1)).map_values(|a: AttributeV| attribute_out(a))
                =~= items.push(x));
            if i == 0 {
                assert(emitted_v(inner@) =~= x);
            } else {
                assert(emitted_v(inner@) =~= before + seq![punct_e(',')] + x);
            }
        }
        i = i + 1;
    }
    assert(attributes@.take(attributes@.len() as int) =~= attributes@);
    push_ident(out, "vec");
    push_punct(out, '!');
    push_group(out, Delimiter::Bracket, inner);
    assert(emitted_v(out@) =~= start + vec_macro(attributes_joined(attributes_v(attributes@))));
}

/// Appends `None`, or `Some(vec![...])` of the code of each attribute.
fn visit_optional_attributes(maybe_attributes: &Option<Vec<Attribute>>, out: &mut Vec<Emitted>)
    ensures
        emitted_v(final(out)@) == emitted_v(old(out)@) + opt_attributes_out(
            crate::parser::ast::opt_attributes_v(*maybe_attributes),
        ),
{
    let ghost start = emitted_v(out@);
    match maybe_attributes {
        None => {
            push_ident(out, "None");
            assert(emitted_v(out@) =~= start + seq![ident_e("None"@)]);
        },
        Some(attributes) => {
            push_ident(out, "Some");
            let mut inner: Vec<Emitted> = Vec::new();
            visit_attributes(attributes, &mut inner);
            push_group(out, Delimiter::Parenthesis, inner);
            assert(emitted_v(out@) =~= start + opt_attributes_out(
                crate::parser::ast::opt_attributes_v(*maybe_attributes),
            ));
        },
    }
}

/// Appends the expression that builds the `dom` node of `node`.
fn visit_node(node: &Node, out: &mut Vec<Emitted>)
    requires
        code_free(node.nv()),
    ensures
        emitted_v(final(out)@) == emitted_v(old(out)@) + node_out(node.nv()),
    decreases node,
{
    let ghost start = emitted_v(out@);
    match node {
        Node::Empty => {
            push_dom_path(out, "Node", "Empty");
        },
        Node::Doctype { name, attributes } => {
            push_dom_path(out, "Node", "Doctype");
            let mut fields: Vec<Emitted> = Vec::new();
            push_ident(&mut fields, "name");
            push_punct(&mut fields, ':');
            push_str(&mut fields, name.as_str());
            push_punct(&mut fields, ',');
            push_ident(&mut fields, "attributes");
            push_punct(&mut fields, ':');
            visit_optional_attributes(attributes, &mut fields);
            push_punct(&mut fields, ',');
            assert(emitted_v(fields@) =~= field_e("name"@, seq![str_e(name@)]) + seq![punct_e(',')]
                + field_e("attributes"@, opt_attributes_out(crate::parser::ast::opt_attributes_v(*attributes)))
                + seq![punct_e(',')]);
            push_group(out, Delimiter::Brace, fields);
            assert(emitted_v(out@) =~= start + node_out(node.nv()));
        },
        Node::Fragment { children } => {
            push_dom_path(out, "Node", "Fragment");
            let mut fields: Vec<Emitted> = Vec::new();
            push_ident(&mut fields, "children");
            push_punct(&mut fields, ':');
            proof {
                lemma_nodes_v(children@);
                assert(node.nv() == NodeV::Fragment { children: nodes_v(children@) });
                let cv = nodes_v(children@);
                lemma_all_code_free(cv);
                assert forall|i: int| 0 <= i < children@.len() implies code_free(
                    #[trigger] children@[i].nv(),
                ) by {
                    assert(nodes_v(children@)[i] == children@[i].nv());
                }
            }
            visit_children(children, &mut fields);
            assert(emitted_v(fields@) =~= field_e("children"@, vec_macro(nodes_joined(nodes_v(children@)))));
            push_group(out, Delimiter::Brace, fields);
            assert(emitted_v(out@) =~= start + node_out(node.nv()));
        },
        Node::Comment { children } => {
            push_dom_path(out, "Node", "Comment");
            let mut fields: Vec<Emitted> = Vec::new();
            push_ident(&mut fields, "children");
            push_punct(&mut fields, ':');
            proof {
                if let Some(cs) = children {
                    lemma_nodes_v(cs@);
                    lemma_all_code_free(nodes_v(cs@));
                    assert forall|i: int| 0 <= i < cs@.len() implies code_free(
                        #[trigger] cs@[i].nv(),
                    ) by {
                        assert(nodes_v(cs@)[i] == cs@[i].nv());
                    }
                }
            }
            visit_optional_children(children, &mut fields);
            assert(emitted_v(fields@) =~= field_e("children"@, children_out(crate::parser::ast::opt_nodes_v(*children))));
            push_group(out, Delimiter::Brace, fields);
            assert(emitted_v(out@) =~= start + node_out(node.nv()));
        },
        Node::SelfClosing { name, attributes } => {
            push_dom_path(out, "Node", "new_self_closing");
            let mut args: Vec<Emitted> = Vec::new();
            push_str(&mut args, name.as_str());
            push_punct(&mut args, ',');
            visit_optional_attributes(attributes, &mut args);
            assert(emitted_v(args@) =~= seq![str_e(name@), punct_e(',')] + opt_attributes_out(crate::parser::ast::opt_attributes_v(*attributes)));
            push_group(out, Delimiter::Parenthesis, args);
            assert(emitted_v(out@) =~= start + node_out(node.nv()));
        },
        Node::Open { name, attributes, children } => {
            push_dom_path(out, "Node", "new_open");
            let mut args: Vec<Emitted> = Vec::new();
            push_str(&mut args, name.as_str());
            push_punct(&mut args, ',');
            visit_optional_attributes(attributes, &mut args);
            push_punct(&mut args, ',');
            proof {
                if let Some(cs) = children {
                    lemma_nodes_v(cs@);
                    let cv = nodes_v(cs@);
                    assert(node.nv() == NodeV::Open {
                        name: name@,
                        attributes: crate::parser::ast::opt_attributes_v(*attributes),
                        children: Some(cv),
                    });
                    lemma_all_code_free(cv);
                    assert forall|i: int| 0 <= i < cs@.len() implies code_free(
                        #[trigger] cs@[i].nv(),
                    ) by {
                        assert(nodes_v(cs@)[i] == cs@[i].nv());
                    }
                }
            }
            visit_optional_children(children, &mut args);
            assert(emitted_v(args@) =~= seq![str_e(name@), punct_e(',')] + opt_attributes_out(crate::parser::ast::opt_attributes_v(*attributes))
                + seq![punct_e(',')] + children_out(crate::parser::ast::opt_nodes_v(*children)));
            push_group(out, Delimiter::Parenthesis, args);
            assert(emitted_v(out@) =~= start + node_out(node.nv()));
        },
        Node::Text(text) => {
            push_dom_path(out, "Node", "Text");
            let mut fields: Vec<Emitted> = Vec::new();
            push_ident(&mut fields, "contents");
            push_punct(&mut fields, ':');
            push_str(&mut fields, text.as_str());
            push_punct(&mut fields, ',');
            assert(emitted_v(fields@) =~= field_e("contents"@, seq![str_e(text@)]) + seq![punct_e(',')]);
            push_group(out, Delimiter::Brace, fields);
            assert(emitted_v(out@) =~= start + node_out(node.nv()));
        },
        Node::Code(_) => {},
    }
}

/// Appends `None`, or `Some(vec![...])` of the code of each node.
fn visit_optional_children(maybe_children: &Option<Vec<Node>>, out: &mut Vec<Emitted>)
    requires
        maybe_children matches Some(cs) ==> forall|i: int|
            0 <= i < cs@.len() ==> code_free(#[trigger] cs@[i].nv()),
    ensures
        emitted_v(final(out)@) == emitted_v(old(out)@) + children_out(
            crate::parser::ast::opt_nodes_v(*maybe_children),
        ),
    decreases maybe_children,
{
    let ghost start = emitted_v(out@);
    match maybe_children {
        None => {
            push_ident(out, "None");
            assert(emitted_v(out@) =~= start + seq![ident_e("None"@)]);
        },
        Some(children) => {
            push_ident(out, "Some");
            let mut inner: Vec<Emitted> = Vec::new();
            visit_children(children, &mut inner);
            push_group(out, Delimiter::Parenthesis, inner);
            assert(emitted_v(out@) =~= start + seq![
                ident_e("Some"@),
                group_e(Delimiter::Parenthesis, vec_macro(nodes_joined(nodes_v(children@)))),
            ]);
        },
    }
}

/// Appends `vec![...]` of the code of each node.
fn visit_children(children: &Vec<Node>, out: &mut Vec<Emitted>)
    requires
        forall|i: int| 0 <= i < children@.len() ==> code_free(#[trigger] children@[i].nv()),
    ensures
        emitted_v(final(out)@) == emitted_v(old(out)@) + vec_macro(nodes_joined(nodes_v(children@))),
    decreases children,
{
    let ghost start = emitted_v(out@);
    let mut inner: Vec<Emitted> = Vec::new();
    let mut i: usize = 0;
    while i < children.len()
        invariant
            i <= children@.len(),
            forall|j: int| 0 <= j < children@.len() ==> code_free(#[trigger] children@[j].nv()),
            emitted_v(inner@) == nodes_joined(nodes_v(children@.take(i as int))),
        decreases children.len() - i,
    {
        let ghost before = emitted_v(inner@);
        if i > 0 {
            push_punct(&mut inner, ',');
        }
        visit_node(&children[i], &mut inner);
        proof {
            let n = children@[i as int];
            lemma_nodes_v_push(children@.take(i as int), n);
            assert(children@.take(i + 1) =~= children@.take(i as int).push(n));
            lemma_nodes_v(children@.take(i as int));
            lemma_nodes_joined_push(nodes_v(children@.take(i as int)), n.nv());
            if i == 0 {
                assert(emitted_v(inner@) =~= node_out(n.nv()));
            } else {
                assert(emitted_v(inner@) =~= before + seq![punct_e(',')] + node_out(n.nv()));
            }
        }
        i = i + 1;
    }
    assert(children@.take(children@.len() as int) =~= children@);
    push_ident(out, "vec");
    push_punct(out, '!');
    push_group(out, Delimiter::Bracket, inner);
    assert(emitted_v(out@) =~= start + vec_macro(nodes_joined(nodes_v(children@))));
}

/// Returns the code that builds the `dom` node of a markup tree.
pub fn build(ast: Node) -> (r: Vec<Emitted>)
    requires
        code_free(ast.nv()),
    ensures
        emitted_v(r@) == node_out(ast.nv()),
{
    let mut out: Vec<Emitted> = Vec::new();
    visit_node(&ast, &mut out);
    assert(emitted_v(out@) =~= Seq::<EmittedV>::empty() + node_out(ast.nv()));
    out
}

} // verus!

verus! {

/// Returns whether markup has no code where a node stands, at any depth: the
/// trees that `build` can generate code for.
pub fn is_code_free(node: &Node) -> (r: bool)
    ensures
        r == code_free(node.nv()),
    decreases node,
{
    match node {
        Node::Code(_) => false,
        Node::Comment { children: Some(cs) } => are_code_free(cs),
        Node::Fragment { children } => are_code_free(children),
        Node::Open { children: Some(cs), .. } => are_code_free(cs),
        _ => true,
    }
}

/// Returns whether no node of `cs` has code where a node stands.
fn are_code_free(cs: &Vec<Node>) -> (r: bool)
    ensures
        r == all_code_free(nodes_v(cs@)),
    decreases cs,
{
    proof {
        lemma_nodes_v(cs@);
        lemma_all_code_free(nodes_v(cs@));
    }
    let mut i: usize = 0;
    while i < cs.len()
        invariant
            i <= cs@.len(),
            nodes_v(cs@).len() == cs@.len(),
            forall|j: int| 0 <= j < cs@.len() ==> #[trigger] nodes_v(cs@)[j] == cs@[j].nv(),
            forall|j: int| 0 <= j < i ==> code_free(#[trigger] cs@[j].nv()),
        decreases cs.len() - i,
    {
        if !is_code_free(&cs[i]) {
            proof {
                lemma_all_code_free(nodes_v(cs@));
                assert(!code_free(nodes_v(cs@)[i as int]));
            }
            return false;
        }
        i = i + 1;
    }
    assert forall|j: int| 0 <= j < nodes_v(cs@).len() implies #[trigger] code_free(
        nodes_v(cs@)[j],
    ) by {
        assert(code_free(cs@[j].nv()));
    }
    true
}

} // verus!
