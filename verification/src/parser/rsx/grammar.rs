//! The RSX grammar: markup whose names may be text or code, and whose
//! capitalised tag names stand for components.

use crate::parser::ast::attribute::{attributes_v, opt_attributes_v, Attribute, AttributeV};
use crate::parser::ast::value::{Value, ValueV};
use crate::parser::grammar::token_iterator::{
    group_next, ident_at, literal_next, punct_at, puncts_ahead, TokenIterator,
};
use crate::parser::grammar::{
    add_key, comment_closing, empty_tag_tokens, group_inner, ident_name, input_ok, key_v, lemma_input_ok_skip,
    lemma_text_from, literal_repr, opt_seq, punct_char, punct_chars, read_text, tag_closing,
    tag_opening, text_spec,
};
use crate::parser::rsx::ast::{lemma_nodes_v_push, nodes_v, opt_nodes_v, Node, NodeV};
use crate::parser::rsx::error::{from_iter_error, Error, Result};
use crate::parser::grammar::micro_vec::MicroVec;
use crate::parser::token_stream::{flatten_non_braces, flatten_v, lemma_flatten_idempotent};
use crate::parser::token_stream_compare::{same_tokens, token_stream_eq};
use crate::text::{alphanumeric, is_alphanumeric, push_char, push_text, strip_quotes};
use crate::token::{lemma_tokens_v, tokens_v, tokens_wf, Delimiter, Token, TokenV};
use vstd::prelude::*;

verus! {

const COLON: char = ':';
const EXCLAMATION_MARK: char = '!';
const HYPHEN: char = '-';
const LEFT_ANGLE: char = '<';
const RIGHT_ANGLE: char = '>';
const FORWARD_SLASH: char = '/';
const EQUALS: char = '=';

// ----- the grammar, as spec functions over the tokens yet to be read -----

/// The token at `i` is a `-` or a `:`.
pub open spec fn joiner_at(ts: Seq<TokenV>, i: int) -> bool {
    punct_at(ts, i, '-') || punct_at(ts, i, ':')
}

/// The number of `-` and `:` tokens that come next.
pub open spec fn joiner_run(ts: Seq<TokenV>) -> nat
    decreases ts.len(),
{
    if ts.len() > 0 && joiner_at(ts, 0) {
        1 + joiner_run(ts.drop_first())
    } else {
        0
    }
}

/// Reads a name made of identifiers joined by runs of `-` and `:`, after `key`.
pub open spec fn name_loop(ts: Seq<TokenV>, key: Option<Seq<char>>) -> (
    Option<Seq<char>>,
    Seq<TokenV>,
)
    decreases ts.len(),
{
    let key1 = if ident_at(ts, 0) {
        Some(add_key(key, ident_name(ts[0])))
    } else {
        key
    };
    let ts1 = if ident_at(ts, 0) {
        ts.drop_first()
    } else {
        ts
    };
    let i = joiner_run(ts1) as int;
    if i > 0 && key1 is Some && ident_at(ts1, i) {
        name_loop(ts1.skip(i), Some(key1->0 + punct_chars(ts1.take(i))))
    } else {
        (key1, ts1)
    }
}

/// Reads an optional name: a literal, a brace group, or identifiers joined by
/// `-` and `:`. A name cannot start with `-` or `:`.
pub open spec fn maybe_name_spec(ts: Seq<TokenV>) -> (Option<ValueV>, Seq<TokenV>) {
    if literal_next(ts) {
        (Some(ValueV::Text(strip_quotes(literal_repr(ts[0])))), ts.drop_first())
    } else if group_next(ts, Delimiter::Brace) {
        (Some(ValueV::Code(group_inner(ts[0]))), ts.drop_first())
    } else {
        let (k, r) = name_loop(ts, None);
        (
            match k {
                Some(s) => Some(ValueV::Text(s)),
                None => None,
            },
            r,
        )
    }
}

/// Reads a name.
pub open spec fn name_spec(ts: Seq<TokenV>) -> Result<(ValueV, Seq<TokenV>)> {
    match maybe_name_spec(ts) {
        (Some(v), r) => Ok((v, r)),
        (None, _) => Err(Error::ExpectedName),
    }
}

/// Reads an attribute value: a brace group or a literal.
pub open spec fn attribute_value_spec(ts: Seq<TokenV>) -> Result<(ValueV, Seq<TokenV>)> {
    if group_next(ts, Delimiter::Brace) {
        Ok((ValueV::Code(group_inner(ts[0])), ts.drop_first()))
    } else if literal_next(ts) {
        Ok((ValueV::Text(strip_quotes(literal_repr(ts[0]))), ts.drop_first()))
    } else {
        Err(Error::UnexpectedToken)
    }
}

/// Reads an optional attribute: a name, then `=` and a value if there is one.
pub open spec fn attribute_spec(ts: Seq<TokenV>) -> Result<(Option<AttributeV>, Seq<TokenV>)> {
    let (k, r) = maybe_name_spec(ts);
    match k {
        None => Ok((None, r)),
        Some(key) => {
            if punct_at(r, 0, '=') {
                match attribute_value_spec(r.drop_first()) {
                    Ok((v, r2)) => Ok((Some(AttributeV { key, value: Some(v) }), r2)),
                    Err(e) => Err(e),
                }
            } else {
                Ok((Some(AttributeV { key, value: None }), r))
            }
        },
    }
}

/// Reads attributes while there are any.
pub open spec fn attributes_spec(ts: Seq<TokenV>) -> Result<(Seq<AttributeV>, Seq<TokenV>)>
    decreases ts.len(),
{
    match attribute_spec(ts) {
        Err(e) => Err(e),
        Ok((None, r)) => Ok((Seq::empty(), r)),
        Ok((Some(a), r)) => {
            if r.len() < ts.len() {
                match attributes_spec(r) {
                    Ok((rest, r2)) => Ok((seq![a] + rest, r2)),
                    Err(e) => Err(e),
                }
            } else {
                Err(Error::UnexpectedToken)
            }
        },
    }
}


/// A name is a component's when it is text that starts with an ASCII capital
/// letter, followed by alphanumeric characters and underscores.
pub open spec fn is_component_name_spec(name: ValueV) -> bool {
    match name {
        ValueV::Code(_) => false,
        ValueV::Text(n) => {
            &&& n.len() > 0
            &&& 'A' <= n[0] <= 'Z'
            &&& forall|i: int| 1 <= i < n.len() ==> (alphanumeric(#[trigger] n[i]) || n[i] == '_')
        },
    }
}

/// The error of a closing name that does not match the opening name, if any:
/// texts must be equal, and a closing code must be empty or the same tokens.
pub open spec fn closing_error(open: ValueV, close: ValueV) -> Option<Error> {
    match (open, close) {
        (ValueV::Text(l), ValueV::Text(r)) => {
            if l != r {
                Some(Error::MismatchedClosingTagName)
            } else {
                None
            }
        },
        (ValueV::Code(l), ValueV::Code(r)) => {
            if r.len() != 0 && !same_tokens(l, r) {
                Some(Error::MismatchedClosingTagCode)
            } else {
                None
            }
        },
        _ => Some(Error::MismatchedClosingTagName),
    }
}

/// Reads the children of a comment: code and text up to `-->`.
pub open spec fn comment_children_spec(ts: Seq<TokenV>) -> Result<(Seq<NodeV>, Seq<TokenV>)>
    decreases ts.len(),
{
    if ts.len() == 0 {
        Err(Error::MoreTokensExpected)
    } else if puncts_ahead(ts, comment_closing()) {
        Ok((Seq::empty(), ts))
    } else {
        let (child, r) = if group_next(ts, Delimiter::Brace) {
            (NodeV::Code(group_inner(ts[0])), ts.drop_first())
        } else {
            let (t, r) = text_spec(ts, comment_closing());
            (NodeV::Text(t), r)
        };
        if r.len() < ts.len() {
            match comment_children_spec(r) {
                Ok((rest, r2)) => Ok((seq![child] + rest, r2)),
                Err(e) => Err(e),
            }
        } else {
            Err(Error::MoreTokensExpected)
        }
    }
}

/// Reads a comment: `<!--`, its children, `-->`.
pub open spec fn comment_spec(ts: Seq<TokenV>) -> Result<(NodeV, Seq<TokenV>)> {
    if !puncts_ahead(ts, seq!['<', '!', '-', '-']) {
        Err(Error::UnexpectedToken)
    } else {
        match comment_children_spec(ts.skip(4)) {
            Err(e) => Err(e),
            Ok((cs, r)) => {
                if puncts_ahead(r, comment_closing()) {
                    Ok((NodeV::Comment { children: opt_seq(cs) }, r.skip(3)))
                } else {
                    Err(Error::UnexpectedToken)
                }
            },
        }
    }
}

/// Reads a doctype: `<!`, a name, attributes, `>`.
pub open spec fn doctype_spec(ts: Seq<TokenV>) -> Result<(NodeV, Seq<TokenV>)> {
    if !puncts_ahead(ts, seq!['<', '!']) {
        Err(Error::UnexpectedToken)
    } else {
        match name_spec(ts.skip(2)) {
            Err(e) => Err(e),
            Ok((name, r)) => match attributes_spec(r) {
                Err(e) => Err(e),
                Ok((attrs, r2)) => {
                    if punct_at(r2, 0, '>') {
                        Ok(
                            (
                                NodeV::Doctype { name, attributes: opt_seq(attrs) },
                                r2.drop_first(),
                            ),
                        )
                    } else {
                        Err(Error::UnexpectedToken)
                    }
                },
            },
        }
    }
}

/// Reads a node: a comment, a doctype, a tag, code, or text.
pub open spec fn node_spec(ts: Seq<TokenV>) -> Result<(NodeV, Seq<TokenV>)>
    decreases ts.len(), 2nat,
{
    if punct_at(ts, 0, '<') {
        if punct_at(ts, 1, '!') {
            if punct_at(ts, 2, '-') {
                comment_spec(ts)
            } else {
                doctype_spec(ts)
            }
        } else {
            tag_spec(ts)
        }
    } else if group_next(ts, Delimiter::Brace) {
        Ok((NodeV::Code(group_inner(ts[0])), ts.drop_first()))
    } else {
        let (t, r) = text_spec(ts, tag_opening());
        Ok((NodeV::Text(t), r))
    }
}

/// The node of a self-closing tag.
pub open spec fn self_closing_node(name: ValueV, attrs: Seq<AttributeV>) -> NodeV {
    if is_component_name_spec(name) {
        NodeV::SelfClosingComponent { name: name->Text_0, attributes: opt_seq(attrs) }
    } else {
        NodeV::SelfClosing { name, attributes: opt_seq(attrs) }
    }
}

/// The node of a tag with a closing tag.
pub open spec fn open_node(name: ValueV, attrs: Seq<AttributeV>, children: Seq<NodeV>) -> NodeV {
    if is_component_name_spec(name) {
        NodeV::OpenComponent {
            name: name->Text_0,
            attributes: opt_seq(attrs),
            children: opt_seq(children),
        }
    } else {
        NodeV::Open { name, attributes: opt_seq(attrs), children: opt_seq(children) }
    }
}

/// Reads a tag: `</>`, a fragment `<>children</>`, a self-closing
/// `<name attributes/>`, or `<name attributes>children</name>`.
pub open spec fn tag_spec(ts: Seq<TokenV>) -> Result<(NodeV, Seq<TokenV>)>
    decreases ts.len(), 1nat,
{
    if !punct_at(ts, 0, '<') {
        Err(Error::UnexpectedToken)
    } else {
        let t1 = ts.drop_first();
        if puncts_ahead(t1, seq!['/', '>']) {
            Ok((NodeV::Empty, t1.skip(2)))
        } else if punct_at(t1, 0, '>') {
            match children_spec(t1.drop_first()) {
                Err(e) => Err(e),
                Ok((cs, r)) => {
                    if puncts_ahead(r, seq!['<', '/', '>']) {
                        Ok(
                            (
                                if cs.len() == 0 {
                                    NodeV::Empty
                                } else {
                                    NodeV::Fragment { children: cs }
                                },
                                r.skip(3),
                            ),
                        )
                    } else {
                        Err(Error::UnexpectedToken)
                    }
                },
            }
        } else {
            match name_spec(t1) {
                Err(e) => Err(e),
                Ok((name, t2)) => match attributes_spec(t2) {
                    Err(e) => Err(e),
                    Ok((attrs, t3)) => {
                        if punct_at(t3, 0, '/') {
                            if puncts_ahead(t3, seq!['/', '>']) {
                                Ok((self_closing_node(name, attrs), t3.skip(2)))
                            } else {
                                Err(Error::UnexpectedToken)
                            }
                        } else if !punct_at(t3, 0, '>') {
                            Err(Error::UnexpectedToken)
                        } else if t3.drop_first().len() >= ts.len() {
                            Err(Error::UnexpectedToken)
                        } else {
                            match children_spec(t3.drop_first()) {
                                Err(e) => Err(e),
                                Ok((cs, t5)) => {
                                    if !puncts_ahead(t5, tag_closing()) {
                                        Err(Error::UnexpectedToken)
                                    } else {
                                        match name_spec(t5.skip(2)) {
                                            Err(e) => Err(e),
                                            Ok((close, t7)) => {
                                                if !punct_at(t7, 0, '>') {
                                                    Err(Error::UnexpectedToken)
                                                } else {
                                                    match closing_error(name, close) {
                                                        Some(e) => Err(e),
                                                        None => Ok(
                                                            (
                                                                open_node(name, attrs, cs),
                                                                t7.drop_first(),
                                                            ),
                                                        ),
                                                    }
                                                }
                                            },
                                        }
                                    }
                                },
                            }
                        }
                    },
                },
            }
        }
    }
}

/// A tag is read as a component exactly where its opening name is text that
/// passes the component-name test, and the component keeps that text as its
/// name; a tag with any other name, a code name among them, is an element.
pub proof fn law_component_tags(ts: Seq<TokenV>)
    ensures
        tag_spec(ts) matches Ok((NodeV::SelfClosingComponent { name, .. }, _)) ==> (name_spec(
            ts.drop_first(),
        ) matches Ok((v, _)) && v == ValueV::Text(name) && is_component_name_spec(v)),
        tag_spec(ts) matches Ok((NodeV::OpenComponent { name, .. }, _)) ==> (name_spec(
            ts.drop_first(),
        ) matches Ok((v, _)) && v == ValueV::Text(name) && is_component_name_spec(v)),
        tag_spec(ts) matches Ok((NodeV::SelfClosing { name, .. }, _)) ==> (name_spec(
            ts.drop_first(),
        ) matches Ok((v, _)) && v == name && !is_component_name_spec(v)),
        tag_spec(ts) matches Ok((NodeV::Open { name, .. }, _)) ==> (name_spec(
            ts.drop_first(),
        ) matches Ok((v, _)) && v == name && !is_component_name_spec(v)),
{
}

/// A closing tag must repeat the opening name: two text names match exactly
/// when they are equal, and a tag `<l></r>` is read only when `l` and `r` are
/// the same name, else it is refused as mismatched.
pub proof fn law_closing_names_match(l: Seq<char>, r: Seq<char>, sp: crate::token::Spacing)
    ensures
        closing_error(ValueV::Text(l), ValueV::Text(r)) is None <==> l == r,
        l != r ==> closing_error(ValueV::Text(l), ValueV::Text(r)) == Some(
            Error::MismatchedClosingTagName,
        ),
        l != r ==> tag_spec(empty_tag_tokens(l, r, sp)) == Err::<(NodeV, Seq<TokenV>), Error>(
            Error::MismatchedClosingTagName,
        ),
        l == r ==> (tag_spec(empty_tag_tokens(l, r, sp)) matches Ok((n, rest)) && rest.len() == 0
            && n == open_node(ValueV::Text(l), Seq::empty(), Seq::empty())),
{
    let ts = empty_tag_tokens(l, r, sp);
    let t1 = ts.drop_first();
    assert(punct_at(ts, 0, '<'));
    assert(!punct_at(t1, 0, '/'));
    assert(!puncts_ahead(t1, seq!['/', '>']));
    assert(!punct_at(t1, 0, '>'));
    let t2 = t1.drop_first();
    assert(!joiner_at(t2, 0));
    assert(joiner_run(t2) == 0);
    assert(name_loop(t1, None) == (Some(l), t2));
    assert(!literal_next(t1) && !group_next(t1, Delimiter::Brace));
    assert(name_spec(t1) == Ok::<(ValueV, Seq<TokenV>), Error>((ValueV::Text(l), t2)));
    assert(!ident_at(t2, 0));
    assert(name_loop(t2, None) == (None::<Seq<char>>, t2));
    assert(!literal_next(t2) && !group_next(t2, Delimiter::Brace));
    assert(maybe_name_spec(t2) == (None::<ValueV>, t2));
    assert(attributes_spec(t2) == Ok::<(Seq<AttributeV>, Seq<TokenV>), Error>((Seq::empty(), t2)));
    assert(!punct_at(t2, 0, '/'));
    assert(punct_at(t2, 0, '>'));
    let t4 = t2.drop_first();
    assert(puncts_ahead(t4, tag_closing()));
    assert(children_spec(t4) == Ok::<(Seq<NodeV>, Seq<TokenV>), Error>((Seq::empty(), t4)));
    let t6 = t4.skip(2);
    let t7 = t6.drop_first();
    assert(t6 =~= seq![TokenV::Ident(r), TokenV::Punct('>', sp)]);
    assert(!joiner_at(t7, 0));
    assert(joiner_run(t7) == 0);
    assert(name_loop(t6, None) == (Some(r), t7));
    assert(!literal_next(t6) && !group_next(t6, Delimiter::Brace));
    assert(name_spec(t6) == Ok::<(ValueV, Seq<TokenV>), Error>((ValueV::Text(r), t7)));
    assert(punct_at(t7, 0, '>'));
    assert(t7.drop_first().len() == 0);
}

/// Reads child nodes up to `</`.
pub open spec fn children_spec(ts: Seq<TokenV>) -> Result<(Seq<NodeV>, Seq<TokenV>)>
    decreases ts.len(), 3nat,
{
    if ts.len() == 0 {
        Err(Error::MoreTokensExpected)
    } else if puncts_ahead(ts, tag_closing()) {
        Ok((Seq::empty(), ts))
    } else {
        match node_spec(ts) {
            Err(e) => Err(e),
            Ok((child, r)) => {
                if r.len() < ts.len() {
                    match children_spec(r) {
                        Ok((rest, r2)) => Ok((seq![child] + rest, r2)),
                        Err(e) => Err(e),
                    }
                } else {
                    Err(Error::MoreTokensExpected)
                }
            },
        }
    }
}

/// Reads nodes up to the end.
pub open spec fn root_nodes_spec(ts: Seq<TokenV>) -> Result<Seq<NodeV>>
    decreases ts.len(),
{
    if ts.len() == 0 {
        Ok(Seq::empty())
    } else {
        match node_spec(ts) {
            Err(e) => Err(e),
            Ok((n, r)) => {
                if r.len() < ts.len() {
                    match root_nodes_spec(r) {
                        Ok(rest) => Ok(seq![n] + rest),
                        Err(e) => Err(e),
                    }
                } else {
                    Err(Error::MoreTokensExpected)
                }
            },
        }
    }
}

/// The root: one node, or a fragment of several.
pub open spec fn root_node_spec(ts: Seq<TokenV>) -> Result<NodeV> {
    match root_nodes_spec(ts) {
        Err(e) => Err(e),
        Ok(ns) => {
            if ns.len() == 0 {
                Err(Error::EmptyMacroStreamGiven)
            } else if ns.len() == 1 {
                Ok(ns[0])
            } else {
                Ok(NodeV::Fragment { children: ns })
            }
        },
    }
}

/// What the grammar makes of a token stream.
pub open spec fn parse_spec(stream: Seq<TokenV>) -> Result<NodeV> {
    if stream.len() == 0 {
        Err(Error::EmptyMacroStreamGiven)
    } else {
        root_node_spec(flatten_v(stream))
    }
}

// ----- facts about the grammar -----

/// A run of joiners is no longer than the tokens, and ends where the joiners do.
pub proof fn lemma_joiner_run(ts: Seq<TokenV>, i: int)
    ensures
        joiner_run(ts) <= ts.len(),
        0 <= i && (forall|j: int| 0 <= j < i ==> #[trigger] joiner_at(ts, j)) && !joiner_at(ts, i)
            ==> joiner_run(ts) == i,
    decreases ts.len(),
{
    if ts.len() > 0 && joiner_at(ts, 0) {
        lemma_joiner_run(ts.drop_first(), i - 1);
        if 0 <= i && (forall|j: int| 0 <= j < i ==> #[trigger] joiner_at(ts, j)) && !joiner_at(
            ts,
            i,
        ) {
            assert(i > 0);
            assert forall|j: int| 0 <= j < i - 1 implies #[trigger] joiner_at(ts.drop_first(), j) by {
                assert(joiner_at(ts, j + 1));
            }
        }
    } else if 0 <= i && (forall|j: int| 0 <= j < i ==> #[trigger] joiner_at(ts, j)) && !joiner_at(
        ts,
        i,
    ) {
        if i > 0 {
            assert(joiner_at(ts, 0));
        }
    }
}

/// What name reading leaves is a suffix; a name that was read used up a
/// token, and where no name was read no token was used.
pub proof fn lemma_name_loop(ts: Seq<TokenV>, key: Option<Seq<char>>)
    ensures
        ({
            let (k, r) = name_loop(ts, key);
            &&& r.len() <= ts.len()
            &&& r == ts.skip(ts.len() - r.len())
            &&& (k is Some && key is None) ==> r.len() < ts.len()
            &&& key is Some ==> k is Some
            &&& (k is None && key is None) ==> r == ts
        }),
    decreases ts.len(),
{
    let key1 = if ident_at(ts, 0) {
        Some(add_key(key, ident_name(ts[0])))
    } else {
        key
    };
    let ts1 = if ident_at(ts, 0) {
        ts.drop_first()
    } else {
        ts
    };
    let i = joiner_run(ts1) as int;
    if i > 0 && key1 is Some && ident_at(ts1, i) {
        lemma_name_loop(ts1.skip(i), Some(key1->0 + punct_chars(ts1.take(i))));
        let (k, r) = name_loop(ts, key);
        assert(ts1.skip(i).skip(ts1.skip(i).len() - r.len()) =~= ts.skip(ts.len() - r.len()));
    } else {
        assert(ts.skip(0) =~= ts);
        assert(ts.drop_first() =~= ts.skip(1));
    }
}

/// What name reading leaves is a suffix; a name that was read used up a
/// token, and where no name was read no token was used.
pub proof fn lemma_maybe_name(ts: Seq<TokenV>)
    ensures
        ({
            let (k, r) = maybe_name_spec(ts);
            &&& r.len() <= ts.len()
            &&& r == ts.skip(ts.len() - r.len())
            &&& k is Some ==> r.len() < ts.len()
            &&& k is None ==> r == ts
        }),
{
    lemma_name_loop(ts, None);
    if literal_next(ts) || group_next(ts, Delimiter::Brace) {
        assert(ts.drop_first() =~= ts.skip(1));
    }
}

/// What attribute reading leaves is a suffix; an attribute that was read used up a token.
pub proof fn lemma_attribute(ts: Seq<TokenV>)
    ensures
        attribute_spec(ts) matches Ok((a, r)) ==> {
            &&& r.len() <= ts.len()
            &&& r == ts.skip(ts.len() - r.len())
            &&& a is Some ==> r.len() < ts.len()
        },
{
    lemma_maybe_name(ts);
    let (k, r) = maybe_name_spec(ts);
    if k is Some && punct_at(r, 0, '=') && attribute_value_spec(r.drop_first()) is Ok {
        assert(r.drop_first().drop_first() =~= ts.skip(ts.len() - r.len() + 2));
    }
}

/// What attributes reading leaves is a suffix.
pub proof fn lemma_attributes(ts: Seq<TokenV>)
    ensures
        attributes_spec(ts) matches Ok((_, r)) ==> {
            &&& r.len() <= ts.len()
            &&& r == ts.skip(ts.len() - r.len())
        },
    decreases ts.len(),
{
    lemma_attribute(ts);
    match attribute_spec(ts) {
        Ok((Some(_), r)) => {
            if r.len() < ts.len() {
                lemma_attributes(r);
                if let Ok((_, r2)) = attributes_spec(r) {
                    assert(r.skip(r.len() - r2.len()) =~= ts.skip(ts.len() - r2.len()));
                }
            }
        },
        _ => {},
    }
}

} // verus!

verus! {

// ----- reading -----

/// An executable result agrees with a spec result of the grammar.
pub open spec fn agrees<X, V>(r: Result<X>, s: Result<(V, Seq<TokenV>)>, view: spec_fn(X) -> V, rest: Seq<TokenV>) -> bool {
    match s {
        Ok((v, t)) => r matches Ok(x) && view(x) == v && rest == t,
        Err(e) => r matches Err(f) && f == e,
    }
}

fn lift<A>(e: crate::parser::grammar::token_iterator::TokenIteratorError) -> (r: Result<A>)
    ensures
        r == Err::<A, Error>(from_iter_error(e)),
{
    Err(Error::from(e))
}

/// Reads an optional name.
fn parse_maybe_name(input: &mut TokenIterator) -> (r: Result<Option<Value>>)
    requires
        input_ok(old(input)@),
    ensures
        r matches Ok(k) && (match k {
            Some(v) => Some(v@),
            None => None::<ValueV>,
        }) == maybe_name_spec(old(input)@).0,
        final(input)@ == maybe_name_spec(old(input)@).1,
        input_ok(final(input)@),
{
    let ghost ts0 = input@;
    proof {
        lemma_maybe_name(ts0);
        lemma_tokens_v(Seq::<Token>::empty());
    }
    if input.is_next_literal() {
        let literal = match input.chomp_literal() {
            Ok(s) => s,
            Err(e) => return lift(e),
        };
        proof {
            lemma_input_ok_skip(ts0, 1);
            assert(ts0.skip(1) =~= ts0.drop_first());
        }
        return Ok(Some(Value::Text(literal)));
    }
    if input.is_brace_group() {
        let code = match input.chomp_brace_group() {
            Ok(c) => c,
            Err(e) => return lift(e),
        };
        proof {
            lemma_input_ok_skip(ts0, 1);
            assert(ts0.skip(1) =~= ts0.drop_first());
        }
        return Ok(Some(Value::Code(code)));
    }
    let mut maybe_key: Option<String> = None;
    loop
        invariant_except_break
            input_ok(input@),
            name_loop(ts0, None) == name_loop(input@, key_v(maybe_key)),
        ensures
            input_ok(input@),
            name_loop(ts0, None) == (key_v(maybe_key), input@),
        decreases input@.len(),
    {
        let ghost ts = input@;
        let ghost key = key_v(maybe_key);
        if input.is_next_ident() {
            let next = match input.chomp_ident() {
                Ok(s) => s,
                Err(e) => return lift(e),
            };
            proof {
                lemma_input_ok_skip(ts, 1);
                assert(ts.skip(1) =~= ts.drop_first());
            }
            maybe_key = Some(
                match maybe_key {
                    Some(k) => {
                        let mut k = k;
                        push_text(&mut k, next.as_str());
                        k
                    },
                    None => next,
                },
            );
        }
        let ghost ts1 = input@;
        let ghost key1 = key_v(maybe_key);
        assert(key1 == (if ident_at(ts, 0) {
            Some(add_key(key, ident_name(ts[0])))
        } else {
            key
        }));
        // Check if there is `-name` or `:name` ahead of us.
        // If there is we will capture that too.
        let mut i: usize = 0;
        loop
            invariant
                input@ == ts1,
                i <= ts1.len(),
                forall|j: int| 0 <= j < i ==> #[trigger] joiner_at(ts1, j),
            ensures
                !joiner_at(ts1, i as int),
            decreases ts1.len() - i,
        {
            if !(input.is_lookahead_punct(HYPHEN, i) || input.is_lookahead_punct(COLON, i)) {
                break ;
            }
            i += 1;
        }
        proof {
            lemma_joiner_run(ts1, i as int);
        }
        if i > 0 && maybe_key.is_some() && input.is_lookahead_ident(i) {
            if let Some(k) = maybe_key {
                let mut k = k;
                let mut j: usize = 0;
                loop
                    invariant
                        input@ == ts1.skip(j as int),
                        j <= i,
                        i < ts1.len(),
                        forall|jj: int| 0 <= jj < i ==> #[trigger] joiner_at(ts1, jj),
                        ident_at(ts1, i as int),
                        k@ == key1->0 + punct_chars(ts1.take(j as int)),
                        input_ok(input@),
                    ensures
                        j == i,
                        k@ == key1->0 + punct_chars(ts1.take(j as int)),
                        input@ == ts1.skip(j as int),
                        input_ok(input@),
                    decreases i - j,
                {
                    proof {
                        if j < i {
                            assert(joiner_at(ts1, j as int));
                            assert(input@[0] == ts1[j as int]);
                        }
                    }
                    if !(input.is_next_punct(HYPHEN) || input.is_next_punct(COLON)) {
                        break ;
                    }
                    let ghost before = input@;
                    assert(j < i) by {
                        if j == i {
                            assert(before[0] == ts1[i as int]);
                        }
                    }
                    let c = match input.chomp() {
                        Ok(Token::Punct(c, _)) => c,
                        Ok(_) => return Err(Error::UnexpectedToken),
                        Err(e) => return lift(e),
                    };
                    proof {
                        assert(before[0] == ts1[j as int]);
                        lemma_input_ok_skip(before, 1);
                        assert(before.skip(1) =~= ts1.skip(j + 1));
                        assert(ts1.take(j + 1).drop_last() =~= ts1.take(j as int));
                    }
                    push_char(&mut k, c);
                    j += 1;
                }
                maybe_key = Some(k);
            }
            continue ;
        }
        break ;
    }
    match maybe_key {
        Some(text) => Ok(Some(Value::Text(text))),
        None => Ok(None),
    }
}

/// Reads a name.
fn parse_name(input: &mut TokenIterator) -> (r: Result<Value>)
    requires
        input_ok(old(input)@),
    ensures
        agrees(r, name_spec(old(input)@), |v: Value| v@, final(input)@),
        r is Ok ==> input_ok(final(input)@) && final(input)@.len() < old(input)@.len(),
{
    proof {
        lemma_maybe_name(input@);
    }
    match parse_maybe_name(input) {
        Ok(Some(name)) => Ok(name),
        Ok(None) => Err(Error::ExpectedName),
        Err(e) => Err(e),
    }
}

/// Reads an attribute value.
fn parse_attribute_value(input: &mut TokenIterator) -> (r: Result<Value>)
    requires
        input_ok(old(input)@),
    ensures
        agrees(r, attribute_value_spec(old(input)@), |v: Value| v@, final(input)@),
        r is Ok ==> input_ok(final(input)@),
{
    let ghost ts0 = input@;
    proof {
        if ts0.len() > 0 {
            lemma_input_ok_skip(ts0, 1);
            assert(ts0.skip(1) =~= ts0.drop_first());
        }
    }
    if input.is_brace_group() {
        match input.chomp_brace_group() {
            Ok(code) => Ok(Value::Code(code)),
            Err(e) => lift(e),
        }
    } else {
        match input.chomp_literal() {
            Ok(text) => Ok(Value::Text(text)),
            Err(e) => lift(e),
        }
    }
}

/// Reads an optional attribute.
fn parse_attribute(input: &mut TokenIterator) -> (r: Result<Option<Attribute>>)
    requires
        input_ok(old(input)@),
    ensures
        agrees(
            r,
            attribute_spec(old(input)@),
            |a: Option<Attribute>|
                match a {
                    Some(x) => Some(x@),
                    None => None,
                },
            final(input)@,
        ),
        r is Ok ==> input_ok(final(input)@),
{
    let maybe_key = match parse_maybe_name(input) {
        Ok(k) => k,
        Err(e) => return Err(e),
    };
    if maybe_key.is_none() {
        return Ok(None);
    }
    let key = match maybe_key {
        Some(k) => k,
        None => return Ok(None),
    };
    if input.is_next_punct(EQUALS) {
        let ghost ts = input@;
        match input.chomp_punct(EQUALS) {
            Ok(()) => {},
            Err(e) => return lift(e),
        }
        proof {
            lemma_input_ok_skip(ts, 1);
            assert(ts.skip(1) =~= ts.drop_first());
        }
        let value = match parse_attribute_value(input) {
            Ok(v) => Some(v),
            Err(e) => return Err(e),
        };
        return Ok(Some(Attribute { key, value }));
    }
    Ok(Some(Attribute { key, value: None }))
}

/// Reads attributes while there are any; `None` when there are none.
fn parse_attributes(input: &mut TokenIterator) -> (r: Result<Option<Vec<Attribute>>>)
    requires
        input_ok(old(input)@),
    ensures
        match attributes_spec(old(input)@) {
            Ok((attrs, rest)) => r matches Ok(a) && opt_attributes_v(a) == opt_seq(attrs)
                && final(input)@ == rest,
            Err(e) => r matches Err(f) && f == e,
        },
        r is Ok ==> input_ok(final(input)@),
{
    let ghost ts0 = input@;
    let mut attrs: Vec<Attribute> = Vec::new();
    loop
        invariant_except_break
            ts0 == old(input)@,
            input_ok(input@),
            input@.len() <= ts0.len(),
            attributes_spec(ts0) == (match attributes_spec(input@) {
                Ok((rest, r)) => Ok((attributes_v(attrs@) + rest, r)),
                Err(e) => Err(e),
            }),
        ensures
            input_ok(input@),
            attributes_spec(ts0) == Ok::<(Seq<AttributeV>, Seq<TokenV>), Error>((attributes_v(attrs@), input@)),
        decreases input@.len(),
    {
        let ghost ts = input@;
        proof {
            lemma_attribute(ts);
        }
        match parse_attribute(input) {
            Err(e) => {
                assert(attribute_spec(ts) matches Err(f) && f == e);
                assert(attributes_spec(ts) == Err::<(Seq<AttributeV>, Seq<TokenV>), Error>(e));
                assert(attributes_spec(ts0) == Err::<(Seq<AttributeV>, Seq<TokenV>), Error>(e));
                return Err(e);
            },
            Ok(Some(attribute)) => {
                proof {
                    assert(attributes_v(attrs@.push(attribute)) =~= attributes_v(attrs@).push(
                        attribute@,
                    ));
                    if let Ok((rest, r)) = attributes_spec(input@) {
                        assert(seq![attribute@] + rest =~= seq![attribute@] + rest);
                        assert(attributes_v(attrs@).push(attribute@) + rest =~= attributes_v(attrs@)
                            + (seq![attribute@] + rest));
                    }
                }
                attrs.push(attribute);
            },
            Ok(None) => {
                proof {
                    assert(attributes_v(attrs@) + Seq::<AttributeV>::empty() =~= attributes_v(attrs@));
                }
                break ;
            },
        }
    }
    if attrs.len() == 0 {
        Ok(None)
    } else {
        Ok(Some(attrs))
    }
}

} // verus!

verus! {

/// Children so far, in front of what the rest of the reading gives.
pub open spec fn with_prefix(
    acc: Seq<NodeV>,
    r: Result<(Seq<NodeV>, Seq<TokenV>)>,
) -> Result<(Seq<NodeV>, Seq<TokenV>)> {
    match r {
        Ok((rest, t)) => Ok((acc + rest, t)),
        Err(e) => Err(e),
    }
}

/// An executable node result agrees with a spec result.
pub open spec fn node_agrees(r: Result<Node>, s: Result<(NodeV, Seq<TokenV>)>, rest: Seq<TokenV>) -> bool {
    match s {
        Ok((n, t)) => r matches Ok(x) && x.nv() == n && rest == t,
        Err(e) => r matches Err(f) && f == e,
    }
}

/// An executable children result agrees with a spec result.
pub open spec fn children_agree(
    r: Result<Option<Vec<Node>>>,
    s: Result<(Seq<NodeV>, Seq<TokenV>)>,
    rest: Seq<TokenV>,
) -> bool {
    match s {
        Ok((cs, t)) => r matches Ok(o) && opt_nodes_v(o) == opt_seq(cs) && rest == t,
        Err(e) => r matches Err(f) && f == e,
    }
}

/// `Some(children)`, or `None` when there are none.
fn maybe_nodes(children: Vec<Node>) -> (r: Option<Vec<Node>>)
    ensures
        opt_nodes_v(r) == opt_seq(nodes_v(children@)),
{
    proof {
        lemma_nodes_v_len(children@);
    }
    if children.len() == 0 {
        None
    } else {
        Some(children)
    }
}

/// The number of node values is the number of nodes.
pub proof fn lemma_nodes_v_len(s: Seq<Node>)
    ensures
        nodes_v(s).len() == s.len(),
    decreases s.len(),
{
    if s.len() > 0 {
        lemma_nodes_v_len(s.drop_last());
    }
}

proof fn lemma_with_prefix_push(acc: Seq<NodeV>, n: NodeV, r: Result<(Seq<NodeV>, Seq<TokenV>)>)
    ensures
        with_prefix(acc, match r {
            Ok((rest, t)) => Ok((seq![n] + rest, t)),
            Err(e) => Err(e),
        }) == with_prefix(acc.push(n), r),
{
    if let Ok((rest, t)) = r {
        assert(acc + (seq![n] + rest) =~= acc.push(n) + rest);
    }
}

/// Reads text up to a brace group, the end, or `stopping_lookaheads`.
fn parse_text(input: &mut TokenIterator, stopping_lookaheads: &[char]) -> (r: Result<String>)
    requires
        input_ok(old(input)@),
    ensures
        r matches Ok(s) && (s@, final(input)@) == text_spec(old(input)@, stopping_lookaheads@),
        input_ok(final(input)@),
{
    Ok(read_text(input, stopping_lookaheads))
}

/// Reads the children of a comment.
fn parse_comment_children(input: &mut TokenIterator) -> (r: Result<Option<Vec<Node>>>)
    requires
        input_ok(old(input)@),
    ensures
        children_agree(r, comment_children_spec(old(input)@), final(input)@),
        r is Ok ==> input_ok(final(input)@),
{
    let ghost ts0 = input@;
    let closing = [HYPHEN, HYPHEN, RIGHT_ANGLE];
    assert(closing@ =~= comment_closing());
    let mut children: Vec<Node> = Vec::new();
    loop
        invariant_except_break
            ts0 == old(input)@,
            input_ok(input@),
            closing@ == comment_closing(),
            comment_children_spec(ts0) == with_prefix(nodes_v(children@), comment_children_spec(input@)),
        ensures
            input_ok(input@),
            comment_children_spec(ts0) == Ok::<(Seq<NodeV>, Seq<TokenV>), Error>((nodes_v(children@), input@)),
        decreases input@.len(),
    {
        let ghost ts = input@;
        if input.is_empty() {
            return Err(Error::MoreTokensExpected);
        }
        if input.is_lookahead_puncts(closing.as_slice()) {
            assert(nodes_v(children@) + Seq::<NodeV>::empty() =~= nodes_v(children@));
            break ;
        }
        let child = if input.is_brace_group() {
            let code = match input.chomp_brace_group() {
                Ok(c) => c,
                Err(e) => return lift(e),
            };
            proof {
                lemma_input_ok_skip(ts, 1);
                assert(ts.skip(1) =~= ts.drop_first());
            }
            Node::Code(code)
        } else {
            proof {
                lemma_text_from(ts, comment_closing(), (false, false), Seq::empty());
            }
            let text = match parse_text(input, closing.as_slice()) {
                Ok(t) => t,
                Err(e) => return Err(e),
            };
            Node::Text(text)
        };
        proof {
            lemma_nodes_v_push(children@, child);
            lemma_with_prefix_push(nodes_v(children@), child.nv(), comment_children_spec(input@));
        }
        children.push(child);
    }
    Ok(maybe_nodes(children))
}

/// Reads a comment.
fn parse_node_comment(input: &mut TokenIterator) -> (r: Result<Node>)
    requires
        input_ok(old(input)@),
    ensures
        node_agrees(r, comment_spec(old(input)@), final(input)@),
        r is Ok ==> input_ok(final(input)@) && final(input)@.len() < old(input)@.len(),
{
    let ghost ts0 = input@;
    let opening = [LEFT_ANGLE, EXCLAMATION_MARK, HYPHEN, HYPHEN];
    assert(opening@ =~= seq!['<', '!', '-', '-']);
    match input.chomp_puncts(opening.as_slice()) {
        Ok(()) => {},
        Err(e) => return lift(e),
    }
    proof {
        assert(punct_at(ts0, 3, '-'));
        lemma_input_ok_skip(ts0, 4);
    }
    let children = match parse_comment_children(input) {
        Ok(c) => c,
        Err(e) => return Err(e),
    };
    let ghost ts1 = input@;
    let closing = [HYPHEN, HYPHEN, RIGHT_ANGLE];
    assert(closing@ =~= comment_closing());
    match input.chomp_puncts(closing.as_slice()) {
        Ok(()) => {},
        Err(e) => return lift(e),
    }
    proof {
        assert(punct_at(ts1, 2, '>'));
        lemma_input_ok_skip(ts1, 3);
        lemma_comment_children(ts0.skip(4));
    }
    Ok(Node::Comment { children })
}

/// What comment reading leaves is a suffix.
pub proof fn lemma_comment_children(ts: Seq<TokenV>)
    ensures
        comment_children_spec(ts) matches Ok((_, r)) ==> r.len() <= ts.len(),
    decreases ts.len(),
{
    if ts.len() > 0 && !puncts_ahead(ts, comment_closing()) {
        let (child, r) = if group_next(ts, Delimiter::Brace) {
            (NodeV::Code(group_inner(ts[0])), ts.drop_first())
        } else {
            let (t, r) = text_spec(ts, comment_closing());
            (NodeV::Text(t), r)
        };
        if r.len() < ts.len() {
            lemma_comment_children(r);
        }
    }
}

/// Reads a doctype.
fn parse_node_doctype(input: &mut TokenIterator) -> (r: Result<Node>)
    requires
        input_ok(old(input)@),
    ensures
        node_agrees(r, doctype_spec(old(input)@), final(input)@),
        r is Ok ==> input_ok(final(input)@) && final(input)@.len() < old(input)@.len(),
{
    let ghost ts0 = input@;
    let opening = [LEFT_ANGLE, EXCLAMATION_MARK];
    assert(opening@ =~= seq!['<', '!']);
    match input.chomp_puncts(opening.as_slice()) {
        Ok(()) => {},
        Err(e) => return lift(e),
    }
    proof {
        assert(punct_at(ts0, 1, '!'));
        lemma_input_ok_skip(ts0, 2);
    }
    let name = match parse_name(input) {
        Ok(n) => n,
        Err(e) => return Err(e),
    };
    let ghost ts2 = input@;
    proof {
        lemma_attributes(ts2);
    }
    let attributes = match parse_attributes(input) {
        Ok(a) => a,
        Err(e) => return Err(e),
    };
    let ghost ts3 = input@;
    match input.chomp_punct(RIGHT_ANGLE) {
        Ok(()) => {},
        Err(e) => return lift(e),
    }
    proof {
        lemma_input_ok_skip(ts3, 1);
        assert(ts3.skip(1) =~= ts3.drop_first());
    }
    Ok(Node::Doctype { name, attributes })
}

/// Returns whether a tag name names a component: text that starts with an
/// ASCII capital letter, followed by alphanumeric characters and underscores.
pub fn is_component_name(opening_tag_name: &Value) -> (r: bool)
    ensures
        r == is_component_name_spec(opening_tag_name@),
{
    match opening_tag_name {
        Value::Code(_) => false,
        Value::Text(name) => {
            let n = name.as_str().unicode_len();
            // Starts with an uppercase character.
            if n == 0 {
                return false;
            }
            let c = name.as_str().get_char(0);
            if !('A' <= c && c <= 'Z') {
                return false;
            }
            // The rest matches Rust identifier rules.
            let mut i: usize = 1;
            while i < n
                invariant
                    1 <= i <= n,
                    n == name@.len(),
                    opening_tag_name@ == ValueV::Text(name@),
                    'A' <= name@[0] <= 'Z',
                    forall|j: int| 1 <= j < i ==> (alphanumeric(#[trigger] name@[j]) || name@[j] == '_'),
                decreases n - i,
            {
                let c = name.as_str().get_char(i);
                if !is_alphanumeric(c) && c != '_' {
                    assert(!(alphanumeric(name@[i as int]) || name@[i as int] == '_'));
                    assert(opening_tag_name@ == ValueV::Text(name@));
                    assert(!is_component_name_spec(ValueV::Text(name@)));
                    return false;
                }
                i = i + 1;
            }
            true
        },
    }
}

} // verus!

verus! {

/// Reads a node.
fn parse_node(input: &mut TokenIterator) -> (r: Result<Node>)
    requires
        input_ok(old(input)@),
        old(input)@.len() > 0,
    ensures
        node_agrees(r, node_spec(old(input)@), final(input)@),
        r is Ok ==> input_ok(final(input)@) && final(input)@.len() < old(input)@.len(),
    decreases old(input)@.len(), 2nat,
{
    let ghost ts0 = input@;
    if input.is_next_punct(LEFT_ANGLE) {
        if input.is_lookahead_punct(EXCLAMATION_MARK, 1) {
            if input.is_lookahead_punct(HYPHEN, 2) {
                parse_node_comment(input)
            } else {
                parse_node_doctype(input)
            }
        } else {
            parse_node_tag(input)
        }
    } else if input.is_brace_group() {
        let code = match input.chomp_brace_group() {
            Ok(c) => c,
            Err(e) => return lift(e),
        };
        proof {
            lemma_input_ok_skip(ts0, 1);
            assert(ts0.skip(1) =~= ts0.drop_first());
        }
        Ok(Node::Code(code))
    } else {
        parse_node_text(input)
    }
}

/// Reads a tag.
#[verifier::rlimit(40)]
fn parse_node_tag(input: &mut TokenIterator) -> (r: Result<Node>)
    requires
        input_ok(old(input)@),
    ensures
        node_agrees(r, tag_spec(old(input)@), final(input)@),
        r is Ok ==> input_ok(final(input)@) && final(input)@.len() < old(input)@.len(),
    decreases old(input)@.len(), 1nat,
{
    let ghost ts0 = input@;
    match input.chomp_punct(LEFT_ANGLE) {
        Ok(()) => {},
        Err(e) => return lift(e),
    }
    let ghost t1 = input@;
    proof {
        lemma_input_ok_skip(ts0, 1);
        assert(ts0.skip(1) =~= ts0.drop_first());
    }
    // parses </>
    let empty_closing = [FORWARD_SLASH, RIGHT_ANGLE];
    assert(empty_closing@ =~= seq!['/', '>']);
    if input.is_lookahead_puncts(empty_closing.as_slice()) {
        match input.chomp_puncts(empty_closing.as_slice()) {
            Ok(()) => {},
            Err(e) => return lift(e),
        }
        proof {
            assert(punct_at(t1, 1, '>'));
            lemma_input_ok_skip(t1, 2);
        }
        return Ok(Node::Empty);
    }
    // parses <>(... contents)</>

    if input.is_next_punct(RIGHT_ANGLE) {
        match input.chomp_punct(RIGHT_ANGLE) {
            Ok(()) => {},
            Err(e) => return lift(e),
        }
        proof {
            lemma_input_ok_skip(t1, 1);
            assert(t1.skip(1) =~= t1.drop_first());
        }
        let maybe_children = match parse_children(input) {
            Ok(c) => c,
            Err(e) => return Err(e),
        };
        let ghost t3 = input@;
        let fragment_closing = [LEFT_ANGLE, FORWARD_SLASH, RIGHT_ANGLE];
        assert(fragment_closing@ =~= seq!['<', '/', '>']);
        match input.chomp_puncts(fragment_closing.as_slice()) {
            Ok(()) => {},
            Err(e) => return lift(e),
        }
        proof {
            assert(punct_at(t3, 2, '>'));
            lemma_input_ok_skip(t3, 3);
        }
        return match maybe_children {
            Some(children) => Ok(Node::Fragment { children }),
            None => Ok(Node::Empty),
        };
    }
    // Real tags from here on. i.e. <div></div> and <hr />

    let opening_tag_name = match parse_name(input) {
        Ok(n) => n,
        Err(e) => return Err(e),
    };
    let ghost t2 = input@;
    proof {
        lemma_attributes(t2);
    }
    let attributes = match parse_attributes(input) {
        Ok(a) => a,
        Err(e) => return Err(e),
    };
    let ghost t3 = input@;
    let is_component = is_component_name(&opening_tag_name);
    if input.is_next_punct(FORWARD_SLASH) {
        let self_closing = [FORWARD_SLASH, RIGHT_ANGLE];
        assert(self_closing@ =~= seq!['/', '>']);
        match input.chomp_puncts(self_closing.as_slice()) {
            Ok(()) => {},
            Err(e) => return lift(e),
        }
        proof {
            assert(punct_at(t3, 1, '>'));
            lemma_input_ok_skip(t3, 2);
        }
        if is_component {
            if let Value::Text(opening_tag_name_string) = opening_tag_name {
                return Ok(Node::SelfClosingComponent { name: opening_tag_name_string, attributes });
            } else {
                // A component name is always text.
                return Err(Error::UnexpectedToken);
            }
        } else {
            return Ok(Node::SelfClosing { name: opening_tag_name, attributes });
        }
    }
    match input.chomp_punct(RIGHT_ANGLE) {
        Ok(()) => {},
        Err(e) => return lift(e),
    }
    proof {
        lemma_input_ok_skip(t3, 1);
        assert(t3.skip(1) =~= t3.drop_first());
    }
    let children = match parse_children(input) {
        Ok(c) => c,
        Err(e) => return Err(e),
    };
    let ghost t5 = input@;
    // Closing Tag.
    let closing = [LEFT_ANGLE, FORWARD_SLASH];
    assert(closing@ =~= tag_closing());
    match input.chomp_puncts(closing.as_slice()) {
        Ok(()) => {},
        Err(e) => return lift(e),
    }
    proof {
        assert(punct_at(t5, 1, '/'));
        lemma_input_ok_skip(t5, 2);
    }
    let closing_tag_name = match parse_name(input) {
        Ok(n) => n,
        Err(e) => return Err(e),
    };
    let ghost t7 = input@;
    match input.chomp_punct(RIGHT_ANGLE) {
        Ok(()) => {},
        Err(e) => return lift(e),
    }
    proof {
        lemma_input_ok_skip(t7, 1);
        assert(t7.skip(1) =~= t7.drop_first());
    }
    match (&opening_tag_name, &closing_tag_name) {
        (Value::Text(left_text), Value::Text(right_text)) => {
            if *left_text != *right_text {
                return Err(Error::MismatchedClosingTagName);
            }
        },
        (Value::Code(left_code), Value::Code(right_code)) => {
            if right_code.len() != 0 {
                if !token_stream_eq(left_code, right_code) {
                    return Err(Error::MismatchedClosingTagCode);
                }
            }
            proof {
                lemma_tokens_v(right_code@);
            }
        },
        _ => {
            return Err(Error::MismatchedClosingTagName);
        },
    }
    if is_component {
        if let Value::Text(opening_tag_name_string) = opening_tag_name {
            Ok(Node::OpenComponent { name: opening_tag_name_string, attributes, children })
        } else {
            // A component name is always text.
            Err(Error::UnexpectedToken)
        }
    } else {
        Ok(Node::Open { name: opening_tag_name, attributes, children })
    }
}

/// Reads text as a node.
fn parse_node_text(input: &mut TokenIterator) -> (r: Result<Node>)
    requires
        input_ok(old(input)@),
        !punct_at(old(input)@, 0, '<'),
        !group_next(old(input)@, Delimiter::Brace),
        old(input)@.len() > 0,
    ensures
        r matches Ok(n) && (n.nv(), final(input)@) == (
            NodeV::Text(text_spec(old(input)@, tag_opening()).0),
            text_spec(old(input)@, tag_opening()).1,
        ),
        input_ok(final(input)@) && final(input)@.len() < old(input)@.len(),
{
    let opening = [LEFT_ANGLE];
    assert(opening@ =~= tag_opening());
    proof {
        lemma_text_from(input@, tag_opening(), (false, false), Seq::empty());
        assert(!puncts_ahead(input@, tag_opening())) by {
            assert(!punct_at(input@, 0, '<'));
        }
    }
    let text = match parse_text(input, opening.as_slice()) {
        Ok(t) => t,
        Err(e) => return Err(e),
    };
    Ok(Node::Text(text))
}

/// Reads child nodes up to `</`; `None` when there are none.
fn parse_children(input: &mut TokenIterator) -> (r: Result<Option<Vec<Node>>>)
    requires
        input_ok(old(input)@),
    ensures
        children_agree(r, children_spec(old(input)@), final(input)@),
        r is Ok ==> input_ok(final(input)@) && final(input)@.len() <= old(input)@.len(),
    decreases old(input)@.len(), 3nat,
{
    let ghost ts0 = input@;
    let closing = [LEFT_ANGLE, FORWARD_SLASH];
    assert(closing@ =~= tag_closing());
    let mut children: Vec<Node> = Vec::new();
    loop
        invariant_except_break
            ts0 == old(input)@,
            input_ok(input@),
            input@.len() <= ts0.len(),
            closing@ == tag_closing(),
            children_spec(ts0) == with_prefix(nodes_v(children@), children_spec(input@)),
        ensures
            input_ok(input@),
            input@.len() <= ts0.len(),
            children_spec(ts0) == Ok::<(Seq<NodeV>, Seq<TokenV>), Error>((nodes_v(children@), input@)),
        decreases input@.len(),
    {
        if input.is_empty() {
            return Err(Error::MoreTokensExpected);
        }
        if input.is_lookahead_puncts(closing.as_slice()) {
            assert(nodes_v(children@) + Seq::<NodeV>::empty() =~= nodes_v(children@));
            break ;
        }
        let child = match parse_node(input) {
            Ok(c) => c,
            Err(e) => return Err(e),
        };
        proof {
            lemma_nodes_v_push(children@, child);
            lemma_with_prefix_push(nodes_v(children@), child.nv(), children_spec(input@));
        }
        children.push(child);
    }
    Ok(maybe_nodes(children))
}

/// Reads the root: every node up to the end.
fn parse_root_node(input: &mut TokenIterator) -> (r: Result<Node>)
    requires
        input_ok(old(input)@),
    ensures
        match root_node_spec(old(input)@) {
            Ok(n) => r matches Ok(x) && x.nv() == n && final(input)@.len() == 0,
            Err(e) => r matches Err(f) && f == e,
        },
{
    let ghost ts0 = input@;
    let mut nodes: MicroVec<Node> = MicroVec::new();
    loop
        invariant_except_break
            ts0 == old(input)@,
            input_ok(input@),
            nodes.wf(),
            root_nodes_spec(ts0) == (match root_nodes_spec(input@) {
                Ok(rest) => Ok(nodes_v(nodes.items()) + rest),
                Err(e) => Err(e),
            }),
        ensures
            nodes.wf(),
            input@.len() == 0,
            root_nodes_spec(ts0) == Ok::<Seq<NodeV>, Error>(nodes_v(nodes.items())),
        decreases input@.len(),
    {
        if input.is_empty() {
            assert(nodes_v(nodes.items()) + Seq::<NodeV>::empty() =~= nodes_v(nodes.items()));
            break ;
        }
        let node = match parse_node(input) {
            Ok(n) => n,
            Err(e) => return Err(e),
        };
        proof {
            lemma_nodes_v_push(nodes.items(), node);
            if let Ok(rest) = root_nodes_spec(input@) {
                assert(nodes_v(nodes.items()) + (seq![node.nv()] + rest) =~= nodes_v(
                    nodes.items(),
                ).push(node.nv()) + rest);
            }
        }
        nodes = nodes.push(node);
    }
    proof {
        lemma_nodes_v_len(nodes.items());
    }
    match nodes {
        MicroVec::Nothing => Err(Error::EmptyMacroStreamGiven),
        MicroVec::Item(node) => {
            assert(nodes_v(seq![node]) =~= seq![node.nv()]) by {
                assert(seq![node].drop_last() =~= Seq::<Node>::empty());
            }
            Ok(node)
        },
        MicroVec::Vec(children) => Ok(Node::Fragment { children }),
    }
}

/// Reads a whole token stream.
fn parse_root(stream: Vec<Token>) -> (r: Result<Node>)
    requires
        tokens_wf(tokens_v(stream@)),
    ensures
        match parse_spec(tokens_v(stream@)) {
            Ok(n) => r matches Ok(x) && x.nv() == n,
            Err(e) => r matches Err(f) && f == e,
        },
{
    proof {
        lemma_tokens_v(stream@);
    }
    if stream.len() == 0 {
        return Err(Error::EmptyMacroStreamGiven);
    }
    let ghost v = tokens_v(stream@);
    let flat_stream = flatten_non_braces(stream);
    let mut input = TokenIterator::new(flat_stream);
    proof {
        lemma_flatten_idempotent(v);
    }
    let node = match parse_root_node(&mut input) {
        Ok(n) => n,
        Err(e) => return Err(e),
    };
    if !input.is_empty() {
        return Err(Error::ExcessNodesFound);
    }
    Ok(node)
}

/// Parses markup into its syntax tree.
pub fn parse(stream: Vec<Token>) -> (r: Result<Node>)
    requires
        tokens_wf(tokens_v(stream@)),
    ensures
        match parse_spec(tokens_v(stream@)) {
            Ok(n) => r matches Ok(x) && x.nv() == n,
            Err(e) => r matches Err(f) && f == e,
        },
{
    parse_root(stream)
}

} // verus!
