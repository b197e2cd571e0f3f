//! The basic grammar: a single tag at the root, whose children
//! are tags, text and code.

use crate::basic::ast_error::{ast_error_of, ASTError, Result};
use crate::parser::grammar::token_iterator::{
    group_next, group_text, ident_at, literal_next, punct_at, TokenIterator, TokenIteratorError,
};
use crate::parser::grammar::{
    ident_name, input_ok, lemma_input_ok_skip, lemma_text_from, literal_repr, opt_seq, read_text,
    tag_opening, text_spec,
};
use crate::parser::token_stream::flatten_v;
use crate::text::strip_quotes;
use crate::token::{lemma_tokens_v, tokens_v, tokens_wf, Delimiter, Token, TokenV};
use vstd::prelude::*;

verus! {

const LEFT_ANGLE: char = '<';
const RIGHT_ANGLE: char = '>';
const FORWARD_SLASH: char = '/';
const EQUALS: char = '=';

/// A node: a tag, or text or code.
#[derive(Debug)]
pub enum Node {
    Tag(Tag),
    Literal(Literal),
}

/// Text, or the text of code.
#[derive(Clone, Debug, PartialEq)]
pub enum Literal {
    Text(String),
    Code(String),
}

/// An attribute: a key and an optional value.
#[derive(Clone, Debug, PartialEq)]
pub struct Attribute {
    pub key: String,
    pub value: Option<Literal>,
}

/// A tag with its attributes and children.
#[derive(Debug)]
pub struct Tag {
    pub tag: String,
    pub is_self_closing: bool,
    pub attributes: Option<Vec<Attribute>>,
    pub children: Option<Vec<Node>>,
}

/// The mathematical value of a `Literal`.
pub enum LiteralV {
    Text(Seq<char>),
    Code(Seq<char>),
}

/// The mathematical value of an `Attribute`.
pub struct AttributeV {
    pub key: Seq<char>,
    pub value: Option<LiteralV>,
}

/// The mathematical value of a `Tag`.
pub struct TagV {
    pub tag: Seq<char>,
    pub is_self_closing: bool,
    pub attributes: Option<Seq<AttributeV>>,
    pub children: Option<Seq<NodeV>>,
}

/// The mathematical value of a `Node`.
pub enum NodeV {
    Tag(TagV),
    Literal(LiteralV),
}

impl View for Literal {
    type V = LiteralV;

    open spec fn view(&self) -> LiteralV {
        match self {
            Literal::Text(s) => LiteralV::Text(s@),
            Literal::Code(s) => LiteralV::Code(s@),
        }
    }
}

impl View for Attribute {
    type V = AttributeV;

    open spec fn view(&self) -> AttributeV {
        AttributeV {
            key: self.key@,
            value: match self.value {
                Some(v) => Some(v@),
                None => None,
            },
        }
    }
}

/// The values of a sequence of attributes.
pub open spec fn attributes_v(s: Seq<Attribute>) -> Seq<AttributeV> {
    s.map_values(|a: Attribute| a@)
}

/// The values of optional attributes.
pub open spec fn opt_attributes_v(s: Option<Vec<Attribute>>) -> Option<Seq<AttributeV>> {
    match s {
        Some(v) => Some(attributes_v(v@)),
        None => None,
    }
}

impl Tag {
    /// The value of this tag.
    pub open spec fn tv(self) -> TagV
        decreases self,
    {
        TagV {
            tag: self.tag@,
            is_self_closing: self.is_self_closing,
            attributes: opt_attributes_v(self.attributes),
            children: match self.children {
                Some(cs) => Some(nodes_v(cs@)),
                None => None,
            },
        }
    }
}

impl Node {
    /// The value of this node.
    pub open spec fn nv(self) -> NodeV
        decreases self,
    {
        match self {
            Node::Tag(t) => NodeV::Tag(t.tv()),
            Node::Literal(l) => NodeV::Literal(l@),
        }
    }
}

/// The values of a sequence of nodes.
pub open spec fn nodes_v(s: Seq<Node>) -> Seq<NodeV>
    decreases s,
{
    if s.len() == 0 {
        Seq::empty()
    } else {
        nodes_v(s.drop_last()).push(s.last().nv())
    }
}

// ----- the grammar, as spec functions: each gives its result and the tokens
// it leaves, on success and on failure alike -----

/// The text a token prints as, for a group.
pub open spec fn printed(t: TokenV) -> Seq<char> {
    match t {
        TokenV::Group(_, _, text) => text,
        _ => Seq::empty(),
    }
}

/// Reads an attribute value: code in braces, or a literal.
pub open spec fn value_spec(ts: Seq<TokenV>) -> (Result<LiteralV>, Seq<TokenV>) {
    if group_next(ts, Delimiter::Brace) {
        (Ok(LiteralV::Code(group_text(printed(ts[0])))), ts.drop_first())
    } else if literal_next(ts) {
        (Ok(LiteralV::Text(strip_quotes(literal_repr(ts[0])))), ts.drop_first())
    } else {
        (Err(ASTError::UnexpectedToken), ts)
    }
}

/// Reads an optional attribute: an identifier, then `=` and a value if there is one.
pub open spec fn attribute_spec(ts: Seq<TokenV>) -> (Result<Option<AttributeV>>, Seq<TokenV>) {
    if !ident_at(ts, 0) {
        (Ok(None), ts)
    } else {
        let key = ident_name(ts[0]);
        let r = ts.drop_first();
        if punct_at(r, 0, '=') {
            let (v, r2) = value_spec(r.drop_first());
            match v {
                Ok(v) => (Ok(Some(AttributeV { key, value: Some(v) })), r2),
                Err(e) => (Err(e), r2),
            }
        } else {
            (Ok(Some(AttributeV { key, value: None })), r)
        }
    }
}

/// Reads attributes while there are any.
pub open spec fn attributes_spec(ts: Seq<TokenV>) -> (Result<Seq<AttributeV>>, Seq<TokenV>)
    decreases ts.len(),
{
    let (a, r) = attribute_spec(ts);
    match a {
        Err(e) => (Err(e), r),
        Ok(None) => (Ok(Seq::empty()), r),
        Ok(Some(x)) => {
            if r.len() < ts.len() {
                let (rest, r2) = attributes_spec(r);
                (
                    match rest {
                        Ok(s) => Ok(seq![x] + s),
                        Err(e) => Err(e),
                    },
                    r2,
                )
            } else {
                (Err(ASTError::UnexpectedToken), r)
            }
        },
    }
}

/// Reads code, or text up to code or `<`; text must not run to the end.
pub open spec fn child_literal_spec(ts: Seq<TokenV>) -> (Result<LiteralV>, Seq<TokenV>) {
    if group_next(ts, Delimiter::Brace) {
        (Ok(LiteralV::Code(group_text(printed(ts[0])))), ts.drop_first())
    } else {
        let (t, r) = text_spec(ts, tag_opening());
        if r.len() == 0 {
            (Err(ASTError::ChompOnEmptyNode), r)
        } else {
            (Ok(LiteralV::Text(t)), r)
        }
    }
}

/// An identifier's name if one is next, else the empty name.
pub open spec fn name_or_empty(ts: Seq<TokenV>) -> (Seq<char>, Seq<TokenV>) {
    if ident_at(ts, 0) {
        (ident_name(ts[0]), ts.drop_first())
    } else {
        (Seq::empty(), ts)
    }
}

/// Reads a tag: `<name attributes/>`, or `<name attributes>children</name>`;
/// the name may be left out.
pub open spec fn tag_spec(ts: Seq<TokenV>) -> (Result<TagV>, Seq<TokenV>)
    decreases ts.len(), 1nat,
{
    if !punct_at(ts, 0, '<') {
        (Err(ASTError::UnexpectedToken), ts)
    } else {
        let (name, t2) = name_or_empty(ts.drop_first());
        let (attrs, t3) = attributes_spec(t2);
        match attrs {
            Err(e) => (Err(e), t3),
            Ok(attrs) => {
                if punct_at(t3, 0, '/') {
                    if punct_at(t3, 1, '>') {
                        (
                            Ok(
                                TagV {
                                    tag: name,
                                    is_self_closing: true,
                                    attributes: opt_seq(attrs),
                                    children: None,
                                },
                            ),
                            t3.skip(2),
                        )
                    } else {
                        (Err(ASTError::UnexpectedToken), t3.drop_first())
                    }
                } else if !punct_at(t3, 0, '>') {
                    (Err(ASTError::UnexpectedToken), t3)
                } else if t3.drop_first().len() >= ts.len() {
                    (Err(ASTError::UnexpectedToken), t3)
                } else {
                    let (cs, t5) = children_spec(t3.drop_first());
                    match cs {
                        Err(e) => (Err(e), t5),
                        Ok(cs) => {
                            if !punct_at(t5, 0, '<') {
                                (Err(ASTError::UnexpectedToken), t5)
                            } else if !punct_at(t5, 1, '/') {
                                (Err(ASTError::UnexpectedToken), t5.drop_first())
                            } else {
                                let (close, t7) = name_or_empty(t5.skip(2));
                                if !punct_at(t7, 0, '>') {
                                    (Err(ASTError::UnexpectedToken), t7)
                                } else if close != name {
                                    (Err(ASTError::MismatchedTagName), t7.drop_first())
                                } else {
                                    (
                                        Ok(
                                            TagV {
                                                tag: name,
                                                is_self_closing: false,
                                                attributes: opt_seq(attrs),
                                                children: opt_seq(cs),
                                            },
                                        ),
                                        t7.drop_first(),
                                    )
                                }
                            }
                        },
                    }
                }
            },
        }
    }
}

/// Reads child nodes up to `</`.
pub open spec fn children_spec(ts: Seq<TokenV>) -> (Result<Seq<NodeV>>, Seq<TokenV>)
    decreases ts.len(), 2nat,
{
    if punct_at(ts, 0, '<') && punct_at(ts, 1, '/') {
        (Ok(Seq::empty()), ts)
    } else {
        let (child, r) = if punct_at(ts, 0, '<') {
            let (t, r) = tag_spec(ts);
            (
                match t {
                    Ok(t) => Ok(NodeV::Tag(t)),
                    Err(e) => Err(e),
                },
                r,
            )
        } else {
            let (l, r) = child_literal_spec(ts);
            (
                match l {
                    Ok(l) => Ok(NodeV::Literal(l)),
                    Err(e) => Err(e),
                },
                r,
            )
        };
        match child {
            Err(e) => (Err(e), r),
            Ok(c) => {
                if r.len() < ts.len() {
                    let (rest, r2) = children_spec(r);
                    (
                        match rest {
                            Ok(s) => Ok(seq![c] + s),
                            Err(e) => Err(e),
                        },
                        r2,
                    )
                } else {
                    (Err(ASTError::UnexpectedToken), r)
                }
            },
        }
    }
}

/// Reads the root node, which must be a tag.
pub open spec fn node_spec(ts: Seq<TokenV>) -> (Result<NodeV>, Seq<TokenV>) {
    if punct_at(ts, 0, '<') {
        let (t, r) = tag_spec(ts);
        (
            match t {
                Ok(t) => Ok(NodeV::Tag(t)),
                Err(e) => Err(e),
            },
            r,
        )
    } else {
        (Err(ASTError::UnexpectedInput), ts)
    }
}

/// What the grammar makes of a token stream: nothing for no tokens, else one
/// node that must use up every token.
pub open spec fn parse_spec(stream: Seq<TokenV>) -> Result<Option<NodeV>> {
    if stream.len() == 0 {
        Ok(None)
    } else {
        let (n, r) = node_spec(flatten_v(stream));
        if r.len() != 0 {
            Err(ASTError::ExcessNodesFound)
        } else {
            match n {
                Ok(n) => Ok(Some(n)),
                Err(e) => Err(e),
            }
        }
    }
}

} // verus!

verus! {

// ----- facts about the grammar -----

proof fn lemma_value_len(ts: Seq<TokenV>)
    ensures
        value_spec(ts).1.len() <= ts.len(),
{
}

/// Attribute reading never lengthens the input; an attribute that was read used up a token.
proof fn lemma_attribute_len(ts: Seq<TokenV>)
    ensures
        attribute_spec(ts).1.len() <= ts.len(),
        attribute_spec(ts).0 matches Ok(Some(_)) ==> attribute_spec(ts).1.len() < ts.len(),
{
    if ident_at(ts, 0) && punct_at(ts.drop_first(), 0, '=') {
        lemma_value_len(ts.drop_first().drop_first());
    }
}

/// Attributes reading never lengthens the input.
proof fn lemma_attributes_len(ts: Seq<TokenV>)
    ensures
        attributes_spec(ts).1.len() <= ts.len(),
    decreases ts.len(),
{
    lemma_attribute_len(ts);
    let (a, r) = attribute_spec(ts);
    if a matches Ok(Some(_)) {
        if r.len() < ts.len() {
            lemma_attributes_len(r);
        }
    }
}

/// Child text reading never lengthens the input; text that was read used up a token.
proof fn lemma_child_literal_len(ts: Seq<TokenV>)
    ensures
        child_literal_spec(ts).1.len() <= ts.len(),
        child_literal_spec(ts).0 is Ok && !punct_at(ts, 0, '<') ==> child_literal_spec(ts).1.len()
            < ts.len(),
{
    lemma_text_from(ts, tag_opening(), (false, false), Seq::empty());
    assert(crate::parser::grammar::token_iterator::puncts_ahead(ts, tag_opening()) ==> punct_at(
        ts,
        0,
        '<',
    )) by {
        assert(tag_opening()[0] == '<');
    }
}

/// Tag and children reading never lengthen the input; a tag that was read used up a token.
proof fn lemma_tag_len(ts: Seq<TokenV>)
    ensures
        tag_spec(ts).1.len() <= ts.len(),
        tag_spec(ts).0 is Ok ==> tag_spec(ts).1.len() < ts.len(),
    decreases ts.len(), 1nat,
{
    if punct_at(ts, 0, '<') {
        let (name, t2) = name_or_empty(ts.drop_first());
        lemma_attributes_len(t2);
        let (attrs, t3) = attributes_spec(t2);
        if attrs is Ok && !punct_at(t3, 0, '/') && punct_at(t3, 0, '>') && t3.drop_first().len()
            < ts.len() {
            lemma_children_len(t3.drop_first());
        }
    }
}

/// Children reading never lengthens the input.
proof fn lemma_children_len(ts: Seq<TokenV>)
    ensures
        children_spec(ts).1.len() <= ts.len(),
    decreases ts.len(), 2nat,
{
    if !(punct_at(ts, 0, '<') && punct_at(ts, 1, '/')) {
        if punct_at(ts, 0, '<') {
            lemma_tag_len(ts);
        } else {
            lemma_child_literal_len(ts);
        }
        let (child, r) = if punct_at(ts, 0, '<') {
            let (t, r) = tag_spec(ts);
            (
                match t {
                    Ok(t) => Ok(NodeV::Tag(t)),
                    Err(e) => Err(e),
                },
                r,
            )
        } else {
            let (l, r) = child_literal_spec(ts);
            (
                match l {
                    Ok(l) => Ok(NodeV::Literal(l)),
                    Err(e) => Err(e),
                },
                r,
            )
        };
        if child is Ok && r.len() < ts.len() {
            lemma_children_len(r);
        }
    }
}

// ----- reading -----

/// An executable result agrees with a spec result.
pub open spec fn agrees<X, V>(r: Result<X>, s: Result<V>, view: spec_fn(X) -> V) -> bool {
    match s {
        Ok(v) => r matches Ok(x) && view(x) == v,
        Err(e) => r matches Err(f) && f == e,
    }
}

fn lift<A>(e: TokenIteratorError) -> (r: Result<A>)
    ensures
        r == Err::<A, ASTError>(ast_error_of(e)),
{
    Err(ASTError::from(e))
}

/// The basic grammar.
pub struct Grammar {}

impl Grammar {
    /// A grammar.
    pub fn new() -> (r: Self) {
        Self {  }
    }

    /// Parses a token stream: nothing for no tokens, else its one root tag.
    pub fn parse(&self, stream: Vec<Token>) -> (r: Result<Option<Node>>)
        requires
            tokens_wf(tokens_v(stream@)),
        ensures
            match parse_spec(tokens_v(stream@)) {
                Ok(Some(n)) => r matches Ok(Some(x)) && x.nv() == n,
                Ok(None) => r matches Ok(None),
                Err(e) => r matches Err(f) && f == e,
            },
    {
        proof {
            lemma_tokens_v(stream@);
        }
        if stream.len() == 0 {
            return Ok(None);
        }
        let mut input = TokenIterator::new(stream);
        let node = match self.parse_node(&mut input) {
            Ok(n) => Ok(Some(n)),
            Err(e) => Err(e),
        };
        if !input.is_empty() {
            return Err(ASTError::ExcessNodesFound);
        }
        node
    }

    fn parse_node(&self, input: &mut TokenIterator) -> (r: Result<Node>)
        requires
            input_ok(old(input)@),
        ensures
            agrees(r, node_spec(old(input)@).0, |n: Node| n.nv()),
            final(input)@ == node_spec(old(input)@).1,
    {
        if input.is_next_punct(LEFT_ANGLE) {
            match self.parse_tag(input) {
                Ok(tag) => Ok(Node::Tag(tag)),
                Err(e) => Err(e),
            }
        } else {
            Err(ASTError::UnexpectedInput)
        }
    }

    fn parse_tag(&self, input: &mut TokenIterator) -> (r: Result<Tag>)
        requires
            input_ok(old(input)@),
        ensures
            agrees(r, tag_spec(old(input)@).0, |t: Tag| t.tv()),
            final(input)@ == tag_spec(old(input)@).1,
            r is Ok ==> input_ok(final(input)@),
            final(input)@.len() <= old(input)@.len(),
        decreases old(input)@.len(), 1nat,
    {
        let ghost ts0 = input@;
        proof {
            lemma_tag_len(ts0);
        }
        match input.chomp_punct(LEFT_ANGLE) {
            Ok(()) => {},
            Err(e) => return lift(e),
        }
        let ghost t1 = input@;
        proof {
            lemma_input_ok_skip(ts0, 1);
            assert(ts0.skip(1) =~= ts0.drop_first());
        }
        let opening_tag = match input.chomp_ident_or("") {
            Ok(s) => s,
            Err(e) => return lift(e),
        };
        let ghost t2 = input@;
        proof {
            if ident_at(t1, 0) {
                lemma_input_ok_skip(t1, 1);
                assert(t1.skip(1) =~= t1.drop_first());
            }
            reveal_strlit("");
            assert(name_or_empty(t1) == (opening_tag@, t2));
            lemma_attributes_len(t2);
        }
        // Attributes
        let attributes = match self.parse_attributes(input) {
            Ok(a) => a,
            Err(e) => return Err(e),
        };
        let ghost t3 = input@;
        if input.is_next_punct(FORWARD_SLASH) {
            match input.chomp_punct(FORWARD_SLASH) {
                Ok(()) => {},
                Err(e) => return lift(e),
            }
            match input.chomp_punct(RIGHT_ANGLE) {
                Ok(()) => {},
                Err(e) => return lift(e),
            }
            proof {
                assert(t3.drop_first().drop_first() =~= t3.skip(2));
                lemma_input_ok_skip(t3, 2);
            }
            return Ok(Tag { tag: opening_tag, is_self_closing: true, attributes, children: None });
        }
        match input.chomp_punct(RIGHT_ANGLE) {
            Ok(()) => {},
            Err(e) => return lift(e),
        }
        proof {
            lemma_input_ok_skip(t3, 1);
            assert(t3.skip(1) =~= t3.drop_first());
        }
        let children = match self.parse_children(input) {
            Ok(c) => c,
            Err(e) => return Err(e),
        };
        let ghost t5 = input@;
        // Closing Tag.
        match input.chomp_punct(LEFT_ANGLE) {
            Ok(()) => {},
            Err(e) => return lift(e),
        }
        match input.chomp_punct(FORWARD_SLASH) {
            Ok(()) => {},
            Err(e) => return lift(e),
        }
        let ghost t6 = input@;
        proof {
            assert(t5.drop_first().drop_first() =~= t5.skip(2));
            lemma_input_ok_skip(t5, 2);
        }
        let closing_tag = match input.chomp_ident_or("") {
            Ok(s) => s,
            Err(e) => return lift(e),
        };
        let ghost t7 = input@;
        proof {
            if ident_at(t6, 0) {
                lemma_input_ok_skip(t6, 1);
                assert(t6.skip(1) =~= t6.drop_first());
            }
            assert(name_or_empty(t6) == (closing_tag@, t7));
        }
        match input.chomp_punct(RIGHT_ANGLE) {
            Ok(()) => {},
            Err(e) => return lift(e),
        }
        proof {
            lemma_input_ok_skip(t7, 1);
            assert(t7.skip(1) =~= t7.drop_first());
        }
        if closing_tag != opening_tag {
            return Err(ASTError::MismatchedTagName);
        }
        Ok(Tag { tag: opening_tag, is_self_closing: false, attributes, children })
    }

    fn parse_attributes(&self, input: &mut TokenIterator) -> (r: Result<Option<Vec<Attribute>>>)
        requires
            input_ok(old(input)@),
        ensures
            agrees(
                r,
                match attributes_spec(old(input)@).0 {
                    Ok(a) => Ok(opt_seq(a)),
                    Err(e) => Err(e),
                },
                |a: Option<Vec<Attribute>>| opt_attributes_v(a),
            ),
            final(input)@ == attributes_spec(old(input)@).1,
            r is Ok ==> input_ok(final(input)@),
    {
        let ghost ts0 = input@;
        let mut attrs: Vec<Attribute> = Vec::new();
        loop
            invariant_except_break
                ts0 == old(input)@,
                input_ok(input@),
                attributes_spec(ts0) == (
                    match attributes_spec(input@).0 {
                        Ok(rest) => Ok(attributes_v(attrs@) + rest),
                        Err(e) => Err(e),
                    },
                    attributes_spec(input@).1,
                ),
            ensures
                input_ok(input@),
                attributes_spec(ts0) == (Ok::<Seq<AttributeV>, ASTError>(attributes_v(attrs@)), input@),
            decreases input@.len(),
        {
            let ghost ts = input@;
            proof {
                lemma_attribute_len(ts);
            }
            match self.parse_attribute(input) {
                Err(e) => {
                    return Err(e);
                },
                Ok(Some(attribute)) => {
                    proof {
                        assert(attributes_v(attrs@.push(attribute)) =~= attributes_v(attrs@).push(
                            attribute@,
                        ));
                        if let Ok(rest) = attributes_spec(input@).0 {
                            assert(attributes_v(attrs@).push(attribute@) + rest =~= attributes_v(
                                attrs@,
                            ) + (seq![attribute@] + rest));
                        }
                    }
                    attrs.push(attribute);
                },
                Ok(None) => {
                    proof {
                        assert(attributes_v(attrs@) + Seq::<AttributeV>::empty() =~= attributes_v(
                            attrs@,
                        ));
                    }
                    break ;
                },
            }
        }
        proof {
            assert(attributes_v(attrs@).len() == attrs@.len());
        }
        if attrs.len() == 0 {
            Ok(None)
        } else {
            Ok(Some(attrs))
        }
    }

    fn parse_attribute(&self, input: &mut TokenIterator) -> (r: Result<Option<Attribute>>)
        requires
            input_ok(old(input)@),
        ensures
            agrees(
                r,
                attribute_spec(old(input)@).0,
                |a: Option<Attribute>|
                    match a {
                        Some(x) => Some(x@),
                        None => None,
                    },
            ),
            final(input)@ == attribute_spec(old(input)@).1,
            r is Ok ==> input_ok(final(input)@),
    {
        let ghost ts0 = input@;
        if input.is_next_ident() {
            let key = match input.chomp_ident() {
                Ok(k) => k,
                Err(e) => return lift(e),
            };
            let ghost ts1 = input@;
            proof {
                lemma_input_ok_skip(ts0, 1);
                assert(ts0.skip(1) =~= ts0.drop_first());
            }
            let value = if input.is_next_punct(EQUALS) {
                match input.chomp_punct(EQUALS) {
                    Ok(()) => {},
                    Err(e) => return lift(e),
                }
                proof {
                    lemma_input_ok_skip(ts1, 1);
                    assert(ts1.skip(1) =~= ts1.drop_first());
                }
                match self.parse_attribute_value(input) {
                    Ok(v) => Some(v),
                    Err(e) => return Err(e),
                }
            } else {
                None
            };
            return Ok(Some(Attribute { key, value }));
        }
        Ok(None)
    }

    fn parse_attribute_value(&self, input: &mut TokenIterator) -> (r: Result<Literal>)
        requires
            input_ok(old(input)@),
        ensures
            agrees(r, value_spec(old(input)@).0, |l: Literal| l@),
            final(input)@ == value_spec(old(input)@).1,
            r is Ok ==> input_ok(final(input)@),
    {
        let ghost ts0 = input@;
        proof {
            if ts0.len() > 0 {
                lemma_input_ok_skip(ts0, 1);
                assert(ts0.skip(1) =~= ts0.drop_first());
            }
        }
        if input.is_brace_group() {
            match input.chomp_group(Delimiter::Brace) {
                Ok(code) => Ok(Literal::Code(code)),
                Err(e) => lift(e),
            }
        } else {
            match input.chomp_literal() {
                Ok(text) => Ok(Literal::Text(text)),
                Err(e) => lift(e),
            }
        }
    }

    fn parse_children(&self, input: &mut TokenIterator) -> (r: Result<Option<Vec<Node>>>)
        requires
            input_ok(old(input)@),
        ensures
            agrees(
                r,
                match children_spec(old(input)@).0 {
                    Ok(cs) => Ok(opt_seq(cs)),
                    Err(e) => Err(e),
                },
                |o: Option<Vec<Node>>|
                    match o {
                        Some(cs) => Some(nodes_v(cs@)),
                        None => None,
                    },
            ),
            final(input)@ == children_spec(old(input)@).1,
            r is Ok ==> input_ok(final(input)@),
            final(input)@.len() <= old(input)@.len(),
        decreases old(input)@.len(), 2nat,
    {
        let ghost ts0 = input@;
        proof {
            lemma_children_len(ts0);
        }
        let mut children: Vec<Node> = Vec::new();
        loop
            invariant_except_break
                ts0 == old(input)@,
                input_ok(input@),
                input@.len() <= ts0.len(),
                children_spec(ts0).1.len() <= ts0.len(),
                children_spec(ts0) == (
                    match children_spec(input@).0 {
                        Ok(rest) => Ok(nodes_v(children@) + rest),
                        Err(e) => Err(e),
                    },
                    children_spec(input@).1,
                ),
            ensures
                input_ok(input@),
                input@.len() <= ts0.len(),
                children_spec(ts0) == (Ok::<Seq<NodeV>, ASTError>(nodes_v(children@)), input@),
            decreases input@.len(),
        {
            let ghost ts = input@;
            if input.is_next_punct(LEFT_ANGLE) && input.is_lookahead_punct(FORWARD_SLASH, 1) {
                assert(nodes_v(children@) + Seq::<NodeV>::empty() =~= nodes_v(children@));
                break ;
            }
            let node = if input.is_next_punct(LEFT_ANGLE) {
                proof {
                    lemma_tag_len(ts);
                }
                match self.parse_tag(input) {
                    Ok(tag) => Node::Tag(tag),
                    Err(e) => return Err(e),
                }
            } else {
                proof {
                    lemma_child_literal_len(ts);
                }
                match self.parse_child_literal(input) {
                    Ok(literal) => Node::Literal(literal),
                    Err(e) => return Err(e),
                }
            };
            proof {
                assert(children@.push(node).drop_last() =~= children@);
                if let Ok(rest) = children_spec(input@).0 {
                    assert(nodes_v(children@).push(node.nv()) + rest =~= nodes_v(children@) + (
                    seq![node.nv()] + rest));
                }
            }
            children.push(node);
        }
        proof {
            lemma_nodes_v_len(children@);
        }
        if children.len() == 0 {
            Ok(None)
        } else {
            Ok(Some(children))
        }
    }

    fn parse_child_literal(&self, input: &mut TokenIterator) -> (r: Result<Literal>)
        requires
            input_ok(old(input)@),
        ensures
            agrees(r, child_literal_spec(old(input)@).0, |l: Literal| l@),
            final(input)@ == child_literal_spec(old(input)@).1,
            r is Ok ==> input_ok(final(input)@),
    {
        let ghost ts0 = input@;
        if input.is_brace_group() {
            let code = match input.chomp_group(Delimiter::Brace) {
                Ok(c) => c,
                Err(e) => return lift(e),
            };
            proof {
                lemma_input_ok_skip(ts0, 1);
                assert(ts0.skip(1) =~= ts0.drop_first());
            }
            return Ok(Literal::Code(code));
        }
        let opening = [LEFT_ANGLE];
        assert(opening@ =~= tag_opening());
        let text = read_text(input, opening.as_slice());
        if input.is_empty() {
            return Err(ASTError::ChompOnEmptyNode);
        }
        Ok(Literal::Text(text))
    }
}

/// The number of node values is the number of nodes.
proof fn lemma_nodes_v_len(s: Seq<Node>)
    ensures
        nodes_v(s).len() == s.len(),
    decreases s.len(),
{
    if s.len() > 0 {
        lemma_nodes_v_len(s.drop_last());
    }
}

/// Parses a token stream: nothing for no tokens, else its one root tag.
pub fn parse(stream: Vec<Token>) -> (r: Result<Option<Node>>)
    requires
        tokens_wf(tokens_v(stream@)),
    ensures
        match parse_spec(tokens_v(stream@)) {
            Ok(Some(n)) => r matches Ok(Some(x)) && x.nv() == n,
            Ok(None) => r matches Ok(None),
            Err(e) => r matches Err(f) && f == e,
        },
{
    if stream.len() == 0 {
        proof {
            lemma_tokens_v(stream@);
        }
        return Ok(None);
    }
    let grammar = Grammar::new();
    grammar.parse(stream)
}

} // verus!
