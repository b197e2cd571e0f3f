//! The markup grammar: token trees to syntax trees.

pub mod micro_vec;
pub mod token_iterator;

use crate::parser::ast::value::ValueV;
use crate::parser::ast::{
    attributes_v, lemma_nodes_v_len, lemma_nodes_v_push, nodes_v, opt_attributes_v, opt_nodes_v,
    Attribute, AttributeV, AttributeValue, Node, NodeV,
};
use crate::parser::error::{from_iter_error, Error, Result};
use crate::parser::grammar::micro_vec::MicroVec;
use crate::parser::grammar::token_iterator::{
    group_next, ident_at, literal_next, punct_at, puncts_ahead, TokenIterator, TokenIteratorError,
};
use crate::parser::token_stream::{brace_only, flatten_v};
use crate::text::{literal_text, push_char, push_text, strip_quotes};
use crate::token::{
    lemma_tokens_v, lemma_tokens_wf, token_wf, tokens_v, tokens_wf, Delimiter, Spacing, Token, TokenV,
};
use vstd::prelude::*;

verus! {

/// Tokens that a grammar can read: only brace groups at the top level, and
/// well-formed literals and group texts.
pub open spec fn input_ok(ts: Seq<TokenV>) -> bool {
    brace_only(ts) && tokens_wf(ts)
}

/// What remains of readable tokens is readable.
pub proof fn lemma_input_ok_skip(ts: Seq<TokenV>, n: int)
    requires
        input_ok(ts),
        0 <= n <= ts.len(),
    ensures
        input_ok(ts.skip(n)),
{
    lemma_tokens_wf(ts);
    lemma_tokens_wf(ts.skip(n));
    assert forall|i: int| 0 <= i < ts.skip(n).len() implies #[trigger] token_wf(ts.skip(n)[i]) by {
        assert(ts.skip(n)[i] == ts[i + n]);
    }
    assert forall|i: int| 0 <= i < ts.skip(n).len() implies (#[trigger] ts.skip(n)[i] matches TokenV::Group(
        d,
        _,
        _,
    ) ==> d == Delimiter::Brace) by {
        assert(ts.skip(n)[i] == ts[i + n]);
    }
}

/// `None` for an empty sequence, else the sequence.
pub open spec fn opt_seq<A>(s: Seq<A>) -> Option<Seq<A>> {
    if s.len() == 0 {
        None
    } else {
        Some(s)
    }
}

/// The name of an identifier token.
pub open spec fn ident_name(t: TokenV) -> Seq<char> {
    match t {
        TokenV::Ident(s) => s,
        _ => Seq::empty(),
    }
}

/// The representation of a literal token.
pub open spec fn literal_repr(t: TokenV) -> Seq<char> {
    match t {
        TokenV::Literal(s) => s,
        _ => Seq::empty(),
    }
}

/// The tokens inside a group token.
pub open spec fn group_inner(t: TokenV) -> Seq<TokenV> {
    match t {
        TokenV::Group(_, inner, _) => inner,
        _ => Seq::empty(),
    }
}

/// The character of a punctuation token.
pub open spec fn punct_char(t: TokenV) -> char {
    match t {
        TokenV::Punct(c, _) => c,
        _ => ' ',
    }
}

/// The characters of a run of punctuation tokens.
pub open spec fn punct_chars(ts: Seq<TokenV>) -> Seq<char>
    decreases ts.len(),
{
    if ts.len() == 0 {
        Seq::empty()
    } else {
        punct_chars(ts.drop_last()).push(punct_char(ts.last()))
    }
}

/// A name so far, with more text added.
pub open spec fn add_key(key: Option<Seq<char>>, s: Seq<char>) -> Seq<char> {
    match key {
        Some(k) => k + s,
        None => s,
    }
}

/// The punctuations that close a tag's children: `</`.
pub open spec fn tag_closing() -> Seq<char> {
    seq!['<', '/']
}

/// The punctuations that close a comment: `-->`.
pub open spec fn comment_closing() -> Seq<char> {
    seq!['-', '-', '>']
}

/// The punctuation that opens a tag: `<`.
pub open spec fn tag_opening() -> Seq<char> {
    seq!['<']
}

/// The value of an optional name so far.
pub open spec fn key_v(k: Option<String>) -> Option<Seq<char>> {
    match k {
        Some(s) => Some(s@),
        None => None,
    }
}

/// Whether a space may come before and after a punctuation character in text.
pub open spec fn char_spacing_rules_spec(c: char) -> (bool, bool) {
    if c == '.' || c == ',' || c == ';' || c == ':' || c == '?' || c == '!' || c == '%' || c
        == ')' || c == ']' || c == '>' || c == '}' {
        (false, true)
    } else if c == '(' || c == '[' || c == '{' || c == '<' {
        (true, false)
    } else if c == '-' {
        (false, false)
    } else {
        (true, true)
    }
}

/// Whether a space may come before and after a token in text.
pub open spec fn spacing_rules_spec(t: TokenV) -> (bool, bool) {
    match t {
        TokenV::Punct(c, _) => char_spacing_rules_spec(c),
        _ => (true, true),
    }
}

/// The text a token contributes to markup text.
pub open spec fn token_text(t: TokenV) -> Seq<char> {
    match t {
        TokenV::Ident(s) => s,
        TokenV::Punct(c, _) => seq![c],
        TokenV::Literal(s) => strip_quotes(s),
        TokenV::Group(_, _, _) => Seq::empty(),
    }
}

/// Text ends before a brace group, at the end, or before the `stop` punctuations.
pub open spec fn text_stops(ts: Seq<TokenV>, stop: Seq<char>) -> bool {
    group_next(ts, Delimiter::Brace) || ts.len() == 0 || puncts_ahead(ts, stop)
}

/// Reads text from `ts` after `acc`, where `last` are the spacing rules of the
/// token read last: a single space goes between two tokens when the first
/// allows one after it and the second allows one before it.
pub open spec fn text_from(ts: Seq<TokenV>, stop: Seq<char>, last: (bool, bool), acc: Seq<char>) -> (
    Seq<char>,
    Seq<TokenV>,
)
    decreases ts.len(),
{
    if text_stops(ts, stop) {
        (acc, ts)
    } else {
        let next = ts[0];
        let rules = spacing_rules_spec(next);
        let spaced = if last.1 && rules.0 {
            acc.push(' ')
        } else {
            acc
        };
        text_from(ts.drop_first(), stop, rules, spaced + token_text(next))
    }
}

/// Reads text from `ts` up to a brace group, the end, or the `stop` punctuations.
pub open spec fn text_spec(ts: Seq<TokenV>, stop: Seq<char>) -> (Seq<char>, Seq<TokenV>) {
    text_from(ts, stop, (false, false), Seq::empty())
}

/// What text reading leaves is a suffix; it reads at least one token unless it stops at once.
pub proof fn lemma_text_from(ts: Seq<TokenV>, stop: Seq<char>, last: (bool, bool), acc: Seq<char>)
    ensures
        ({
            let (_, rest) = text_from(ts, stop, last, acc);
            &&& rest.len() <= ts.len()
            &&& rest == ts.skip(ts.len() - rest.len())
            &&& !text_stops(ts, stop) ==> rest.len() < ts.len()
        }),
    decreases ts.len(),
{
    if !text_stops(ts, stop) {
        let next = ts[0];
        let rules = spacing_rules_spec(next);
        let spaced = if last.1 && rules.0 {
            acc.push(' ')
        } else {
            acc
        };
        lemma_text_from(ts.drop_first(), stop, rules, spaced + token_text(next));
        let (_, rest) = text_from(ts, stop, last, acc);
        assert(ts.drop_first().skip(ts.drop_first().len() - rest.len()) =~= ts.skip(
            ts.len() - rest.len(),
        ));
    } else {
        assert(ts.skip(0) =~= ts);
    }
}

/// Returns whether a space may come before and after the punctuation `c` in text.
pub fn char_spacing_rules(c: char) -> (r: (bool, bool))
    ensures
        r == char_spacing_rules_spec(c),
{
    match c {
        '.' => (false, true),
        ',' => (false, true),
        ';' => (false, true),
        ':' => (false, true),
        '?' => (false, true),
        '!' => (false, true),
        '%' => (false, true),
        ')' => (false, true),
        ']' => (false, true),
        '>' => (false, true),
        '}' => (false, true),
        '(' => (true, false),
        '[' => (true, false),
        '{' => (true, false),
        '<' => (true, false),
        '-' => (false, false),
        _ => (true, true),
    }
}

/// Returns whether a space may come before and after `tree` in text.
pub fn spacing_rules(tree: &Token) -> (r: (bool, bool))
    ensures
        r == spacing_rules_spec(tree.tv()),
{
    match tree {
        Token::Ident(_) => (true, true),
        Token::Literal(_) => (true, true),
        Token::Group(_, _, _) => (true, true),
        Token::Punct(c, _) => char_spacing_rules(*c),
    }
}

/// Reads text up to a brace group, the end, or the punctuations `stopping_lookaheads`.
pub fn read_text(input: &mut TokenIterator, stopping_lookaheads: &[char]) -> (r: String)
    requires
        input_ok(old(input)@),
    ensures
        (r@, final(input)@) == text_spec(old(input)@, stopping_lookaheads@),
        input_ok(final(input)@),
{
    let mut text = String::new();
    let mut last_spacing_rules = (false, false);
    let ghost ts0 = input@;
    let ghost stop = stopping_lookaheads@;
    assert(text@ =~= Seq::<char>::empty());
    loop
        invariant
            text_spec(ts0, stop) == text_from(input@, stop, last_spacing_rules, text@),
            input_ok(input@),
            stop == stopping_lookaheads@,
        ensures
            text_stops(input@, stop),
        decreases input@.len(),
    {
        let ghost before = input@;
        if input.is_brace_group() || input.is_empty() || input.is_lookahead_puncts(
            stopping_lookaheads,
        ) {
            break ;
        }
        let next = match input.chomp() {
            Ok(t) => t,
            Err(_) => {
                return text;
            },
        };
        proof {
            lemma_input_ok_skip(before, 1);
            lemma_tokens_wf(before);
            assert(token_wf(before[0]));
            assert(before.skip(1) =~= before.drop_first());
        }
        let ghost old_rules = last_spacing_rules;
        let ghost acc = text@;
        let next_spacing_rules = spacing_rules(&next);
        if last_spacing_rules.1 && next_spacing_rules.0 {
            push_char(&mut text, ' ');
        }
        let ghost spaced = text@;
        assert(spaced == (if old_rules.1 && next_spacing_rules.0 {
            acc.push(' ')
        } else {
            acc
        }));
        last_spacing_rules = next_spacing_rules;
        assert(!text_stops(before, stop));
        assert(next.tv() == before[0]);
        match next {
            Token::Ident(ident) => {
                push_text(&mut text, ident.as_str());
                assert(text@ == spaced + token_text(before[0]));
            },
            Token::Punct(punct, _) => {
                push_char(&mut text, punct);
                assert(text@ =~= spaced + token_text(before[0]));
            },
            Token::Literal(literal) => {
                let literal_string = literal_text(&literal);
                push_text(&mut text, literal_string.as_str());
                assert(text@ == spaced + token_text(before[0]));
            },
            Token::Group(_, _, _) => {
                assert(before[0] matches TokenV::Group(d, _, _) ==> d == Delimiter::Brace);
            },
        }
    }
    text
}

} // verus!

verus! {

const EXCLAMATION_MARK: char = '!';
const HYPHEN: char = '-';
const LEFT_ANGLE: char = '<';
const RIGHT_ANGLE: char = '>';
const FORWARD_SLASH: char = '/';
const EQUALS: char = '=';

// ----- the grammar, as spec functions over the tokens yet to be read -----

/// The number of `-` tokens that come next.
pub open spec fn hyphen_run(ts: Seq<TokenV>) -> nat
    decreases ts.len(),
{
    if punct_at(ts, 0, '-') {
        1 + hyphen_run(ts.drop_first())
    } else {
        0
    }
}

/// Reads an attribute key made of hyphens and identifiers, after `key`.
pub open spec fn key_loop(ts: Seq<TokenV>, key: Option<Seq<char>>) -> (Option<Seq<char>>, Seq<TokenV>)
    decreases ts.len(),
{
    let h = hyphen_run(ts) as int;
    let key1 = if h > 0 {
        Some(add_key(key, punct_chars(ts.take(h))))
    } else {
        key
    };
    let ts1 = ts.skip(h);
    let key2 = if ident_at(ts1, 0) {
        Some(add_key(key1, ident_name(ts1[0])))
    } else {
        key1
    };
    let ts2 = if ident_at(ts1, 0) {
        ts1.drop_first()
    } else {
        ts1
    };
    let i = hyphen_run(ts2) as int;
    if i > 0 && ident_at(ts2, i) && ts2.len() < ts.len() {
        key_loop(ts2, key2)
    } else {
        (key2, ts2)
    }
}

/// Reads an optional attribute key: a literal, or hyphens and identifiers.
pub open spec fn attribute_key_spec(ts: Seq<TokenV>) -> (Option<Seq<char>>, Seq<TokenV>) {
    if literal_next(ts) {
        (Some(strip_quotes(literal_repr(ts[0]))), ts.drop_first())
    } else {
        key_loop(ts, None)
    }
}

/// Reads an attribute value: a brace group or a literal.
pub open spec fn attribute_value_spec(ts: Seq<TokenV>) -> Result<(ValueV, Seq<TokenV>)> {
    if group_next(ts, Delimiter::Brace) {
        Ok((ValueV::Code(group_inner(ts[0])), ts.drop_first()))
    } else if literal_next(ts) {
        Ok((ValueV::Text(strip_quotes(literal_repr(ts[0]))), ts.drop_first()))
    } else {
        Err(Error::UnexpectedToken)
    }
}

/// Reads an optional attribute: a key, then `=` and a value if there is one.
pub open spec fn attribute_spec(ts: Seq<TokenV>) -> Result<(Option<AttributeV>, Seq<TokenV>)> {
    let (k, r) = attribute_key_spec(ts);
    match k {
        None => Ok((None, r)),
        Some(key) => {
            if punct_at(r, 0, '=') {
                match attribute_value_spec(r.drop_first()) {
                    Ok((v, r2)) => Ok((Some(AttributeV { key, value: Some(v) }), r2)),
                    Err(e) => Err(e),
                }
            } else {
                Ok((Some(AttributeV { key, value: None }), r))
            }
        },
    }
}

/// Reads attributes while there are any.
pub open spec fn attributes_spec(ts: Seq<TokenV>) -> Result<(Seq<AttributeV>, Seq<TokenV>)>
    decreases ts.len(),
{
    match attribute_spec(ts) {
        Err(e) => Err(e),
        Ok((None, r)) => Ok((Seq::empty(), r)),
        Ok((Some(a), r)) => {
            if r.len() < ts.len() {
                match attributes_spec(r) {
                    Ok((rest, r2)) => Ok((seq![a] + rest, r2)),
                    Err(e) => Err(e),
                }
            } else {
                Err(Error::UnexpectedToken)
            }
        },
    }
}

/// Reads the children of a comment: code and text up to `-->`.
pub open spec fn comment_children_spec(ts: Seq<TokenV>) -> Result<(Seq<NodeV>, Seq<TokenV>)>
    decreases ts.len(),
{
    if ts.len() == 0 {
        Err(Error::MoreTokensExpected)
    } else if puncts_ahead(ts, comment_closing()) {
        Ok((Seq::empty(), ts))
    } else {
        let (child, r) = if group_next(ts, Delimiter::Brace) {
            (NodeV::Code(group_inner(ts[0])), ts.drop_first())
        } else {
            let (t, r) = text_spec(ts, comment_closing());
            (NodeV::Text(t), r)
        };
        if r.len() < ts.len() {
            match comment_children_spec(r) {
                Ok((rest, r2)) => Ok((seq![child] + rest, r2)),
                Err(e) => Err(e),
            }
        } else {
            Err(Error::MoreTokensExpected)
        }
    }
}

/// Reads a comment: `<!--`, its children, `-->`.
pub open spec fn comment_spec(ts: Seq<TokenV>) -> Result<(NodeV, Seq<TokenV>)> {
    if !puncts_ahead(ts, seq!['<', '!', '-', '-']) {
        Err(Error::UnexpectedToken)
    } else {
        match comment_children_spec(ts.skip(4)) {
            Err(e) => Err(e),
            Ok((cs, r)) => {
                if puncts_ahead(r, comment_closing()) {
                    Ok((NodeV::Comment { children: opt_seq(cs) }, r.skip(3)))
                } else {
                    Err(Error::UnexpectedToken)
                }
            },
        }
    }
}

/// Reads a doctype: `<!`, an identifier, attributes, `>`.
pub open spec fn doctype_spec(ts: Seq<TokenV>) -> Result<(NodeV, Seq<TokenV>)> {
    if !puncts_ahead(ts, seq!['<', '!']) {
        Err(Error::UnexpectedToken)
    } else if !ident_at(ts.skip(2), 0) {
        Err(Error::UnexpectedToken)
    } else {
        let name = ident_name(ts[2]);
        match attributes_spec(ts.skip(3)) {
            Err(e) => Err(e),
            Ok((attrs, r2)) => {
                if punct_at(r2, 0, '>') {
                    Ok((NodeV::Doctype { name, attributes: opt_seq(attrs) }, r2.drop_first()))
                } else {
                    Err(Error::UnexpectedToken)
                }
            },
        }
    }
}

/// Reads a node: a comment, a doctype, a tag, code, or text.
pub open spec fn node_spec(ts: Seq<TokenV>) -> Result<(NodeV, Seq<TokenV>)>
    decreases ts.len(), 2nat,
{
    if punct_at(ts, 0, '<') {
        if punct_at(ts, 1, '!') {
            if punct_at(ts, 2, '-') {
                comment_spec(ts)
            } else {
                doctype_spec(ts)
            }
        } else {
            tag_spec(ts)
        }
    } else if group_next(ts, Delimiter::Brace) {
        Ok((NodeV::Code(group_inner(ts[0])), ts.drop_first()))
    } else {
        let (t, r) = text_spec(ts, tag_opening());
        Ok((NodeV::Text(t), r))
    }
}

/// Reads a tag: `</>`, a fragment `<>children</>`, a self-closing
/// `<name attributes/>`, or `<name attributes>children</name>`.
pub open spec fn tag_spec(ts: Seq<TokenV>) -> Result<(NodeV, Seq<TokenV>)>
    decreases ts.len(), 1nat,
{
    if !punct_at(ts, 0, '<') {
        Err(Error::UnexpectedToken)
    } else {
        let t1 = ts.drop_first();
        if puncts_ahead(t1, seq!['/', '>']) {
            Ok((NodeV::Empty, t1.skip(2)))
        } else if punct_at(t1, 0, '>') {
            match children_spec(t1.drop_first()) {
                Err(e) => Err(e),
                Ok((cs, r)) => {
                    if puncts_ahead(r, seq!['<', '/', '>']) {
                        Ok(
                            (
                                if cs.len() == 0 {
                                    NodeV::Empty
                                } else {
                                    NodeV::Fragment { children: cs }
                                },
                                r.skip(3),
                            ),
                        )
                    } else {
                        Err(Error::UnexpectedToken)
                    }
                },
            }
        } else if !ident_at(t1, 0) {
            Err(Error::UnexpectedToken)
        } else {
            let name = ident_name(t1[0]);
            match attributes_spec(t1.drop_first()) {
                Err(e) => Err(e),
                Ok((attrs, t3)) => {
                    if punct_at(t3, 0, '/') {
                        if puncts_ahead(t3, seq!['/', '>']) {
                            Ok((NodeV::SelfClosing { name, attributes: opt_seq(attrs) }, t3.skip(2)))
                        } else {
                            Err(Error::UnexpectedToken)
                        }
                    } else if !punct_at(t3, 0, '>') {
                        Err(Error::UnexpectedToken)
                    } else if t3.drop_first().len() >= ts.len() {
                        Err(Error::UnexpectedToken)
                    } else {
                        match children_spec(t3.drop_first()) {
                            Err(e) => Err(e),
                            Ok((cs, t5)) => {
                                if !puncts_ahead(t5, tag_closing()) {
                                    Err(Error::UnexpectedToken)
                                } else if !ident_at(t5.skip(2), 0) {
                                    Err(Error::UnexpectedToken)
                                } else if !punct_at(t5.skip(3), 0, '>') {
                                    Err(Error::UnexpectedToken)
                                } else if ident_name(t5[2]) != name {
                                    Err(Error::MismatchedTagName)
                                } else {
                                    Ok(
                                        (
                                            NodeV::Open {
                                                name,
                                                attributes: opt_seq(attrs),
                                                children: opt_seq(cs),
                                            },
                                            t5.skip(4),
                                        ),
                                    )
                                }
                            },
                        }
                    }
                },
            }
        }
    }
}

/// Reads child nodes up to `</`.
pub open spec fn children_spec(ts: Seq<TokenV>) -> Result<(Seq<NodeV>, Seq<TokenV>)>
    decreases ts.len(), 3nat,
{
    if ts.len() == 0 {
        Err(Error::MoreTokensExpected)
    } else if puncts_ahead(ts, tag_closing()) {
        Ok((Seq::empty(), ts))
    } else {
        match node_spec(ts) {
            Err(e) => Err(e),
            Ok((child, r)) => {
                if r.len() < ts.len() {
                    match children_spec(r) {
                        Ok((rest, r2)) => Ok((seq![child] + rest, r2)),
                        Err(e) => Err(e),
                    }
                } else {
                    Err(Error::MoreTokensExpected)
                }
            },
        }
    }
}

/// Reads nodes up to the end.
pub open spec fn root_nodes_spec(ts: Seq<TokenV>) -> Result<Seq<NodeV>>
    decreases ts.len(),
{
    if ts.len() == 0 {
        Ok(Seq::empty())
    } else {
        match node_spec(ts) {
            Err(e) => Err(e),
            Ok((n, r)) => {
                if r.len() < ts.len() {
                    match root_nodes_spec(r) {
                        Ok(rest) => Ok(seq![n] + rest),
                        Err(e) => Err(e),
                    }
                } else {
                    Err(Error::MoreTokensExpected)
                }
            },
        }
    }
}

/// The root: one node, or a fragment of several.
pub open spec fn root_node_spec(ts: Seq<TokenV>) -> Result<NodeV> {
    match root_nodes_spec(ts) {
        Err(e) => Err(e),
        Ok(ns) => {
            if ns.len() == 0 {
                Err(Error::EmptyMacroStreamGiven)
            } else if ns.len() == 1 {
                Ok(ns[0])
            } else {
                Ok(NodeV::Fragment { children: ns })
            }
        },
    }
}

/// What the grammar makes of a token stream.
pub open spec fn parse_spec(stream: Seq<TokenV>) -> Result<NodeV> {
    if stream.len() == 0 {
        Err(Error::EmptyMacroStreamGiven)
    } else {
        root_node_spec(flatten_v(stream))
    }
}

} // verus!

verus! {

// ----- facts about the grammar -----

/// A run of hyphens is no longer than the tokens, and ends where the hyphens do.
pub proof fn lemma_hyphen_run(ts: Seq<TokenV>, i: int)
    ensures
        hyphen_run(ts) <= ts.len(),
        forall|j: int| 0 <= j < hyphen_run(ts) ==> #[trigger] punct_at(ts, j, '-'),
        0 <= i && (forall|j: int| 0 <= j < i ==> #[trigger] punct_at(ts, j, '-')) && !punct_at(
            ts,
            i,
            '-',
        ) ==> hyphen_run(ts) == i,
    decreases ts.len(),
{
    if punct_at(ts, 0, '-') {
        lemma_hyphen_run(ts.drop_first(), i - 1);
        assert forall|j: int| 0 <= j < hyphen_run(ts) implies #[trigger] punct_at(ts, j, '-') by {
            if j > 0 {
                assert(punct_at(ts.drop_first(), j - 1, '-'));
            }
        }
        if 0 <= i && (forall|j: int| 0 <= j < i ==> #[trigger] punct_at(ts, j, '-')) && !punct_at(
            ts,
            i,
            '-',
        ) {
            assert(i > 0);
            assert forall|j: int| 0 <= j < i - 1 implies #[trigger] punct_at(ts.drop_first(), j, '-') by {
                assert(punct_at(ts, j + 1, '-'));
            }
        }
    } else if 0 <= i && (forall|j: int| 0 <= j < i ==> #[trigger] punct_at(ts, j, '-')) && !punct_at(
        ts,
        i,
        '-',
    ) {
        if i > 0 {
            assert(punct_at(ts, 0, '-'));
        }
    }
}

/// What key reading leaves is a suffix; a key that was read used up a token.
pub proof fn lemma_key_loop(ts: Seq<TokenV>, key: Option<Seq<char>>)
    ensures
        ({
            let (k, r) = key_loop(ts, key);
            &&& r.len() <= ts.len()
            &&& r == ts.skip(ts.len() - r.len())
            &&& (k is Some && key is None) ==> r.len() < ts.len()
        }),
    decreases ts.len(),
{
    lemma_hyphen_run(ts, 0);
    let h = hyphen_run(ts) as int;
    let key1 = if h > 0 {
        Some(add_key(key, punct_chars(ts.take(h))))
    } else {
        key
    };
    let ts1 = ts.skip(h);
    let key2 = if ident_at(ts1, 0) {
        Some(add_key(key1, ident_name(ts1[0])))
    } else {
        key1
    };
    let ts2 = if ident_at(ts1, 0) {
        ts1.drop_first()
    } else {
        ts1
    };
    assert(ts2 =~= ts.skip(ts.len() - ts2.len()));
    let i = hyphen_run(ts2) as int;
    if i > 0 && ident_at(ts2, i) && ts2.len() < ts.len() {
        lemma_key_loop(ts2, key2);
        let (k, r) = key_loop(ts, key);
        assert(ts2.skip(ts2.len() - r.len()) =~= ts.skip(ts.len() - r.len()));
    }
}

/// What attribute-key reading leaves is a suffix; a key that was read used up a token.
pub proof fn lemma_attribute_key(ts: Seq<TokenV>)
    ensures
        ({
            let (k, r) = attribute_key_spec(ts);
            &&& r.len() <= ts.len()
            &&& r == ts.skip(ts.len() - r.len())
            &&& k is Some ==> r.len() < ts.len()
        }),
{
    lemma_key_loop(ts, None);
    if literal_next(ts) {
        assert(ts.drop_first() =~= ts.skip(1));
    }
}

/// What attribute reading leaves is a suffix; an attribute that was read used up a token.
pub proof fn lemma_attribute(ts: Seq<TokenV>)
    ensures
        attribute_spec(ts) matches Ok((a, r)) ==> {
            &&& r.len() <= ts.len()
            &&& r == ts.skip(ts.len() - r.len())
            &&& a is Some ==> r.len() < ts.len()
        },
{
    lemma_attribute_key(ts);
    let (k, r) = attribute_key_spec(ts);
    if k is Some && punct_at(r, 0, '=') && attribute_value_spec(r.drop_first()) is Ok {
        assert(r.drop_first().drop_first() =~= ts.skip(ts.len() - r.len() + 2));
    }
}

/// What attributes reading leaves is a suffix.
pub proof fn lemma_attributes(ts: Seq<TokenV>)
    ensures
        attributes_spec(ts) matches Ok((_, r)) ==> {
            &&& r.len() <= ts.len()
            &&& r == ts.skip(ts.len() - r.len())
        },
    decreases ts.len(),
{
    lemma_attribute(ts);
    match attribute_spec(ts) {
        Ok((Some(_), r)) => {
            if r.len() < ts.len() {
                lemma_attributes(r);
                if let Ok((_, r2)) = attributes_spec(r) {
                    assert(r.skip(r.len() - r2.len()) =~= ts.skip(ts.len() - r2.len()));
                }
            }
        },
        _ => {},
    }
}

/// What comment reading leaves is no longer than what it was given.
pub proof fn lemma_comment_children(ts: Seq<TokenV>)
    ensures
        comment_children_spec(ts) matches Ok((_, r)) ==> r.len() <= ts.len(),
    decreases ts.len(),
{
    if ts.len() > 0 && !puncts_ahead(ts, comment_closing()) {
        let (child, r) = if group_next(ts, Delimiter::Brace) {
            (NodeV::Code(group_inner(ts[0])), ts.drop_first())
        } else {
            let (t, r) = text_spec(ts, comment_closing());
            (NodeV::Text(t), r)
        };
        if r.len() < ts.len() {
            lemma_comment_children(r);
        }
    }
}

} // verus!

verus! {

// ----- reading -----

fn lift<A>(e: TokenIteratorError) -> (r: Result<A>)
    ensures
        r == Err::<A, Error>(from_iter_error(e)),
{
    Err(Error::from(e))
}

/// Reads an optional attribute key: a literal, or hyphens and identifiers.
fn parse_attribute_key(input: &mut TokenIterator) -> (r: Result<Option<String>>)
    requires
        input_ok(old(input)@),
    ensures
        r matches Ok(k) && key_v(k) == attribute_key_spec(old(input)@).0,
        final(input)@ == attribute_key_spec(old(input)@).1,
        input_ok(final(input)@),
{
    let ghost ts0 = input@;
    proof {
        lemma_attribute_key(ts0);
    }
    if input.is_next_literal() {
        let literal = match input.chomp_literal() {
            Ok(s) => s,
            Err(e) => return lift(e),
        };
        proof {
            lemma_input_ok_skip(ts0, 1);
            assert(ts0.skip(1) =~= ts0.drop_first());
        }
        return Ok(Some(literal));
    }
    let mut maybe_key: Option<String> = None;
    loop
        invariant_except_break
            input_ok(input@),
            key_loop(ts0, None) == key_loop(input@, key_v(maybe_key)),
        ensures
            input_ok(input@),
            key_loop(ts0, None) == (key_v(maybe_key), input@),
        decreases input@.len(),
    {
        let ghost ts = input@;
        let ghost key = key_v(maybe_key);
        let ghost mut h: int = 0;
        while input.is_next_punct(HYPHEN)
            invariant
                input_ok(input@),
                0 <= h <= ts.len(),
                input@ == ts.skip(h),
                forall|j: int| 0 <= j < h ==> #[trigger] punct_at(ts, j, '-'),
                key_v(maybe_key) == (if h > 0 {
                    Some(add_key(key, punct_chars(ts.take(h))))
                } else {
                    key
                }),
            decreases input@.len(),
        {
            let ghost before = input@;
            let c = match input.chomp() {
                Ok(Token::Punct(c, _)) => c,
                Ok(_) => return Err(Error::UnexpectedToken),
                Err(e) => return lift(e),
            };
            proof {
                assert(before[0] == ts[h]);
                lemma_input_ok_skip(before, 1);
                assert(before.skip(1) =~= ts.skip(h + 1));
                assert(ts.take(h + 1).drop_last() =~= ts.take(h));
                assert(punct_chars(ts.take(h + 1)) == punct_chars(ts.take(h)).push('-'));
            }
            maybe_key = Some(
                match maybe_key {
                    Some(k) => {
                        let mut k = k;
                        push_char(&mut k, c);
                        k
                    },
                    None => {
                        let mut k = String::new();
                        push_char(&mut k, c);
                        k
                    },
                },
            );
            proof {
                if h > 0 {
                    assert(add_key(key, punct_chars(ts.take(h + 1))) =~= add_key(
                        key,
                        punct_chars(ts.take(h)),
                    ).push('-'));
                } else {
                    assert(ts.take(1).drop_last() =~= Seq::<TokenV>::empty());
                    assert(add_key(key, punct_chars(ts.take(1))) =~= add_key(
                        key,
                        Seq::empty(),
                    ).push('-'));
                    assert(key_v(maybe_key) =~= Some(add_key(key, punct_chars(ts.take(1)))));
                }
                h = h + 1;
            }
        }
        proof {
            lemma_hyphen_run(ts, h);
        }
        let ghost ts1 = input@;
        if input.is_next_ident() {
            let next = match input.chomp_ident() {
                Ok(s) => s,
                Err(e) => return lift(e),
            };
            proof {
                lemma_input_ok_skip(ts1, 1);
                assert(ts1.skip(1) =~= ts1.drop_first());
            }
            maybe_key = Some(
                match maybe_key {
                    Some(k) => {
                        let mut k = k;
                        push_text(&mut k, next.as_str());
                        k
                    },
                    None => next,
                },
            );
        }
        let ghost ts2 = input@;
        // Check if there is a `-name` ahead of us.
        // If there is we will capture that too.
        let mut i: usize = 0;
        loop
            invariant
                input@ == ts2,
                i <= ts2.len(),
                forall|j: int| 0 <= j < i ==> #[trigger] punct_at(ts2, j, '-'),
            ensures
                !punct_at(ts2, i as int, '-'),
            decreases ts2.len() - i,
        {
            if !input.is_lookahead_punct(HYPHEN, i) {
                break ;
            }
            i += 1;
        }
        proof {
            lemma_hyphen_run(ts2, i as int);
        }
        if i > 0 && input.is_lookahead_ident(i) {
            assert(ts2.len() < ts.len()) by {
                if h == 0 && !ident_at(ts1, 0) {
                    assert(ts2 == ts);
                    lemma_hyphen_run(ts, 0);
                }
            }
            continue ;
        }
        break ;
    }
    Ok(maybe_key)
}

/// Reads an attribute value.
fn parse_attribute_value(input: &mut TokenIterator) -> (r: Result<AttributeValue>)
    requires
        input_ok(old(input)@),
    ensures
        match attribute_value_spec(old(input)@) {
            Ok((v, t)) => r matches Ok(x) && x@ == v && final(input)@ == t,
            Err(e) => r matches Err(f) && f == e,
        },
        r is Ok ==> input_ok(final(input)@),
{
    let ghost ts0 = input@;
    proof {
        if ts0.len() > 0 {
            lemma_input_ok_skip(ts0, 1);
            assert(ts0.skip(1) =~= ts0.drop_first());
        }
    }
    if input.is_brace_group() {
        match input.chomp_brace_group() {
            Ok(code) => Ok(AttributeValue::Code(code)),
            Err(e) => lift(e),
        }
    } else {
        match input.chomp_literal() {
            Ok(text) => Ok(AttributeValue::Text(text)),
            Err(e) => lift(e),
        }
    }
}

/// Reads an optional attribute.
fn parse_attribute(input: &mut TokenIterator) -> (r: Result<Option<Attribute>>)
    requires
        input_ok(old(input)@),
    ensures
        match attribute_spec(old(input)@) {
            Ok((a, t)) => r matches Ok(x) && (match x {
                Some(y) => Some(y@),
                None => None::<AttributeV>,
            }) == a && final(input)@ == t,
            Err(e) => r matches Err(f) && f == e,
        },
        r is Ok ==> input_ok(final(input)@),
{
    let maybe_key = match parse_attribute_key(input) {
        Ok(k) => k,
        Err(e) => return Err(e),
    };
    let key = match maybe_key {
        Some(k) => k,
        None => return Ok(None),
    };
    if input.is_next_punct(EQUALS) {
        let ghost ts = input@;
        match input.chomp_punct(EQUALS) {
            Ok(()) => {},
            Err(e) => return lift(e),
        }
        proof {
            lemma_input_ok_skip(ts, 1);
            assert(ts.skip(1) =~= ts.drop_first());
        }
        let value = match parse_attribute_value(input) {
            Ok(v) => Some(v),
            Err(e) => return Err(e),
        };
        return Ok(Some(Attribute { key, value }));
    }
    Ok(Some(Attribute { key, value: None }))
}

/// Reads attributes while there are any; `None` when there are none.
fn parse_attributes(input: &mut TokenIterator) -> (r: Result<Option<Vec<Attribute>>>)
    requires
        input_ok(old(input)@),
    ensures
        match attributes_spec(old(input)@) {
            Ok((attrs, rest)) => r matches Ok(a) && opt_attributes_v(a) == opt_seq(attrs)
                && final(input)@ == rest,
            Err(e) => r matches Err(f) && f == e,
        },
        r is Ok ==> input_ok(final(input)@),
{
    let ghost ts0 = input@;
    let mut attrs: Vec<Attribute> = Vec::new();
    loop
        invariant_except_break
            ts0 == old(input)@,
            input_ok(input@),
            input@.len() <= ts0.len(),
            attributes_spec(ts0) == (match attributes_spec(input@) {
                Ok((rest, r)) => Ok((attributes_v(attrs@) + rest, r)),
                Err(e) => Err(e),
            }),
        ensures
            input_ok(input@),
            attributes_spec(ts0) == Ok::<(Seq<AttributeV>, Seq<TokenV>), Error>(
                (attributes_v(attrs@), input@),
            ),
        decreases input@.len(),
    {
        let ghost ts = input@;
        proof {
            lemma_attribute(ts);
        }
        match parse_attribute(input) {
            Err(e) => {
                assert(attributes_spec(ts) == Err::<(Seq<AttributeV>, Seq<TokenV>), Error>(e));
                return Err(e);
            },
            Ok(Some(attribute)) => {
                proof {
                    assert(attributes_v(attrs@.push(attribute)) =~= attributes_v(attrs@).push(
                        attribute@,
                    ));
                    if let Ok((rest, r)) = attributes_spec(input@) {
                        assert(attributes_v(attrs@).push(attribute@) + rest =~= attributes_v(attrs@)
                            + (seq![attribute@] + rest));
                    }
                }
                attrs.push(attribute);
            },
            Ok(None) => {
                proof {
                    assert(attributes_v(attrs@) + Seq::<AttributeV>::empty() =~= attributes_v(
                        attrs@,
                    ));
                }
                break ;
            },
        }
    }
    if attrs.len() == 0 {
        Ok(None)
    } else {
        Ok(Some(attrs))
    }
}

} // verus!

verus! {

/// Children so far, in front of what the rest of the reading gives.
pub open spec fn with_prefix(acc: Seq<NodeV>, r: Result<(Seq<NodeV>, Seq<TokenV>)>) -> Result<
    (Seq<NodeV>, Seq<TokenV>),
> {
    match r {
        Ok((rest, t)) => Ok((acc + rest, t)),
        Err(e) => Err(e),
    }
}

/// An executable node result agrees with a spec result.
pub open spec fn node_agrees(r: Result<Node>, s: Result<(NodeV, Seq<TokenV>)>, rest: Seq<TokenV>) -> bool {
    match s {
        Ok((n, t)) => r matches Ok(x) && x.nv() == n && rest == t,
        Err(e) => r matches Err(f) && f == e,
    }
}

/// An executable children result agrees with a spec result.
pub open spec fn children_agree(
    r: Result<Option<Vec<Node>>>,
    s: Result<(Seq<NodeV>, Seq<TokenV>)>,
    rest: Seq<TokenV>,
) -> bool {
    match s {
        Ok((cs, t)) => r matches Ok(o) && opt_nodes_v(o) == opt_seq(cs) && rest == t,
        Err(e) => r matches Err(f) && f == e,
    }
}

proof fn lemma_with_prefix_push(acc: Seq<NodeV>, n: NodeV, r: Result<(Seq<NodeV>, Seq<TokenV>)>)
    ensures
        with_prefix(
            acc,
            match r {
                Ok((rest, t)) => Ok((seq![n] + rest, t)),
                Err(e) => Err(e),
            },
        ) == with_prefix(acc.push(n), r),
{
    if let Ok((rest, t)) = r {
        assert(acc + (seq![n] + rest) =~= acc.push(n) + rest);
    }
}

/// `Some(children)`, or `None` when there are none.
fn maybe_nodes(children: Vec<Node>) -> (r: Option<Vec<Node>>)
    ensures
        opt_nodes_v(r) == opt_seq(nodes_v(children@)),
{
    proof {
        lemma_nodes_v_len(children@);
    }
    if children.len() == 0 {
        None
    } else {
        Some(children)
    }
}

/// Reads text up to a brace group, the end, or `stopping_lookaheads`.
fn parse_text(input: &mut TokenIterator, stopping_lookaheads: &[char]) -> (r: Result<String>)
    requires
        input_ok(old(input)@),
    ensures
        r matches Ok(s) && (s@, final(input)@) == text_spec(old(input)@, stopping_lookaheads@),
        input_ok(final(input)@),
{
    Ok(read_text(input, stopping_lookaheads))
}

/// Reads the children of a comment.
fn parse_comment_children(input: &mut TokenIterator) -> (r: Result<Option<Vec<Node>>>)
    requires
        input_ok(old(input)@),
    ensures
        children_agree(r, comment_children_spec(old(input)@), final(input)@),
        r is Ok ==> input_ok(final(input)@),
{
    let ghost ts0 = input@;
    let closing = [HYPHEN, HYPHEN, RIGHT_ANGLE];
    assert(closing@ =~= comment_closing());
    let mut children: Vec<Node> = Vec::new();
    loop
        invariant_except_break
            ts0 == old(input)@,
            input_ok(input@),
            closing@ == comment_closing(),
            comment_children_spec(ts0) == with_prefix(
                nodes_v(children@),
                comment_children_spec(input@),
            ),
        ensures
            input_ok(input@),
            comment_children_spec(ts0) == Ok::<(Seq<NodeV>, Seq<TokenV>), Error>(
                (nodes_v(children@), input@),
            ),
        decreases input@.len(),
    {
        let ghost ts = input@;
        if input.is_empty() {
            return Err(Error::MoreTokensExpected);
        }
        if input.is_lookahead_puncts(closing.as_slice()) {
            assert(nodes_v(children@) + Seq::<NodeV>::empty() =~= nodes_v(children@));
            break ;
        }
        let child = if input.is_brace_group() {
            let code = match input.chomp_brace_group() {
                Ok(c) => c,
                Err(e) => return lift(e),
            };
            proof {
                lemma_input_ok_skip(ts, 1);
                assert(ts.skip(1) =~= ts.drop_first());
            }
            Node::Code(code)
        } else {
            proof {
                lemma_text_from(ts, comment_closing(), (false, false), Seq::empty());
            }
            let text = match parse_text(input, closing.as_slice()) {
                Ok(t) => t,
                Err(e) => return Err(e),
            };
            Node::Text(text)
        };
        proof {
            lemma_nodes_v_push(children@, child);
            lemma_with_prefix_push(nodes_v(children@), child.nv(), comment_children_spec(input@));
        }
        children.push(child);
    }
    Ok(maybe_nodes(children))
}

/// Reads a comment.
fn parse_node_comment(input: &mut TokenIterator) -> (r: Result<Node>)
    requires
        input_ok(old(input)@),
    ensures
        node_agrees(r, comment_spec(old(input)@), final(input)@),
        r is Ok ==> input_ok(final(input)@) && final(input)@.len() < old(input)@.len(),
{
    let ghost ts0 = input@;
    let opening = [LEFT_ANGLE, EXCLAMATION_MARK, HYPHEN, HYPHEN];
    assert(opening@ =~= seq!['<', '!', '-', '-']);
    match input.chomp_puncts(opening.as_slice()) {
        Ok(()) => {},
        Err(e) => return lift(e),
    }
    proof {
        assert(punct_at(ts0, 3, '-'));
        lemma_input_ok_skip(ts0, 4);
    }
    let children = match parse_comment_children(input) {
        Ok(c) => c,
        Err(e) => return Err(e),
    };
    let ghost ts1 = input@;
    let closing = [HYPHEN, HYPHEN, RIGHT_ANGLE];
    assert(closing@ =~= comment_closing());
    match input.chomp_puncts(closing.as_slice()) {
        Ok(()) => {},
        Err(e) => return lift(e),
    }
    proof {
        assert(punct_at(ts1, 2, '>'));
        lemma_input_ok_skip(ts1, 3);
        lemma_comment_children(ts0.skip(4));
    }
    Ok(Node::Comment { children })
}

/// Reads a doctype.
fn parse_node_doctype(input: &mut TokenIterator) -> (r: Result<Node>)
    requires
        input_ok(old(input)@),
    ensures
        node_agrees(r, doctype_spec(old(input)@), final(input)@),
        r is Ok ==> input_ok(final(input)@) && final(input)@.len() < old(input)@.len(),
{
    let ghost ts0 = input@;
    let opening = [LEFT_ANGLE, EXCLAMATION_MARK];
    assert(opening@ =~= seq!['<', '!']);
    match input.chomp_puncts(opening.as_slice()) {
        Ok(()) => {},
        Err(e) => return lift(e),
    }
    proof {
        assert(punct_at(ts0, 1, '!'));
        lemma_input_ok_skip(ts0, 2);
    }
    let ghost ts1 = input@;
    let name = match input.chomp_ident() {
        Ok(n) => n,
        Err(e) => return lift(e),
    };
    let ghost ts2 = input@;
    proof {
        lemma_input_ok_skip(ts1, 1);
        assert(ts1.skip(1) =~= ts1.drop_first());
        assert(ts1.drop_first() =~= ts0.skip(3));
        lemma_attributes(ts2);
    }
    let attributes = match parse_attributes(input) {
        Ok(a) => a,
        Err(e) => return Err(e),
    };
    let ghost ts3 = input@;
    match input.chomp_punct(RIGHT_ANGLE) {
        Ok(()) => {},
        Err(e) => return lift(e),
    }
    proof {
        lemma_input_ok_skip(ts3, 1);
        assert(ts3.skip(1) =~= ts3.drop_first());
    }
    Ok(Node::Doctype { name, attributes })
}

} // verus!

verus! {

/// Reads a node.
fn parse_node(input: &mut TokenIterator) -> (r: Result<Node>)
    requires
        input_ok(old(input)@),
        old(input)@.len() > 0,
    ensures
        node_agrees(r, node_spec(old(input)@), final(input)@),
        r is Ok ==> input_ok(final(input)@) && final(input)@.len() < old(input)@.len(),
    decreases old(input)@.len(), 2nat,
{
    let ghost ts0 = input@;
    if input.is_next_punct(LEFT_ANGLE) {
        if input.is_lookahead_punct(EXCLAMATION_MARK, 1) {
            if input.is_lookahead_punct(HYPHEN, 2) {
                parse_node_comment(input)
            } else {
                parse_node_doctype(input)
            }
        } else {
            parse_node_tag(input)
        }
    } else if input.is_brace_group() {
        let code = match input.chomp_brace_group() {
            Ok(c) => c,
            Err(e) => return lift(e),
        };
        proof {
            lemma_input_ok_skip(ts0, 1);
            assert(ts0.skip(1) =~= ts0.drop_first());
        }
        Ok(Node::Code(code))
    } else {
        parse_node_text(input)
    }
}

/// Reads a tag.
fn parse_node_tag(input: &mut TokenIterator) -> (r: Result<Node>)
    requires
        input_ok(old(input)@),
    ensures
        node_agrees(r, tag_spec(old(input)@), final(input)@),
        r is Ok ==> input_ok(final(input)@) && final(input)@.len() < old(input)@.len(),
    decreases old(input)@.len(), 1nat,
{
    let ghost ts0 = input@;
    match input.chomp_punct(LEFT_ANGLE) {
        Ok(()) => {},
        Err(e) => return lift(e),
    }
    let ghost t1 = input@;
    proof {
        lemma_input_ok_skip(ts0, 1);
        assert(ts0.skip(1) =~= ts0.drop_first());
    }
    // parses </>
    let empty_closing = [FORWARD_SLASH, RIGHT_ANGLE];
    assert(empty_closing@ =~= seq!['/', '>']);
    if input.is_lookahead_puncts(empty_closing.as_slice()) {
        match input.chomp_puncts(empty_closing.as_slice()) {
            Ok(()) => {},
            Err(e) => return lift(e),
        }
        proof {
            assert(punct_at(t1, 1, '>'));
            lemma_input_ok_skip(t1, 2);
        }
        return Ok(Node::Empty);
    }
    // parses <>(... contents)</>

    if input.is_next_punct(RIGHT_ANGLE) {
        match input.chomp_punct(RIGHT_ANGLE) {
            Ok(()) => {},
            Err(e) => return lift(e),
        }
        proof {
            lemma_input_ok_skip(t1, 1);
            assert(t1.skip(1) =~= t1.drop_first());
        }
        let maybe_children = match parse_children(input) {
            Ok(c) => c,
            Err(e) => return Err(e),
        };
        let ghost t3 = input@;
        let fragment_closing = [LEFT_ANGLE, FORWARD_SLASH, RIGHT_ANGLE];
        assert(fragment_closing@ =~= seq!['<', '/', '>']);
        match input.chomp_puncts(fragment_closing.as_slice()) {
            Ok(()) => {},
            Err(e) => return lift(e),
        }
        proof {
            assert(punct_at(t3, 2, '>'));
            lemma_input_ok_skip(t3, 3);
        }
        return match maybe_children {
            Some(children) => Ok(Node::Fragment { children }),
            None => Ok(Node::Empty),
        };
    }
    // Real tags from here on. i.e. <div></div> and <hr />

    let opening_tag_name = match input.chomp_ident() {
        Ok(n) => n,
        Err(e) => return lift(e),
    };
    let ghost t2 = input@;
    proof {
        lemma_input_ok_skip(t1, 1);
        assert(t1.skip(1) =~= t1.drop_first());
        lemma_attributes(t2);
    }
    let attributes = match parse_attributes(input) {
        Ok(a) => a,
        Err(e) => return Err(e),
    };
    let ghost t3 = input@;
    if input.is_next_punct(FORWARD_SLASH) {
        let self_closing = [FORWARD_SLASH, RIGHT_ANGLE];
        assert(self_closing@ =~= seq!['/', '>']);
        match input.chomp_puncts(self_closing.as_slice()) {
            Ok(()) => {},
            Err(e) => return lift(e),
        }
        proof {
            assert(punct_at(t3, 1, '>'));
            lemma_input_ok_skip(t3, 2);
        }
        return Ok(Node::SelfClosing { name: opening_tag_name, attributes });
    }
    match input.chomp_punct(RIGHT_ANGLE) {
        Ok(()) => {},
        Err(e) => return lift(e),
    }
    proof {
        lemma_input_ok_skip(t3, 1);
        assert(t3.skip(1) =~= t3.drop_first());
    }
    let children = match parse_children(input) {
        Ok(c) => c,
        Err(e) => return Err(e),
    };
    let ghost t5 = input@;
    // Closing Tag.
    let closing = [LEFT_ANGLE, FORWARD_SLASH];
    assert(closing@ =~= tag_closing());
    match input.chomp_puncts(closing.as_slice()) {
        Ok(()) => {},
        Err(e) => return lift(e),
    }
    proof {
        assert(punct_at(t5, 1, '/'));
        lemma_input_ok_skip(t5, 2);
    }
    let ghost t6 = input@;
    let closing_tag_name = match input.chomp_ident() {
        Ok(n) => n,
        Err(e) => return lift(e),
    };
    let ghost t7 = input@;
    proof {
        lemma_input_ok_skip(t6, 1);
        assert(t6.skip(1) =~= t6.drop_first());
        assert(t6.drop_first() =~= t5.skip(3));
        assert(t6[0] == t5[2]);
    }
    match input.chomp_punct(RIGHT_ANGLE) {
        Ok(()) => {},
        Err(e) => return lift(e),
    }
    proof {
        lemma_input_ok_skip(t7, 1);
        assert(t7.skip(1) =~= t7.drop_first());
        assert(t7.drop_first() =~= t5.skip(4));
    }
    if closing_tag_name != opening_tag_name {
        return Err(Error::MismatchedTagName);
    }
    Ok(Node::Open { name: opening_tag_name, attributes, children })
}

/// Reads text as a node.
fn parse_node_text(input: &mut TokenIterator) -> (r: Result<Node>)
    requires
        input_ok(old(input)@),
        !punct_at(old(input)@, 0, '<'),
        !group_next(old(input)@, Delimiter::Brace),
        old(input)@.len() > 0,
    ensures
        r matches Ok(n) && (n.nv(), final(input)@) == (
            NodeV::Text(text_spec(old(input)@, tag_opening()).0),
            text_spec(old(input)@, tag_opening()).1,
        ),
        input_ok(final(input)@) && final(input)@.len() < old(input)@.len(),
{
    let opening = [LEFT_ANGLE];
    assert(opening@ =~= tag_opening());
    proof {
        lemma_text_from(input@, tag_opening(), (false, false), Seq::empty());
        assert(!puncts_ahead(input@, tag_opening())) by {
            assert(!punct_at(input@, 0, '<'));
        }
    }
    let text = match parse_text(input, opening.as_slice()) {
        Ok(t) => t,
        Err(e) => return Err(e),
    };
    Ok(Node::Text(text))
}

/// Finds and grabs all child nodes up to `</`; `None` when there are none.
fn parse_children(input: &mut TokenIterator) -> (r: Result<Option<Vec<Node>>>)
    requires
        input_ok(old(input)@),
    ensures
        children_agree(r, children_spec(old(input)@), final(input)@),
        r is Ok ==> input_ok(final(input)@) && final(input)@.len() <= old(input)@.len(),
    decreases old(input)@.len(), 3nat,
{
    let ghost ts0 = input@;
    let closing = [LEFT_ANGLE, FORWARD_SLASH];
    assert(closing@ =~= tag_closing());
    let mut children: Vec<Node> = Vec::new();
    loop
        invariant_except_break
            ts0 == old(input)@,
            input_ok(input@),
            input@.len() <= ts0.len(),
            closing@ == tag_closing(),
            children_spec(ts0) == with_prefix(nodes_v(children@), children_spec(input@)),
        ensures
            input_ok(input@),
            input@.len() <= ts0.len(),
            children_spec(ts0) == Ok::<(Seq<NodeV>, Seq<TokenV>), Error>(
                (nodes_v(children@), input@),
            ),
        decreases input@.len(),
    {
        if input.is_empty() {
            return Err(Error::MoreTokensExpected);
        }
        if input.is_lookahead_puncts(closing.as_slice()) {
            assert(nodes_v(children@) + Seq::<NodeV>::empty() =~= nodes_v(children@));
            break ;
        }
        let child = match parse_node(input) {
            Ok(c) => c,
            Err(e) => return Err(e),
        };
        proof {
            lemma_nodes_v_push(children@, child);
            lemma_with_prefix_push(nodes_v(children@), child.nv(), children_spec(input@));
        }
        children.push(child);
    }
    Ok(maybe_nodes(children))
}

/// Reads the root: every node up to the end.
fn parse_root_node(input: &mut TokenIterator) -> (r: Result<Node>)
    requires
        input_ok(old(input)@),
    ensures
        match root_node_spec(old(input)@) {
            Ok(n) => r matches Ok(x) && x.nv() == n && final(input)@.len() == 0,
            Err(e) => r matches Err(f) && f == e,
        },
{
    let ghost ts0 = input@;
    let mut nodes: MicroVec<Node> = MicroVec::new();
    loop
        invariant_except_break
            ts0 == old(input)@,
            input_ok(input@),
            nodes.wf(),
            root_nodes_spec(ts0) == (match root_nodes_spec(input@) {
                Ok(rest) => Ok(nodes_v(nodes.items()) + rest),
                Err(e) => Err(e),
            }),
        ensures
            nodes.wf(),
            input@.len() == 0,
            root_nodes_spec(ts0) == Ok::<Seq<NodeV>, Error>(nodes_v(nodes.items())),
        decreases input@.len(),
    {
        if input.is_empty() {
            assert(nodes_v(nodes.items()) + Seq::<NodeV>::empty() =~= nodes_v(nodes.items()));
            break ;
        }
        let node = match parse_node(input) {
            Ok(n) => n,
            Err(e) => return Err(e),
        };
        proof {
            lemma_nodes_v_push(nodes.items(), node);
            if let Ok(rest) = root_nodes_spec(input@) {
                assert(nodes_v(nodes.items()) + (seq![node.nv()] + rest) =~= nodes_v(
                    nodes.items(),
                ).push(node.nv()) + rest);
            }
        }
        nodes = nodes.push(node);
    }
    proof {
        lemma_nodes_v_len(nodes.items());
    }
    match nodes {
        MicroVec::Nothing => Err(Error::EmptyMacroStreamGiven),
        MicroVec::Item(node) => {
            assert(nodes_v(seq![node]) =~= seq![node.nv()]) by {
                assert(seq![node].drop_last() =~= Seq::<Node>::empty());
            }
            Ok(node)
        },
        MicroVec::Vec(children) => Ok(Node::Fragment { children }),
    }
}

/// Reads a whole token stream.
fn parse_root(stream: Vec<Token>) -> (r: Result<Node>)
    requires
        tokens_wf(tokens_v(stream@)),
    ensures
        match parse_spec(tokens_v(stream@)) {
            Ok(n) => r matches Ok(x) && x.nv() == n,
            Err(e) => r matches Err(f) && f == e,
        },
{
    proof {
        lemma_tokens_v(stream@);
    }
    if stream.len() == 0 {
        return Err(Error::EmptyMacroStreamGiven);
    }
    let mut input = TokenIterator::new(stream);
    let node = match parse_root_node(&mut input) {
        Ok(n) => n,
        Err(e) => return Err(e),
    };
    if !input.is_empty() {
        return Err(Error::ExcessNodesFound);
    }
    Ok(node)
}

/// Parses markup into its syntax tree.
pub fn parse(stream: Vec<Token>) -> (r: Result<Node>)
    requires
        tokens_wf(tokens_v(stream@)),
    ensures
        match parse_spec(tokens_v(stream@)) {
            Ok(n) => r matches Ok(x) && x.nv() == n,
            Err(e) => r matches Err(f) && f == e,
        },
{
    parse_root(stream)
}

} // verus!

verus! {

// ----- laws of text reading -----

/// Identifier tokens with the names `ws`.
pub open spec fn idents(ws: Seq<Seq<char>>) -> Seq<TokenV> {
    ws.map_values(|w: Seq<char>| TokenV::Ident(w))
}

/// Each word after a space.
pub open spec fn prefixed(ws: Seq<Seq<char>>) -> Seq<char>
    decreases ws.len(),
{
    if ws.len() == 0 {
        Seq::empty()
    } else {
        seq![' '] + ws[0] + prefixed(ws.drop_first())
    }
}

/// The words separated by single spaces.
pub open spec fn spaced(ws: Seq<Seq<char>>) -> Seq<char> {
    if ws.len() == 0 {
        Seq::empty()
    } else {
        ws[0] + prefixed(ws.drop_first())
    }
}

/// Reading identifiers after an identifier puts a space before each.
proof fn lemma_read_idents(ws: Seq<Seq<char>>, stop: Seq<char>, acc: Seq<char>)
    requires
        stop.len() > 0,
    ensures
        text_from(idents(ws), stop, (true, true), acc) == (acc + prefixed(ws), Seq::<TokenV>::empty()),
    decreases ws.len(),
{
    let ts = idents(ws);
    if ws.len() == 0 {
        assert(acc + prefixed(ws) =~= acc);
        assert(ts =~= Seq::<TokenV>::empty());
    } else {
        assert(!punct_at(ts, 0, stop[0]));
        assert(!puncts_ahead(ts, stop));
        assert(ts.drop_first() =~= idents(ws.drop_first()));
        lemma_read_idents(ws.drop_first(), stop, acc.push(' ') + ws[0]);
        assert(acc.push(' ') + ws[0] + prefixed(ws.drop_first()) =~= acc + prefixed(ws));
    }
}

/// The tokens of `<l></r>`.
pub open spec fn empty_tag_tokens(l: Seq<char>, r: Seq<char>, sp: Spacing) -> Seq<TokenV> {
    seq![
        TokenV::Punct('<', sp),
        TokenV::Ident(l),
        TokenV::Punct('>', sp),
        TokenV::Punct('<', sp),
        TokenV::Punct('/', sp),
        TokenV::Ident(r),
        TokenV::Punct('>', sp),
    ]
}

/// A closing tag must repeat the opening name: `<l></r>` is read as an
/// element named `l` when `r` is the same name, and refused as mismatched
/// otherwise.
pub proof fn law_closing_tag_names_match(l: Seq<char>, r: Seq<char>, sp: Spacing)
    ensures
        l != r ==> tag_spec(empty_tag_tokens(l, r, sp)) == Err::<(NodeV, Seq<TokenV>), Error>(
            Error::MismatchedTagName,
        ),
        l == r ==> tag_spec(empty_tag_tokens(l, r, sp)) == Ok::<(NodeV, Seq<TokenV>), Error>(
            (NodeV::Open { name: l, attributes: None, children: None }, Seq::empty()),
        ),
{
    let ts = empty_tag_tokens(l, r, sp);
    let t1 = ts.drop_first();
    assert(punct_at(ts, 0, '<'));
    assert(!punct_at(t1, 0, '/'));
    assert(!puncts_ahead(t1, seq!['/', '>']));
    assert(!punct_at(t1, 0, '>'));
    assert(ident_at(t1, 0));
    let t2 = t1.drop_first();
    assert(hyphen_run(t2) == 0);
    assert(t2.skip(0) =~= t2);
    assert(!ident_at(t2, 0));
    assert(key_loop(t2, None) == (None::<Seq<char>>, t2));
    assert(!literal_next(t2));
    assert(attributes_spec(t2) == Ok::<(Seq<AttributeV>, Seq<TokenV>), Error>((Seq::empty(), t2)));
    assert(!punct_at(t2, 0, '/'));
    assert(punct_at(t2, 0, '>'));
    let t4 = t2.drop_first();
    assert(puncts_ahead(t4, tag_closing()));
    assert(children_spec(t4) == Ok::<(Seq<NodeV>, Seq<TokenV>), Error>((Seq::empty(), t4)));
    assert(ident_at(t4.skip(2), 0));
    assert(punct_at(t4.skip(3), 0, '>'));
    assert(ident_name(t4[2]) == r);
    assert(t4.skip(4) =~= Seq::<TokenV>::empty());
    assert(opt_seq(Seq::<AttributeV>::empty()) is None);
    assert(opt_seq(Seq::<NodeV>::empty()) is None);
}

/// Punctuation that closes a phrase: `. , ; : ? ! %` and closing brackets.
pub open spec fn is_closing_punctuation(c: char) -> bool {
    c == '.' || c == ',' || c == ';' || c == ':' || c == '?' || c == '!' || c == '%' || c == ')'
        || c == ']' || c == '>' || c == '}'
}

/// Opening brackets.
pub open spec fn is_opening_punctuation(c: char) -> bool {
    c == '(' || c == '[' || c == '{' || c == '<'
}

/// How text reads a word, a punctuation character and another word: closing
/// punctuation sticks to the word before it and is spaced from the word after
/// it, an opening bracket the other way round, a hyphen sticks to both, and
/// any other character is spaced from both. At the end of the text, closing
/// punctuation and a hyphen still stick to the word before them.
pub proof fn law_punctuation_spacing(
    w: Seq<char>,
    v: Seq<char>,
    c: char,
    sp: Spacing,
    stop: Seq<char>,
)
    requires
        stop.len() > 0,
        stop[0] != c,
    ensures
        ({
            let three = text_spec(seq![TokenV::Ident(w), TokenV::Punct(c, sp), TokenV::Ident(v)], stop);
            let two = text_spec(seq![TokenV::Ident(w), TokenV::Punct(c, sp)], stop);
            &&& three.1.len() == 0 && two.1.len() == 0
            &&& is_closing_punctuation(c) ==> three.0 == w + seq![c, ' '] + v && two.0 == w.push(c)
            &&& is_opening_punctuation(c) ==> three.0 == w + seq![' ', c] + v && two.0 == w + seq![
                ' ',
                c,
            ]
            &&& c == '-' ==> three.0 == w + seq![c] + v && two.0 == w.push(c)
            &&& !is_closing_punctuation(c) && !is_opening_punctuation(c) && c != '-' ==> three.0
                == w + seq![' ', c, ' '] + v && two.0 == w + seq![' ', c]
        }),
{
    let e = Seq::<char>::empty();
    let t3 = seq![TokenV::Ident(w), TokenV::Punct(c, sp), TokenV::Ident(v)];
    let t2 = seq![TokenV::Ident(w), TokenV::Punct(c, sp)];
    assert(!punct_at(t3, 0, stop[0]) && !puncts_ahead(t3, stop));
    assert(!punct_at(t2, 0, stop[0]) && !puncts_ahead(t2, stop));
    let r3 = t3.drop_first();
    let r2 = t2.drop_first();
    assert(!punct_at(r3, 0, stop[0]) && !puncts_ahead(r3, stop));
    assert(!punct_at(r2, 0, stop[0]) && !puncts_ahead(r2, stop));
    let q3 = r3.drop_first();
    assert(!punct_at(q3, 0, stop[0]) && !puncts_ahead(q3, stop));
    assert(q3.drop_first().len() == 0);
    assert(r2.drop_first().len() == 0);
    let rules = char_spacing_rules_spec(c);
    let acc1 = e + w;
    assert(acc1 =~= w);
    let acc2 = (if rules.0 {
        acc1.push(' ')
    } else {
        acc1
    }) + seq![c];
    let acc3 = (if rules.1 {
        acc2.push(' ')
    } else {
        acc2
    }) + v;
    assert(text_from(q3.drop_first(), stop, (true, true), acc3) == (acc3, q3.drop_first()));
    assert(text_from(q3, stop, rules, acc2) == (acc3, q3.drop_first()));
    assert(text_from(r3, stop, (true, true), acc1) == (acc3, q3.drop_first()));
    assert(text_spec(t3, stop) == (acc3, q3.drop_first()));
    assert(text_from(r2.drop_first(), stop, rules, acc2) == (acc2, r2.drop_first()));
    assert(text_from(r2, stop, (true, true), acc1) == (acc2, r2.drop_first()));
    assert(text_spec(t2, stop) == (acc2, r2.drop_first()));
    assert(w + seq![c, ' '] + v =~= w.push(c).push(' ') + v);
    assert(w + seq![' ', c] + v =~= w.push(' ').push(c) + v);
    assert(w + seq![c] + v =~= w.push(c) + v);
    assert(w + seq![' ', c, ' '] + v =~= w.push(' ').push(c).push(' ') + v);
    assert(w + seq![' ', c] =~= w.push(' ').push(c));
    assert(w.push(' ') + seq![c] =~= w.push(' ').push(c));
    assert(w + seq![c] =~= w.push(c));
}

/// Text may be written inline or quoted: words written as identifiers read
/// as the same text as those words written, spaced, in one string literal.
pub proof fn law_inline_text_reads_like_quoted_text(ws: Seq<Seq<char>>, stop: Seq<char>)
    requires
        stop.len() > 0,
    ensures
        text_spec(idents(ws), stop) == (spaced(ws), Seq::<TokenV>::empty()),
        text_spec(seq![TokenV::Literal(seq!['"'] + spaced(ws) + seq!['"'])], stop) == (
            spaced(ws),
            Seq::<TokenV>::empty(),
        ),
{
    let ts = idents(ws);
    if ws.len() == 0 {
        assert(ts =~= Seq::<TokenV>::empty());
    } else {
        assert(!punct_at(ts, 0, stop[0]));
        assert(!puncts_ahead(ts, stop));
        assert(ts.drop_first() =~= idents(ws.drop_first()));
        lemma_read_idents(ws.drop_first(), stop, Seq::<char>::empty() + ws[0]);
        assert(Seq::<char>::empty() + ws[0] + prefixed(ws.drop_first()) =~= spaced(ws));
    }
    let q = seq!['"'] + spaced(ws) + seq!['"'];
    let lit = seq![TokenV::Literal(q)];
    assert(!punct_at(lit, 0, stop[0]));
    assert(!puncts_ahead(lit, stop));
    assert(strip_quotes(q) =~= spaced(ws));
    assert(lit.drop_first() =~= Seq::<TokenV>::empty());
    assert(token_text(lit[0]) == strip_quotes(q));
    assert(text_stops(lit.drop_first(), stop));
    assert(text_from(lit.drop_first(), stop, (true, true), Seq::<char>::empty() + strip_quotes(q))
        == (Seq::<char>::empty() + strip_quotes(q), lit.drop_first()));
    assert(!text_stops(lit, stop));
    assert(text_from(lit, stop, (false, false), Seq::<char>::empty()) == text_from(
        lit.drop_first(),
        stop,
        (true, true),
        Seq::<char>::empty() + strip_quotes(q),
    ));
    assert(Seq::<char>::empty() + strip_quotes(q) =~= spaced(ws));
}

} // verus!
