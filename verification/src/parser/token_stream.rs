//! Flattening of token trees: every group that is not delimited by braces is
//! replaced by its opening character, its flattened contents, and its
//! closing character, so that markup such as `(text)` can be read token by
//! token, while `{ code }` stays whole.

use crate::token::{
    lemma_tokens_wf, token_wf, tokens_wf, lemma_tokens_v, lemma_tokens_v_push, lemma_tsize_seq, tokens_v, tsize, tsize_seq, Delimiter,
    Spacing, Token, TokenV,
};
use vstd::prelude::*;

verus! {

/// The opening and closing characters of a delimiter.
pub open spec fn delimiter_chars_spec(d: Delimiter) -> (char, char) {
    match d {
        Delimiter::Bracket => ('[', ']'),
        Delimiter::Parenthesis => ('(', ')'),
        Delimiter::Brace => ('{', '}'),
        Delimiter::Invisible => ('\0', '\0'),
    }
}

/// The flattening of one token tree.
pub open spec fn flatten_one(t: TokenV) -> Seq<TokenV>
    decreases t,
{
    match t {
        TokenV::Group(d, inner, _) => {
            if d != Delimiter::Brace {
                seq![TokenV::Punct(delimiter_chars_spec(d).0, Spacing::Alone)] + flatten_v(inner)
                    + seq![TokenV::Punct(delimiter_chars_spec(d).1, Spacing::Alone)]
            } else {
                seq![t]
            }
        },
        _ => seq![t],
    }
}

/// The flattening of a sequence of token trees.
pub open spec fn flatten_v(ts: Seq<TokenV>) -> Seq<TokenV>
    decreases ts,
{
    if ts.len() == 0 {
        Seq::empty()
    } else {
        flatten_v(ts.drop_last()) + flatten_one(ts.last())
    }
}

/// No group at the top level of `ts` is delimited by anything but braces.
pub open spec fn brace_only(ts: Seq<TokenV>) -> bool {
    forall|i: int|
        0 <= i < ts.len() ==> (#[trigger] ts[i] matches TokenV::Group(d, _, _) ==> d
            == Delimiter::Brace)
}

/// Returns the opening and closing characters of `delimiter`.
pub fn delimiter_chars(delimiter: Delimiter) -> (r: (char, char))
    ensures
        r == delimiter_chars_spec(delimiter),
{
    match delimiter {
        Delimiter::Bracket => ('[', ']'),
        Delimiter::Parenthesis => ('(', ')'),
        Delimiter::Brace => ('{', '}'),
        Delimiter::Invisible => ('\0', '\0'),
    }
}

proof fn lemma_tokens_v_append(a: Seq<Token>, b: Seq<Token>)
    ensures
        tokens_v(a + b) == tokens_v(a) + tokens_v(b),
    decreases b.len(),
{
    if b.len() == 0 {
        assert(a + b =~= a);
        assert(tokens_v(a) + tokens_v(b) =~= tokens_v(a));
    } else {
        lemma_tokens_v_append(a, b.drop_last());
        assert((a + b).drop_last() =~= a + b.drop_last());
        assert(tokens_v(a) + tokens_v(b) =~= tokens_v(a) + tokens_v(b.drop_last()) + seq![
            b.last().tv(),
        ]);
    }
}

proof fn lemma_flatten_v_push(ts: Seq<TokenV>, t: TokenV)
    ensures
        flatten_v(ts.push(t)) == flatten_v(ts) + flatten_one(t),
{
    assert(ts.push(t).drop_last() =~= ts);
}

/// Appends the flattening of `stream` to `new_stream`.
fn flatten_non_braces_into(new_stream: &mut Vec<Token>, stream: Vec<Token>)
    ensures
        tokens_v(final(new_stream)@) == tokens_v(old(new_stream)@) + flatten_v(tokens_v(stream@)),
    decreases tsize_seq(tokens_v(stream@)),
{
    let ghost start = new_stream@;
    let ghost items = tokens_v(stream@);
    let ghost n = stream@.len();
    let mut source = stream;
    let mut rest: Vec<Token> = Vec::new();
    proof {
        lemma_tokens_v(source@);
    }
    while source.len() > 0
        invariant
            source.len() + rest.len() == n,
            forall|i: int| 0 <= i < source.len() ==> #[trigger] source@[i].tv() == items[i],
            forall|i: int|
                0 <= i < rest.len() ==> #[trigger] rest@[i].tv() == items[n - 1 - i],
            items.len() == n,
        decreases source.len(),
    {
        let t = source.pop().unwrap();
        rest.push(t);
    }
    while rest.len() > 0
        invariant
            n == stream@.len(),
            rest.len() <= n,
            forall|i: int|
                0 <= i < rest.len() ==> #[trigger] rest@[i].tv() == items[n - 1 - i],
            tokens_v(new_stream@) == tokens_v(start) + flatten_v(items.take(n - rest.len())),
            items == tokens_v(stream@),
            items.len() == n,
        decreases rest.len(),
    {
        let ghost k = n - rest.len();
        let item = rest.pop().unwrap();
        assert(items.take(k + 1) =~= items.take(k).push(items[k]));
        proof {
            lemma_flatten_v_push(items.take(k), items[k]);
        }
        match item {
            Token::Group(delimiter, inner, text) => {
                if delimiter != Delimiter::Brace {
                    let (opening_char, closing_char) = delimiter_chars(delimiter);
                    let o = Token::Punct(opening_char, Spacing::Alone);
                    proof {
                        lemma_tokens_v_push(new_stream@, o);
                    }
                    new_stream.push(o);
                    proof {
                        lemma_tsize_seq(items, k);
                        assert(item.tv() == items[k]);
                    }
                    flatten_non_braces_into(new_stream, inner);
                    let c = Token::Punct(closing_char, Spacing::Alone);
                    proof {
                        lemma_tokens_v_push(new_stream@, c);
                    }
                    new_stream.push(c);
                } else {
                    let g = Token::Group(delimiter, inner, text);
                    proof {
                        lemma_tokens_v_push(new_stream@, g);
                    }
                    new_stream.push(g);
                }
            },
            _ => {
                proof {
                    lemma_tokens_v_push(new_stream@, item);
                }
                new_stream.push(item);
            },
        }
    }
    assert(items.take(n as int) =~= items);
}

/// Flattens every group of `stream` that is not delimited by braces.
pub fn flatten_non_braces(stream: Vec<Token>) -> (r: Vec<Token>)
    ensures
        tokens_v(r@) == flatten_v(tokens_v(stream@)),
        brace_only(tokens_v(r@)),
        tokens_wf(tokens_v(stream@)) ==> tokens_wf(tokens_v(r@)),
{
    let mut new_stream: Vec<Token> = Vec::new();
    proof {
        assert(tokens_v(new_stream@) =~= Seq::<TokenV>::empty());
    }
    flatten_non_braces_into(&mut new_stream, stream);
    proof {
        assert(Seq::<TokenV>::empty() + flatten_v(tokens_v(stream@)) =~= flatten_v(
            tokens_v(stream@),
        ));
        lemma_flatten_brace_only(tokens_v(stream@));
        lemma_flatten_wf(tokens_v(stream@));
    }
    new_stream
}

proof fn lemma_brace_only_append(a: Seq<TokenV>, b: Seq<TokenV>)
    requires
        brace_only(a),
        brace_only(b),
    ensures
        brace_only(a + b),
{
    assert forall|i: int| 0 <= i < (a + b).len() implies (#[trigger] (a + b)[i] matches TokenV::Group(
        d,
        _,
        _,
    ) ==> d == Delimiter::Brace) by {
        if i < a.len() {
            assert((a + b)[i] == a[i]);
        } else {
            assert((a + b)[i] == b[i - a.len()]);
        }
    }
}

proof fn lemma_flatten_one_brace_only(t: TokenV)
    ensures
        brace_only(flatten_one(t)),
    decreases t,
{
    match t {
        TokenV::Group(d, inner, _) => {
            if d != Delimiter::Brace {
                lemma_flatten_brace_only(inner);
                let o = seq![TokenV::Punct(delimiter_chars_spec(d).0, Spacing::Alone)];
                let c = seq![TokenV::Punct(delimiter_chars_spec(d).1, Spacing::Alone)];
                lemma_brace_only_append(o, flatten_v(inner));
                lemma_brace_only_append(o + flatten_v(inner), c);
            }
        },
        _ => {},
    }
}

/// No group at the top level of a flattening is delimited by anything but braces.
pub proof fn lemma_flatten_brace_only(ts: Seq<TokenV>)
    ensures
        brace_only(flatten_v(ts)),
    decreases ts,
{
    if ts.len() > 0 {
        lemma_flatten_brace_only(ts.drop_last());
        lemma_flatten_one_brace_only(ts.last());
        lemma_brace_only_append(flatten_v(ts.drop_last()), flatten_one(ts.last()));
    }
}

/// Flattening leaves a sequence without non-brace groups unchanged.
pub proof fn lemma_flatten_identity(ts: Seq<TokenV>)
    requires
        brace_only(ts),
    ensures
        flatten_v(ts) == ts,
    decreases ts.len(),
{
    if ts.len() > 0 {
        assert(brace_only(ts.drop_last())) by {
            assert forall|i: int| 0 <= i < ts.drop_last().len() implies (
            #[trigger] ts.drop_last()[i] matches TokenV::Group(d, _, _) ==> d == Delimiter::Brace) by {
                assert(ts.drop_last()[i] == ts[i]);
            }
        }
        lemma_flatten_identity(ts.drop_last());
        let t = ts[ts.len() - 1];
        assert(t matches TokenV::Group(d, _, _) ==> d == Delimiter::Brace);
        assert(flatten_one(t) == seq![t]);
        assert(ts.drop_last() + seq![t] =~= ts);
    } else {
        assert(ts =~= Seq::<TokenV>::empty());
    }
}

/// Flattening twice is flattening once.
pub proof fn lemma_flatten_idempotent(ts: Seq<TokenV>)
    ensures
        flatten_v(flatten_v(ts)) == flatten_v(ts),
{
    lemma_flatten_brace_only(ts);
    lemma_flatten_identity(flatten_v(ts));
}

proof fn lemma_wf_append(a: Seq<TokenV>, b: Seq<TokenV>)
    requires
        tokens_wf(a),
        tokens_wf(b),
    ensures
        tokens_wf(a + b),
{
    lemma_tokens_wf(a);
    lemma_tokens_wf(b);
    lemma_tokens_wf(a + b);
    assert forall|i: int| 0 <= i < (a + b).len() implies #[trigger] token_wf((a + b)[i]) by {
        if i < a.len() {
            assert((a + b)[i] == a[i]);
        } else {
            assert((a + b)[i] == b[i - a.len()]);
        }
    }
}

proof fn lemma_flatten_one_wf(t: TokenV)
    requires
        token_wf(t),
    ensures
        tokens_wf(flatten_one(t)),
    decreases t,
{
    lemma_tokens_wf(seq![t]);
    match t {
        TokenV::Group(d, inner, _) => {
            if d != Delimiter::Brace {
                lemma_flatten_wf(inner);
                let o = seq![TokenV::Punct(delimiter_chars_spec(d).0, Spacing::Alone)];
                let c = seq![TokenV::Punct(delimiter_chars_spec(d).1, Spacing::Alone)];
                lemma_tokens_wf(o);
                lemma_tokens_wf(c);
                lemma_wf_append(o, flatten_v(inner));
                lemma_wf_append(o + flatten_v(inner), c);
            }
        },
        _ => {},
    }
}

/// Flattening keeps every literal well formed.
pub proof fn lemma_flatten_wf(ts: Seq<TokenV>)
    ensures
        tokens_wf(ts) ==> tokens_wf(flatten_v(ts)),
    decreases ts,
{
    if ts.len() > 0 && tokens_wf(ts) {
        lemma_flatten_wf(ts.drop_last());
        lemma_flatten_one_wf(ts.last());
        lemma_wf_append(flatten_v(ts.drop_last()), flatten_one(ts.last()));
    }
}

} // verus!
