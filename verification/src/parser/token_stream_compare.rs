//! Equality of token trees by what they print as, ignoring where they came
//! from: punctuation by character and spacing, identifiers and literals by
//! text, groups by delimiter and contents.

use crate::token::{lemma_tokens_v, lemma_tsize_seq, tokens_v, tsize, tsize_seq, Delimiter, Spacing, Token, TokenV};
use vstd::prelude::*;

verus! {

/// Two token trees print as the same tokens.
pub open spec fn same_token(a: TokenV, b: TokenV) -> bool
    decreases a,
{
    match (a, b) {
        (TokenV::Punct(ca, sa), TokenV::Punct(cb, sb)) => ca == cb && sa == sb,
        (TokenV::Ident(x), TokenV::Ident(y)) => x == y,
        (TokenV::Group(da, xa, _), TokenV::Group(db, xb, _)) => da == db && same_tokens(xa, xb),
        (TokenV::Literal(x), TokenV::Literal(y)) => x == y,
        _ => false,
    }
}

/// Two sequences of token trees print as the same tokens, pair by pair.
pub open spec fn same_tokens(a: Seq<TokenV>, b: Seq<TokenV>) -> bool
    decreases a,
{
    if a.len() != b.len() {
        false
    } else if a.len() == 0 {
        true
    } else {
        same_tokens(a.drop_last(), b.drop_last()) && same_token(a.last(), b.last())
    }
}

/// `same_tokens`, pair by pair.
pub proof fn lemma_same_tokens(a: Seq<TokenV>, b: Seq<TokenV>)
    ensures
        same_tokens(a, b) <==> (a.len() == b.len() && forall|i: int|
            0 <= i < a.len() ==> #[trigger] same_token(a[i], b[i])),
    decreases a.len(),
{
    if a.len() == b.len() && a.len() > 0 {
        lemma_same_tokens(a.drop_last(), b.drop_last());
        if forall|i: int| 0 <= i < a.len() ==> #[trigger] same_token(a[i], b[i]) {
            assert forall|i: int| 0 <= i < a.drop_last().len() implies #[trigger] same_token(
                a.drop_last()[i],
                b.drop_last()[i],
            ) by {
                assert(same_token(a[i], b[i]));
            }
            assert(same_token(a[a.len() - 1], b[b.len() - 1]));
        }
        if same_tokens(a, b) {
            assert forall|i: int| 0 <= i < a.len() implies #[trigger] same_token(a[i], b[i]) by {
                if i < a.len() - 1 {
                    assert(same_token(a.drop_last()[i], b.drop_last()[i]));
                }
            }
        }
    }
}

/// Returns whether two token streams hold the same tokens.
pub fn token_stream_eq(a_stream: &Vec<Token>, b_stream: &Vec<Token>) -> (r: bool)
    ensures
        r == same_tokens(tokens_v(a_stream@), tokens_v(b_stream@)),
    decreases tsize_seq(tokens_v(a_stream@)), 1nat,
{
    proof {
        lemma_tokens_v(a_stream@);
        lemma_tokens_v(b_stream@);
        lemma_same_tokens(tokens_v(a_stream@), tokens_v(b_stream@));
    }
    if a_stream.len() != b_stream.len() {
        return false;
    }
    let mut i: usize = 0;
    while i < a_stream.len()
        invariant
            i <= a_stream.len() == b_stream.len(),
            tokens_v(a_stream@).len() == a_stream@.len(),
            tokens_v(b_stream@).len() == b_stream@.len(),
            forall|j: int| 0 <= j < a_stream@.len() ==> #[trigger] tokens_v(a_stream@)[j] == a_stream@[j].tv(),
            forall|j: int| 0 <= j < b_stream@.len() ==> #[trigger] tokens_v(b_stream@)[j] == b_stream@[j].tv(),
            forall|j: int| 0 <= j < i ==> #[trigger] same_token(a_stream@[j].tv(), b_stream@[j].tv()),
        decreases a_stream.len() - i,
    {
        proof {
            lemma_tsize_seq(tokens_v(a_stream@), i as int);
        }
        if !token_tree_eq(&a_stream[i], &b_stream[i]) {
            proof {
                lemma_same_tokens(tokens_v(a_stream@), tokens_v(b_stream@));
                assert(!same_token(tokens_v(a_stream@)[i as int], tokens_v(b_stream@)[i as int]));
            }
            return false;
        }
        i = i + 1;
    }
    proof {
        assert forall|j: int| 0 <= j < tokens_v(a_stream@).len() implies #[trigger] same_token(
            tokens_v(a_stream@)[j],
            tokens_v(b_stream@)[j],
        ) by {
            assert(same_token(a_stream@[j].tv(), b_stream@[j].tv()));
        }
    }
    true
}

/// Returns whether two token trees print as the same tokens.
pub(crate) fn token_tree_eq(a_token_tree: &Token, b_token_tree: &Token) -> (r: bool)
    ensures
        r == same_token(a_token_tree.tv(), b_token_tree.tv()),
    decreases tsize(a_token_tree.tv()), 0nat,
{
    match (a_token_tree, b_token_tree) {
        (Token::Punct(ca, sa), Token::Punct(cb, sb)) => punct_eq((*ca, *sa), (*cb, *sb)),
        (Token::Ident(a), Token::Ident(b)) => punct_ident(a, b),
        (Token::Group(da, xa, _), Token::Group(db, xb, _)) => {
            if *da == *db {
                token_stream_eq(xa, xb)
            } else {
                false
            }
        },
        (Token::Literal(a), Token::Literal(b)) => punct_literal(a, b),
        _ => false,
    }
}

/// Two punctuations are equal when their characters and spacings are.
pub(crate) fn punct_eq(a: (char, Spacing), b: (char, Spacing)) -> (r: bool)
    ensures
        r == (a.0 == b.0 && a.1 == b.1),
{
    a.0 == b.0 && a.1 == b.1
}

/// Two identifiers are equal when their names are.
pub(crate) fn punct_ident(a: &String, b: &String) -> (r: bool)
    ensures
        r == (a@ == b@),
{
    *a == *b
}

/// Two groups are equal when their delimiters and contents are.
pub(crate) fn punct_group(a: (Delimiter, &Vec<Token>), b: (Delimiter, &Vec<Token>)) -> (r: bool)
    ensures
        r == (a.0 == b.0 && same_tokens(tokens_v(a.1@), tokens_v(b.1@))),
{
    a.0 == b.0 && token_stream_eq(a.1, b.1)
}

/// Two literals are equal when they print the same.
pub(crate) fn punct_literal(a: &String, b: &String) -> (r: bool)
    ensures
        r == (a@ == b@),
{
    *a == *b
}

/// Token equality is reflexive.
pub proof fn lemma_same_token_reflexive(a: TokenV)
    ensures
        same_token(a, a),
    decreases a,
{
    match a {
        TokenV::Group(_, inner, _) => lemma_same_tokens_reflexive(inner),
        _ => {},
    }
}

/// Token-stream equality is reflexive.
pub proof fn lemma_same_tokens_reflexive(a: Seq<TokenV>)
    ensures
        same_tokens(a, a),
    decreases a,
{
    if a.len() > 0 {
        lemma_same_tokens_reflexive(a.drop_last());
        lemma_same_token_reflexive(a.last());
    }
}

/// Token equality is symmetric.
pub proof fn lemma_same_token_symmetric(a: TokenV, b: TokenV)
    ensures
        same_token(a, b) == same_token(b, a),
    decreases a,
{
    match (a, b) {
        (TokenV::Group(_, x, _), TokenV::Group(_, y, _)) => lemma_same_tokens_symmetric(x, y),
        _ => {},
    }
}

/// Token-stream equality is symmetric.
pub proof fn lemma_same_tokens_symmetric(a: Seq<TokenV>, b: Seq<TokenV>)
    ensures
        same_tokens(a, b) == same_tokens(b, a),
    decreases a,
{
    if a.len() == b.len() && a.len() > 0 {
        lemma_same_tokens_symmetric(a.drop_last(), b.drop_last());
        lemma_same_token_symmetric(a.last(), b.last());
    }
}

/// Token equality is transitive.
pub proof fn lemma_same_token_transitive(a: TokenV, b: TokenV, c: TokenV)
    requires
        same_token(a, b),
        same_token(b, c),
    ensures
        same_token(a, c),
    decreases a,
{
    match (a, b, c) {
        (TokenV::Group(_, x, _), TokenV::Group(_, y, _), TokenV::Group(_, z, _)) => {
            lemma_same_tokens_transitive(x, y, z)
        },
        _ => {},
    }
}

/// Token-stream equality is transitive.
pub proof fn lemma_same_tokens_transitive(a: Seq<TokenV>, b: Seq<TokenV>, c: Seq<TokenV>)
    requires
        same_tokens(a, b),
        same_tokens(b, c),
    ensures
        same_tokens(a, c),
    decreases a,
{
    if a.len() > 0 {
        lemma_same_tokens_transitive(a.drop_last(), b.drop_last(), c.drop_last());
        lemma_same_token_transitive(a.last(), b.last(), c.last());
    }
}

} // verus!
