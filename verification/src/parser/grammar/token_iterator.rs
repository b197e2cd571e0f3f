//! A cursor over a flattened token stream with arbitrary lookahead.

use crate::parser::token_stream::{brace_only, flatten_non_braces, flatten_v, lemma_flatten_wf};
use crate::text::{literal_text, starts_with_char, strip_quotes, trim_text, trimmed};
use crate::token::{
    lemma_tokens_v, lemma_tokens_wf, token_wf, tokens_v, tokens_wf, Delimiter, Token, TokenV,
};
use lookahead::Lookahead;
use std::vec::IntoIter;
use vstd::prelude::*;

verus! {

#[verifier::external_type_specification]
#[verifier::external_body]
#[verifier::reject_recursive_types(I)]
pub struct ExLookahead<I: Iterator>(Lookahead<I>);

/// What a lookahead iterator over tokens has yet to yield, in order.
pub uninterp spec fn pending(it: Lookahead<IntoIter<Token>>) -> Seq<Token>;

/// Starts a lookahead iterator over `tokens`.
///
/// Trusted: wraps `lookahead::lookahead`, which fuses the vector's iterator
/// and puts an empty queue in front of it; it yields the tokens in order.
#[verifier::external_body]
fn start(tokens: Vec<Token>) -> (r: Lookahead<IntoIter<Token>>)
    ensures
        pending(r) == tokens@,
{
    lookahead::lookahead(tokens)
}

/// Returns a copy of the token `n` places ahead, if there is one.
///
/// Trusted: wraps `Lookahead::lookahead`, which moves tokens from the inner
/// iterator to its queue and returns a reference to the `n`th queued one; what
/// is yet to be yielded does not change. The reference is copied with
/// `Token`'s `clone`, which keeps its value. It computes `n - queued + 1`,
/// so `n` is kept below `usize::MAX`.
#[verifier::external_body]
fn look(it: &mut Lookahead<IntoIter<Token>>, n: usize) -> (r: Option<Token>)
    requires
        n < usize::MAX,
    ensures
        pending(*final(it)) == pending(*old(it)),
        pending(*old(it)).len() <= usize::MAX,
        n < pending(*old(it)).len() ==> (r matches Some(t) && t.tv() == pending(*old(it))[n as int].tv()),
        n >= pending(*old(it)).len() ==> r is None,
{
    it.lookahead(n).cloned()
}

/// Yields the next token, if there is one.
///
/// Trusted: wraps `Iterator::next` of `Lookahead`, which pops the front of its
/// queue or else takes the next token of the inner iterator.
#[verifier::external_body]
fn advance(it: &mut Lookahead<IntoIter<Token>>) -> (r: Option<Token>)
    ensures
        pending(*old(it)).len() == 0 ==> r is None && pending(*final(it)) == pending(*old(it)),
        pending(*old(it)).len() > 0 ==> r == Some(pending(*old(it))[0]) && pending(*final(it))
            == pending(*old(it)).drop_first(),
{
    it.next()
}

/// Errors of the token cursor.
#[derive(Clone, Copy, Debug, PartialEq, Eq, Structural)]
pub enum TokenIteratorError {
    ChompOnEmptyNode,
    UnexpectedToken,
}

/// The token at `i` is the punctuation `c`.
pub open spec fn punct_at(ts: Seq<TokenV>, i: int, c: char) -> bool {
    &&& 0 <= i < ts.len()
    &&& ts[i] matches TokenV::Punct(p, _)
    &&& p == c
}

/// The token at `i` is an identifier.
pub open spec fn ident_at(ts: Seq<TokenV>, i: int) -> bool {
    0 <= i < ts.len() && ts[i] is Ident
}

/// The next token is a literal.
pub open spec fn literal_next(ts: Seq<TokenV>) -> bool {
    ts.len() > 0 && ts[0] is Literal
}

/// The next token is a group delimited by `d`.
pub open spec fn group_next(ts: Seq<TokenV>, d: Delimiter) -> bool {
    &&& ts.len() > 0
    &&& ts[0] matches TokenV::Group(e, _, _)
    &&& e == d
}

/// The next tokens are the punctuations `cs`, in order.
pub open spec fn puncts_ahead(ts: Seq<TokenV>, cs: Seq<char>) -> bool {
    forall|i: int| 0 <= i < cs.len() ==> #[trigger] punct_at(ts, i, cs[i])
}

/// The number of the punctuations `cs` that come next, in order, before the
/// first one that does not.
pub open spec fn puncts_matched(ts: Seq<TokenV>, cs: Seq<char>) -> nat
    decreases cs.len(),
{
    if cs.len() == 0 || !punct_at(ts, 0, cs[0]) {
        0
    } else {
        1 + puncts_matched(ts.drop_first(), cs.drop_first())
    }
}

/// The text that a group is read as: a brace group without its braces and
/// surrounding white space, any other group as it prints.
pub open spec fn group_text(text: Seq<char>) -> Seq<char> {
    if text.len() > 0 && text[0] == '{' {
        trimmed(text.subrange(1, text.len() - 1))
    } else {
        text
    }
}

/// A cursor over a token stream in which only brace groups remain.
#[derive(Debug)]
pub struct TokenIterator {
    iter: Lookahead<IntoIter<Token>>,
}

impl View for TokenIterator {
    type V = Seq<TokenV>;

    /// The tokens yet to be read.
    closed spec fn view(&self) -> Seq<TokenV> {
        tokens_v(pending(self.iter))
    }
}

impl TokenIterator {
    /// Starts reading the flattening of `stream`.
    pub fn new(stream: Vec<Token>) -> (r: Self)
        ensures
            r@ == flatten_v(tokens_v(stream@)),
            brace_only(r@),
            tokens_wf(tokens_v(stream@)) ==> tokens_wf(r@),
    {
        let new_stream = flatten(stream);
        Self { iter: start(new_stream) }
    }

    /// Returns the next token, if there is one.
    pub fn peek(&mut self) -> (r: Option<Token>)
        ensures
            final(self)@ == old(self)@,
            old(self)@.len() > 0 ==> (r matches Some(t) && t.tv() == old(self)@[0]),
            old(self)@.len() == 0 ==> r is None,
    {
        self.lookahead(0)
    }

    /// Returns whether the next tokens are the punctuations `cs`.
    pub fn is_lookahead_puncts(&mut self, cs: &[char]) -> (r: bool)
        ensures
            final(self)@ == old(self)@,
            r == puncts_ahead(old(self)@, cs@),
    {
        let mut i: usize = 0;
        while i < cs.len()
            invariant
                self@ == old(self)@,
                i <= cs@.len(),
                forall|j: int| 0 <= j < i ==> #[trigger] punct_at(self@, j, cs@[j]),
            decreases cs.len() - i,
        {
            if !self.is_lookahead_punct(cs[i], i) {
                return false;
            }
            i = i + 1;
        }
        true
    }

    /// Returns the token `index` places ahead, if there is one.
    pub fn lookahead(&mut self, index: usize) -> (r: Option<Token>)
        ensures
            final(self)@ == old(self)@,
            old(self)@.len() <= usize::MAX,
            index < old(self)@.len() ==> (r matches Some(t) && t.tv() == old(self)@[index as int]),
            index >= old(self)@.len() ==> r is None,
    {
        proof {
            lemma_tokens_v(pending(self.iter));
        }
        if index == usize::MAX {
            // No sequence of tokens reaches this far; looking at the first
            // token tells how many there are at most.
            let _ = look(&mut self.iter, 0);
            return None;
        }
        look(&mut self.iter, index)
    }

    /// Returns whether the token `index` places ahead is the punctuation `c`.
    pub fn is_lookahead_punct(&mut self, c: char, index: usize) -> (r: bool)
        ensures
            final(self)@ == old(self)@,
            old(self)@.len() <= usize::MAX,
            r == punct_at(old(self)@, index as int, c),
    {
        if let Some(Token::Punct(p, _)) = self.lookahead(index) {
            return p == c;
        }
        false
    }

    /// Returns whether the token `index` places ahead is an identifier.
    pub fn is_lookahead_ident(&mut self, index: usize) -> (r: bool)
        ensures
            final(self)@ == old(self)@,
            r == ident_at(old(self)@, index as int),
    {
        if let Some(Token::Ident(_)) = self.lookahead(index) {
            return true;
        }
        false
    }

    /// Returns whether the next token is an identifier.
    pub fn is_next_ident(&mut self) -> (r: bool)
        ensures
            final(self)@ == old(self)@,
            r == ident_at(old(self)@, 0),
    {
        if let Some(Token::Ident(_)) = self.peek() {
            return true;
        }
        false
    }

    /// Reads an identifier if one is next, else returns `alt`.
    pub fn chomp_ident_or(&mut self, alt: &str) -> (r: Result<String, TokenIteratorError>)
        ensures
            ident_at(old(self)@, 0) ==> (r matches Ok(s) && old(self)@[0] == TokenV::Ident(s@)
                && final(self)@ == old(self)@.drop_first()),
            !ident_at(old(self)@, 0) ==> (r matches Ok(s) && s@ == alt@ && final(self)@ == old(self)@),
    {
        if let Some(Token::Ident(_)) = self.peek() {
            self.chomp_ident()
        } else {
            Ok(String::from_str(alt))
        }
    }

    /// Returns whether the next token is the punctuation `c`.
    pub fn is_next_punct(&mut self, c: char) -> (r: bool)
        ensures
            final(self)@ == old(self)@,
            r == punct_at(old(self)@, 0, c),
    {
        self.is_lookahead_punct(c, 0)
    }

    /// Returns whether the next token is a literal.
    pub fn is_next_literal(&mut self) -> (r: bool)
        ensures
            final(self)@ == old(self)@,
            r == literal_next(old(self)@),
    {
        if let Some(Token::Literal(_)) = self.peek() {
            return true;
        }
        false
    }

    /// Returns true if empty.
    pub fn is_empty(&mut self) -> (r: bool)
        ensures
            final(self)@ == old(self)@,
            r == (old(self)@.len() == 0),
    {
        self.peek().is_none()
    }

    /// Moves forward one token, returning it.
    ///
    /// There must be a next token.
    pub fn chomp(&mut self) -> (r: Result<Token, TokenIteratorError>)
        requires
            old(self)@.len() > 0,
        ensures
            r matches Ok(t) && t.tv() == old(self)@[0] && final(self)@ == old(self)@.drop_first(),
    {
        proof {
            lemma_tokens_v(pending(self.iter));
            lemma_tokens_v(pending(self.iter).drop_first());
            assert(tokens_v(pending(self.iter).drop_first()) =~= tokens_v(
                pending(self.iter),
            ).drop_first());
        }
        match advance(&mut self.iter) {
            Some(t) => Ok(t),
            None => Err(TokenIteratorError::ChompOnEmptyNode),
        }
    }

    /// Reads an identifier, returning its name.
    pub fn chomp_ident(&mut self) -> (r: Result<String, TokenIteratorError>)
        ensures
            ident_at(old(self)@, 0) ==> (r matches Ok(s) && old(self)@[0] == TokenV::Ident(s@)
                && final(self)@ == old(self)@.drop_first()),
            !ident_at(old(self)@, 0) ==> r == Err::<String, _>(TokenIteratorError::UnexpectedToken)
                && final(self)@ == old(self)@,
    {
        if let Some(Token::Ident(ident)) = self.peek() {
            self.chomp()?;
            return Ok(ident);
        }
        Err(TokenIteratorError::UnexpectedToken)
    }

    /// Reads a literal, returning its text without the quotes of a string.
    pub fn chomp_literal(&mut self) -> (r: Result<String, TokenIteratorError>)
        requires
            tokens_wf(old(self)@),
        ensures
            literal_next(old(self)@) ==> (r matches Ok(s) && old(self)@[0] matches TokenV::Literal(l)
                && s@ == strip_quotes(l) && final(self)@ == old(self)@.drop_first()),
            !literal_next(old(self)@) ==> r == Err::<String, _>(TokenIteratorError::UnexpectedToken)
                && final(self)@ == old(self)@,
    {
        proof {
            lemma_tokens_wf(self@);
        }
        if let Some(Token::Literal(literal)) = self.peek() {
            assert(token_wf(self@[0]));
            let literal_string = literal_text(&literal);
            self.chomp()?;
            return Ok(literal_string);
        }
        Err(TokenIteratorError::UnexpectedToken)
    }

    /// Reads the punctuation `c`.
    pub fn chomp_punct(&mut self, c: char) -> (r: Result<(), TokenIteratorError>)
        ensures
            punct_at(old(self)@, 0, c) ==> r is Ok && final(self)@ == old(self)@.drop_first(),
            !punct_at(old(self)@, 0, c) ==> r == Err::<(), _>(TokenIteratorError::UnexpectedToken)
                && final(self)@ == old(self)@,
    {
        if self.is_next_punct(c) {
            self.chomp()?;
            Ok(())
        } else {
            Err(TokenIteratorError::UnexpectedToken)
        }
    }

    /// Reads the punctuations `cs`, in order.
    pub fn chomp_puncts(&mut self, cs: &[char]) -> (r: Result<(), TokenIteratorError>)
        ensures
            puncts_ahead(old(self)@, cs@) ==> r is Ok && final(self)@ == old(self)@.skip(
                cs@.len() as int,
            ),
            !puncts_ahead(old(self)@, cs@) ==> r == Err::<(), _>(
                TokenIteratorError::UnexpectedToken,
            ) && final(self)@ == old(self)@.skip(puncts_matched(old(self)@, cs@) as int),
    {
        let mut i: usize = 0;
        while i < cs.len()
            invariant
                i <= cs@.len(),
                i <= old(self)@.len(),
                self@ == old(self)@.skip(i as int),
                forall|j: int| 0 <= j < i ==> #[trigger] punct_at(old(self)@, j, cs@[j]),
            decreases cs.len() - i,
        {
            let r = self.chomp_punct(cs[i]);
            if r.is_err() {
                assert(!punct_at(old(self)@, i as int, cs@[i as int]));
                proof {
                    lemma_puncts_matched(old(self)@, cs@, i as int);
                }
                return r;
            }
            assert(punct_at(old(self)@, i as int, cs@[i as int]));
            assert(old(self)@.skip(i as int).drop_first() =~= old(self)@.skip(i + 1));
            i = i + 1;
        }
        Ok(())
    }

    /// Returns whether the next token is a brace group.
    pub fn is_brace_group(&mut self) -> (r: bool)
        ensures
            final(self)@ == old(self)@,
            r == group_next(old(self)@, Delimiter::Brace),
    {
        self.is_group(Delimiter::Brace)
    }

    /// Returns whether the next token is a group delimited by `delimiter`.
    pub fn is_group(&mut self, delimiter: Delimiter) -> (r: bool)
        ensures
            final(self)@ == old(self)@,
            r == group_next(old(self)@, delimiter),
    {
        if let Some(Token::Group(d, _, _)) = self.peek() {
            return d == delimiter;
        }
        false
    }

    /// Reads a brace group, returning the tokens inside it.
    pub fn chomp_brace_group(&mut self) -> (r: Result<Vec<Token>, TokenIteratorError>)
        ensures
            group_next(old(self)@, Delimiter::Brace) ==> (r matches Ok(s)
                && old(self)@[0] matches TokenV::Group(_, inner, _) && tokens_v(s@) == inner
                && final(self)@ == old(self)@.drop_first()),
            old(self)@.len() == 0 ==> r == Err::<Vec<Token>, _>(
                TokenIteratorError::ChompOnEmptyNode,
            ),
            old(self)@.len() > 0 && !group_next(old(self)@, Delimiter::Brace) ==> r == Err::<
                Vec<Token>,
                _,
            >(TokenIteratorError::UnexpectedToken) && final(self)@ == old(self)@.drop_first(),
            old(self)@.len() == 0 ==> final(self)@ == old(self)@,
    {
        if self.is_empty() {
            return Err(TokenIteratorError::ChompOnEmptyNode);
        }
        match self.chomp()? {
            Token::Group(d, stream, _) => {
                if d == Delimiter::Brace {
                    Ok(stream)
                } else {
                    Err(TokenIteratorError::UnexpectedToken)
                }
            },
            _ => Err(TokenIteratorError::UnexpectedToken),
        }
    }

    /// Reads a group delimited by `delimiter`, returning the text it is read as.
    pub fn chomp_group(&mut self, delimiter: Delimiter) -> (r: Result<String, TokenIteratorError>)
        requires
            tokens_wf(old(self)@),
        ensures
            group_next(old(self)@, delimiter) ==> (r matches Ok(s)
                && old(self)@[0] matches TokenV::Group(_, _, text) && s@ == group_text(text)
                && final(self)@ == old(self)@.drop_first()),
            old(self)@.len() == 0 ==> r == Err::<String, _>(TokenIteratorError::ChompOnEmptyNode),
            old(self)@.len() > 0 && !group_next(old(self)@, delimiter) ==> r == Err::<String, _>(
                TokenIteratorError::UnexpectedToken,
            ) && final(self)@ == old(self)@.drop_first(),
            old(self)@.len() == 0 ==> final(self)@ == old(self)@,
    {
        proof {
            lemma_tokens_wf(self@);
        }
        if self.is_empty() {
            return Err(TokenIteratorError::ChompOnEmptyNode);
        }
        if let Token::Group(d, _, group_string) = self.chomp()? {
            if d == delimiter {
                assert(token_wf(old(self)@[0]));
                if starts_with_char(group_string.as_str(), '{') {
                    let n = group_string.as_str().unicode_len();
                    let inner = group_string.as_str().substring_char(1, n - 1);
                    return Ok(trim_text(inner));
                }
                return Ok(group_string);
            }
        }
        Err(TokenIteratorError::UnexpectedToken)
    }
}

/// Where the first punctuation that does not match comes, that many match.
proof fn lemma_puncts_matched(ts: Seq<TokenV>, cs: Seq<char>, i: int)
    requires
        0 <= i < cs.len(),
        i <= ts.len(),
        forall|j: int| 0 <= j < i ==> #[trigger] punct_at(ts, j, cs[j]),
        !punct_at(ts, i, cs[i]),
    ensures
        puncts_matched(ts, cs) == i,
    decreases i,
{
    if i > 0 {
        assert(punct_at(ts, 0, cs[0]));
        assert forall|j: int| 0 <= j < i - 1 implies #[trigger] punct_at(
            ts.drop_first(),
            j,
            cs.drop_first()[j],
        ) by {
            assert(punct_at(ts, j + 1, cs[j + 1]));
        }
        assert(!punct_at(ts.drop_first(), i - 1, cs.drop_first()[i - 1]));
        lemma_puncts_matched(ts.drop_first(), cs.drop_first(), i - 1);
    }
}

/// Flattens `stream` (see `flatten_non_braces`).
fn flatten(stream: Vec<Token>) -> (r: Vec<Token>)
    ensures
        tokens_v(r@) == flatten_v(tokens_v(stream@)),
        brace_only(tokens_v(r@)),
        tokens_wf(tokens_v(stream@)) ==> tokens_wf(tokens_v(r@)),
{
    flatten_non_braces(stream)
}

} // verus!
