//! A plain-value model of the token trees that a procedural macro receives.
//!
//! Every token keeps the text that it prints as: an identifier its name,
//! a punctuation its character, a literal its source representation
//! (a string literal keeps its quotes and escapes), and a group its delimiter,
//! the tokens inside it and the text that the whole group prints as.

use vstd::prelude::*;

verus! {

/// The delimiter of a token group.
#[derive(Clone, Copy, Debug, PartialEq, Eq, Structural)]
pub enum Delimiter {
    Parenthesis,
    Brace,
    Bracket,
    /// An invisible delimiter.
    Invisible,
}

/// Whether a punctuation character is joined to the next one (as in `::`).
#[derive(Clone, Copy, Debug, PartialEq, Eq, Structural)]
pub enum Spacing {
    Alone,
    Joint,
}

/// A token tree.
#[derive(Debug)]
pub enum Token {
    Ident(String),
    Punct(char, Spacing),
    Literal(String),
    /// The delimiter, the tokens inside, and the text the group prints as.
    Group(Delimiter, Vec<Token>, String),
}

/// The mathematical value of a token tree.
pub enum TokenV {
    Ident(Seq<char>),
    Punct(char, Spacing),
    Literal(Seq<char>),
    Group(Delimiter, Seq<TokenV>, Seq<char>),
}

impl Token {
    /// The value of this token tree.
    pub open spec fn tv(self) -> TokenV
        decreases self,
    {
        match self {
            Token::Ident(s) => TokenV::Ident(s@),
            Token::Punct(c, sp) => TokenV::Punct(c, sp),
            Token::Literal(s) => TokenV::Literal(s@),
            Token::Group(d, ts, text) => TokenV::Group(d, tokens_v(ts@), text@),
        }
    }
}

/// The values of a sequence of tokens.
pub open spec fn tokens_v(ts: Seq<Token>) -> Seq<TokenV>
    decreases ts,
{
    if ts.len() == 0 {
        Seq::empty()
    } else {
        tokens_v(ts.drop_last()).push(ts.last().tv())
    }
}

/// The values of a sequence grown by one token.
pub proof fn lemma_tokens_v_push(ts: Seq<Token>, t: Token)
    ensures
        tokens_v(ts.push(t)) == tokens_v(ts).push(t.tv()),
{
    assert(ts.push(t).drop_last() =~= ts);
}

/// The values of a sequence, element by element.
pub proof fn lemma_tokens_v(ts: Seq<Token>)
    ensures
        tokens_v(ts).len() == ts.len(),
        forall|i: int| 0 <= i < ts.len() ==> #[trigger] tokens_v(ts)[i] == ts[i].tv(),
    decreases ts.len(),
{
    if ts.len() > 0 {
        lemma_tokens_v(ts.drop_last());
    }
}

/// The number of token trees in `t`, counting nested ones.
pub open spec fn tsize(t: TokenV) -> nat
    decreases t,
{
    match t {
        TokenV::Group(_, inner, _) => 1 + tsize_seq(inner),
        _ => 1,
    }
}

/// The number of token trees in `s`, counting nested ones.
pub open spec fn tsize_seq(s: Seq<TokenV>) -> nat
    decreases s,
{
    if s.len() == 0 {
        0
    } else {
        tsize_seq(s.drop_last()) + tsize(s.last())
    }
}

/// Each tree of a sequence is no larger than the sequence.
pub proof fn lemma_tsize_seq(s: Seq<TokenV>, i: int)
    requires
        0 <= i < s.len(),
    ensures
        tsize(s[i]) <= tsize_seq(s),
    decreases s.len(),
{
    if i < s.len() - 1 {
        lemma_tsize_seq(s.drop_last(), i);
        assert(s.drop_last()[i] == s[i]);
    }
}

/// A string literal's representation is at least its two quotes.
pub open spec fn literal_ok(s: Seq<char>) -> bool {
    s.len() > 0 && s[0] == '"' ==> s.len() >= 2
}

/// The text of a group that starts with `{` ends with `}`.
pub open spec fn group_text_ok(s: Seq<char>) -> bool {
    s.len() > 0 && s[0] == '{' ==> s.len() >= 2 && s.last() == '}'
}

/// Every literal and group text in these token trees, at any depth, is well formed.
pub open spec fn tokens_wf(ts: Seq<TokenV>) -> bool
    decreases ts,
{
    if ts.len() == 0 {
        true
    } else {
        tokens_wf(ts.drop_last()) && match ts.last() {
            TokenV::Literal(s) => literal_ok(s),
            TokenV::Group(_, inner, text) => group_text_ok(text) && tokens_wf(inner),
            _ => true,
        }
    }
}

/// The well-formedness of a single token tree.
pub open spec fn token_wf(t: TokenV) -> bool {
    match t {
        TokenV::Literal(s) => literal_ok(s),
        TokenV::Group(_, inner, text) => group_text_ok(text) && tokens_wf(inner),
        _ => true,
    }
}

/// Well-formedness, element by element.
pub proof fn lemma_tokens_wf(ts: Seq<TokenV>)
    ensures
        tokens_wf(ts) <==> forall|i: int| 0 <= i < ts.len() ==> #[trigger] token_wf(ts[i]),
    decreases ts.len(),
{
    if ts.len() > 0 {
        lemma_tokens_wf(ts.drop_last());
        if tokens_wf(ts) {
            assert forall|i: int| 0 <= i < ts.len() implies #[trigger] token_wf(ts[i]) by {
                if i < ts.len() - 1 {
                    assert(ts.drop_last()[i] == ts[i]);
                }
            }
        }
        if forall|i: int| 0 <= i < ts.len() ==> #[trigger] token_wf(ts[i]) {
            assert forall|i: int| 0 <= i < ts.drop_last().len() implies #[trigger] token_wf(
                ts.drop_last()[i],
            ) by {
                assert(ts.drop_last()[i] == ts[i]);
                assert(token_wf(ts[i]));
            }
            assert(token_wf(ts[ts.len() - 1]));
        }
    }
}

/// Copies a token tree.
pub fn clone_token(t: &Token) -> (r: Token)
    ensures
        r.tv() == t.tv(),
    decreases t,
{
    match t {
        Token::Ident(s) => Token::Ident(s.clone()),
        Token::Punct(c, sp) => Token::Punct(*c, *sp),
        Token::Literal(s) => Token::Literal(s.clone()),
        Token::Group(d, ts, text) => Token::Group(*d, clone_tokens(ts), text.clone()),
    }
}

/// Copies a sequence of token trees.
pub fn clone_tokens(ts: &Vec<Token>) -> (r: Vec<Token>)
    ensures
        tokens_v(r@) == tokens_v(ts@),
    decreases ts,
{
    let mut r: Vec<Token> = Vec::new();
    let mut i: usize = 0;
    while i < ts.len()
        invariant
            i <= ts.len(),
            tokens_v(r@) == tokens_v(ts@.take(i as int)),
        decreases ts.len() - i,
    {
        let t = clone_token(&ts[i]);
        proof {
            lemma_tokens_v_push(r@, t);
            lemma_tokens_v_push(ts@.take(i as int), ts@[i as int]);
            assert(ts@.take(i + 1) =~= ts@.take(i as int).push(ts@[i as int]));
        }
        r.push(t);
        i = i + 1;
    }
    assert(ts@.take(ts.len() as int) == ts@);
    r
}

impl Clone for Token {
    fn clone(&self) -> (r: Self)
        ensures
            r.tv() == self.tv(),
    {
        clone_token(self)
    }
}

} // verus!

verus! {

/// A token tree that the library generates. A string literal is held by the
/// text it stands for; a group by its delimiter and the trees inside it.
#[derive(Debug)]
pub enum Emitted {
    Ident(String),
    Punct(char, Spacing),
    /// A literal, by its source representation.
    Literal(String),
    /// A string literal whose value is this text.
    Str(String),
    Group(Delimiter, Vec<Emitted>),
    /// Code given by its source text, spliced in as it lexes.
    Source(String),
}

/// The mathematical value of a generated token tree.
pub enum EmittedV {
    Ident(Seq<char>),
    Punct(char, Spacing),
    Literal(Seq<char>),
    Str(Seq<char>),
    Group(Delimiter, Seq<EmittedV>),
    Source(Seq<char>),
}

impl Emitted {
    /// The value of this generated tree.
    pub open spec fn ev(self) -> EmittedV
        decreases self,
    {
        match self {
            Emitted::Ident(s) => EmittedV::Ident(s@),
            Emitted::Punct(c, sp) => EmittedV::Punct(c, sp),
            Emitted::Literal(s) => EmittedV::Literal(s@),
            Emitted::Str(s) => EmittedV::Str(s@),
            Emitted::Group(d, ts) => EmittedV::Group(d, emitted_v(ts@)),
            Emitted::Source(s) => EmittedV::Source(s@),
        }
    }
}

/// The values of a sequence of generated trees.
pub open spec fn emitted_v(ts: Seq<Emitted>) -> Seq<EmittedV>
    decreases ts,
{
    if ts.len() == 0 {
        Seq::empty()
    } else {
        emitted_v(ts.drop_last()).push(ts.last().ev())
    }
}

/// The values of a sequence grown by one generated tree.
pub proof fn lemma_emitted_v_push(ts: Seq<Emitted>, t: Emitted)
    ensures
        emitted_v(ts.push(t)) == emitted_v(ts).push(t.ev()),
{
    assert(ts.push(t).drop_last() =~= ts);
}

/// An input token tree carried over into generated code: the same tree,
/// without the text its groups printed as.
pub open spec fn carried(t: TokenV) -> EmittedV
    decreases t,
{
    match t {
        TokenV::Ident(s) => EmittedV::Ident(s),
        TokenV::Punct(c, sp) => EmittedV::Punct(c, sp),
        TokenV::Literal(s) => EmittedV::Literal(s),
        TokenV::Group(d, inner, _) => EmittedV::Group(d, carried_seq(inner)),
    }
}

/// Input token trees carried over into generated code.
pub open spec fn carried_seq(ts: Seq<TokenV>) -> Seq<EmittedV>
    decreases ts,
{
    if ts.len() == 0 {
        Seq::empty()
    } else {
        carried_seq(ts.drop_last()).push(carried(ts.last()))
    }
}

/// Carries an input token tree over into generated code.
pub fn carry_token(t: &Token) -> (r: Emitted)
    ensures
        r.ev() == carried(t.tv()),
    decreases t,
{
    match t {
        Token::Ident(s) => Emitted::Ident(s.clone()),
        Token::Punct(c, sp) => Emitted::Punct(*c, *sp),
        Token::Literal(s) => Emitted::Literal(s.clone()),
        Token::Group(d, ts, _) => Emitted::Group(*d, carry_tokens(ts)),
    }
}

/// Carries input token trees over into generated code.
pub fn carry_tokens(ts: &Vec<Token>) -> (r: Vec<Emitted>)
    ensures
        emitted_v(r@) == carried_seq(tokens_v(ts@)),
    decreases ts,
{
    let mut r: Vec<Emitted> = Vec::new();
    let mut i: usize = 0;
    while i < ts.len()
        invariant
            i <= ts.len(),
            emitted_v(r@) == carried_seq(tokens_v(ts@.take(i as int))),
        decreases ts.len() - i,
    {
        let t = carry_token(&ts[i]);
        proof {
            lemma_emitted_v_push(r@, t);
            lemma_tokens_v_push(ts@.take(i as int), ts@[i as int]);
            assert(ts@.take(i + 1) =~= ts@.take(i as int).push(ts@[i as int]));
            assert(tokens_v(ts@.take(i + 1)).drop_last() =~= tokens_v(ts@.take(i as int)));
        }
        r.push(t);
        i = i + 1;
    }
    assert(ts@.take(ts.len() as int) == ts@);
    r
}

} // verus!

verus! {

/// The text that opens a group.
pub open spec fn open_text(d: Delimiter) -> Seq<char> {
    match d {
        Delimiter::Parenthesis => seq!['('],
        Delimiter::Brace => seq!['{'],
        Delimiter::Bracket => seq!['['],
        Delimiter::Invisible => Seq::empty(),
    }
}

/// The text that closes a group.
pub open spec fn close_text(d: Delimiter) -> Seq<char> {
    match d {
        Delimiter::Parenthesis => seq![')'],
        Delimiter::Brace => seq!['}'],
        Delimiter::Bracket => seq![']'],
        Delimiter::Invisible => Seq::empty(),
    }
}

/// Source text of a token tree that lexes back to it: an identifier, a
/// punctuation and a literal as they are, a group between its delimiters.
pub open spec fn token_source(t: TokenV) -> Seq<char>
    decreases t,
{
    match t {
        TokenV::Ident(s) => s,
        TokenV::Punct(c, _) => seq![c],
        TokenV::Literal(s) => s,
        TokenV::Group(d, inner, _) => open_text(d) + tokens_source(inner) + close_text(d),
    }
}

/// What separates a token from the one before it: nothing after a joint
/// punctuation, else a space.
pub open spec fn separator(prev: TokenV) -> Seq<char> {
    match prev {
        TokenV::Punct(_, Spacing::Joint) => Seq::empty(),
        _ => seq![' '],
    }
}

/// Source text of token trees, one after the other.
pub open spec fn tokens_source(ts: Seq<TokenV>) -> Seq<char>
    decreases ts,
{
    if ts.len() == 0 {
        Seq::empty()
    } else if ts.len() == 1 {
        token_source(ts[0])
    } else {
        tokens_source(ts.drop_last()) + separator(ts[ts.len() - 2]) + token_source(ts.last())
    }
}

/// Appends the source text of a token tree.
fn push_token_source(out: &mut String, t: &Token)
    ensures
        final(out)@ == old(out)@ + token_source(t.tv()),
    decreases t,
{
    match t {
        Token::Ident(s) => crate::text::push_text(out, s.as_str()),
        Token::Punct(c, _) => crate::text::push_char(out, *c),
        Token::Literal(s) => crate::text::push_text(out, s.as_str()),
        Token::Group(d, inner, _) => {
            match d {
                Delimiter::Parenthesis => crate::text::push_char(out, '('),
                Delimiter::Brace => crate::text::push_char(out, '{'),
                Delimiter::Bracket => crate::text::push_char(out, '['),
                Delimiter::Invisible => {},
            }
            push_tokens_source(out, inner);
            match d {
                Delimiter::Parenthesis => crate::text::push_char(out, ')'),
                Delimiter::Brace => crate::text::push_char(out, '}'),
                Delimiter::Bracket => crate::text::push_char(out, ']'),
                Delimiter::Invisible => {},
            }
            assert(out@ =~= old(out)@ + token_source(t.tv()));
        },
    }
}

/// Appends the source text of token trees.
fn push_tokens_source(out: &mut String, ts: &Vec<Token>)
    ensures
        final(out)@ == old(out)@ + tokens_source(tokens_v(ts@)),
    decreases ts,
{
    proof {
        lemma_tokens_v(ts@);
    }
    let ghost start = out@;
    let mut i: usize = 0;
    while i < ts.len()
        invariant
            i <= ts@.len(),
            tokens_v(ts@).len() == ts@.len(),
            forall|j: int| 0 <= j < ts@.len() ==> #[trigger] tokens_v(ts@)[j] == ts@[j].tv(),
            out@ == start + tokens_source(tokens_v(ts@).take(i as int)),
        decreases ts.len() - i,
    {
        let ghost before = out@;
        if i > 0 {
            if let Token::Punct(_, Spacing::Joint) = &ts[i - 1] {
            } else {
                crate::text::push_char(out, ' ');
            }
        }
        let ghost spaced = out@;
        push_token_source(out, &ts[i]);
        proof {
            let s = tokens_v(ts@).take(i + 1);
            assert(s.drop_last() =~= tokens_v(ts@).take(i as int));
            if i == 0 {
                assert(out@ =~= start + tokens_source(s));
            } else {
                assert(s[s.len() - 2] == ts@[i - 1].tv());
                assert(spaced == before + separator(s[s.len() - 2]));
                assert(out@ =~= start + tokens_source(s));
            }
        }
        i = i + 1;
    }
    assert(tokens_v(ts@).take(ts@.len() as int) =~= tokens_v(ts@));
}

/// Returns source text of token trees that lexes back to them.
pub fn source_text(ts: &Vec<Token>) -> (r: String)
    ensures
        r@ == tokens_source(tokens_v(ts@)),
{
    let mut out = String::new();
    push_tokens_source(&mut out, ts);
    out
}

} // verus!

verus! {

/// Carrying token trees into generated code keeps their order: carrying two
/// sequences one after the other gives their carried trees one after the other.
pub proof fn law_carried_concat(a: Seq<TokenV>, b: Seq<TokenV>)
    ensures
        carried_seq(a + b) == carried_seq(a) + carried_seq(b),
        carried_seq(a).len() == a.len(),
    decreases b.len(), a.len(),
{
    if b.len() == 0 {
        assert(a + b =~= a);
        assert(carried_seq(a) + carried_seq(b) =~= carried_seq(a));
        if a.len() > 0 {
            law_carried_concat(a.drop_last(), b);
        }
    } else {
        law_carried_concat(a, b.drop_last());
        assert((a + b).drop_last() =~= a + b.drop_last());
        assert(carried_seq(a) + carried_seq(b) =~= (carried_seq(a) + carried_seq(b.drop_last())).push(
            carried(b.last()),
        ));
    }
}

} // verus!

verus! {

/// Returns whether a token tree is well formed (see `tokens_wf`).
pub fn token_is_well_formed(t: &Token) -> (r: bool)
    ensures
        r == token_wf(t.tv()),
    decreases t,
{
    match t {
        Token::Literal(s) => {
            let n = s.as_str().unicode_len();
            !(crate::text::starts_with_char(s.as_str(), '"') && n < 2)
        },
        Token::Group(_, inner, text) => {
            let n = text.as_str().unicode_len();
            let text_ok = if crate::text::starts_with_char(text.as_str(), '{') {
                n >= 2 && text.as_str().get_char(n - 1) == '}'
            } else {
                true
            };
            text_ok && tokens_are_well_formed(inner)
        },
        _ => true,
    }
}

/// Returns whether token trees are well formed: whether every literal and
/// group text in them, at any depth, is (see `tokens_wf`).
pub fn tokens_are_well_formed(ts: &Vec<Token>) -> (r: bool)
    ensures
        r == tokens_wf(tokens_v(ts@)),
    decreases ts,
{
    proof {
        lemma_tokens_v(ts@);
        lemma_tokens_wf(tokens_v(ts@));
    }
    let mut i: usize = 0;
    while i < ts.len()
        invariant
            i <= ts@.len(),
            tokens_v(ts@).len() == ts@.len(),
            forall|j: int| 0 <= j < ts@.len() ==> #[trigger] tokens_v(ts@)[j] == ts@[j].tv(),
            forall|j: int| 0 <= j < i ==> token_wf(#[trigger] tokens_v(ts@)[j]),
            tokens_wf(tokens_v(ts@)) <==> forall|j: int|
                0 <= j < ts@.len() ==> #[trigger] token_wf(tokens_v(ts@)[j]),
        decreases ts.len() - i,
    {
        if !token_is_well_formed(&ts[i]) {
            assert(!token_wf(tokens_v(ts@)[i as int]));
            return false;
        }
        i = i + 1;
    }
    true
}

} // verus!
