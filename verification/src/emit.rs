//! Building generated code: the token trees that macro expansions consist of.

use crate::token::{carried_seq, carry_tokens, emitted_v, lemma_emitted_v_push, tokens_v, Delimiter, Emitted, EmittedV, Spacing, Token};
use vstd::prelude::*;

verus! {

/// An identifier.
pub open spec fn ident_e(s: Seq<char>) -> EmittedV {
    EmittedV::Ident(s)
}

/// A punctuation that stands alone.
pub open spec fn punct_e(c: char) -> EmittedV {
    EmittedV::Punct(c, Spacing::Alone)
}

/// A `::` path separator.
pub open spec fn colon2() -> Seq<EmittedV> {
    seq![EmittedV::Punct(':', Spacing::Joint), EmittedV::Punct(':', Spacing::Alone)]
}

/// A path in which every segment is preceded by `::`.
pub open spec fn path_v(segs: Seq<Seq<char>>) -> Seq<EmittedV>
    decreases segs.len(),
{
    if segs.len() == 0 {
        Seq::empty()
    } else {
        path_v(segs.drop_last()) + colon2() + seq![ident_e(segs.last())]
    }
}

/// The views of string slices.
pub open spec fn strs_v(segs: Seq<&str>) -> Seq<Seq<char>> {
    segs.map_values(|s: &str| s@)
}

/// A group of trees.
pub open spec fn group_e(d: Delimiter, inner: Seq<EmittedV>) -> EmittedV {
    EmittedV::Group(d, inner)
}

/// `vec![inner]`.
pub open spec fn vec_macro(inner: Seq<EmittedV>) -> Seq<EmittedV> {
    seq![ident_e("vec"@), punct_e('!'), group_e(Delimiter::Bracket, inner)]
}

/// Generated trees of the items, separated by commas.
pub open spec fn comma_joined(items: Seq<Seq<EmittedV>>) -> Seq<EmittedV>
    decreases items.len(),
{
    if items.len() == 0 {
        Seq::empty()
    } else if items.len() == 1 {
        items[0]
    } else {
        comma_joined(items.drop_last()) + seq![punct_e(',')] + items.last()
    }
}

/// Appends an identifier.
pub fn push_ident(out: &mut Vec<Emitted>, s: &str)
    ensures
        emitted_v(final(out)@) == emitted_v(old(out)@).push(ident_e(s@)),
{
    let t = Emitted::Ident(String::from_str(s));
    proof {
        lemma_emitted_v_push(out@, t);
    }
    out.push(t);
}

/// Appends a punctuation that stands alone.
pub fn push_punct(out: &mut Vec<Emitted>, c: char)
    ensures
        emitted_v(final(out)@) == emitted_v(old(out)@).push(punct_e(c)),
{
    let t = Emitted::Punct(c, Spacing::Alone);
    proof {
        lemma_emitted_v_push(out@, t);
    }
    out.push(t);
}

/// Appends a punctuation joined to the next one.
pub fn push_joint(out: &mut Vec<Emitted>, c: char)
    ensures
        emitted_v(final(out)@) == emitted_v(old(out)@).push(EmittedV::Punct(c, Spacing::Joint)),
{
    let t = Emitted::Punct(c, Spacing::Joint);
    proof {
        lemma_emitted_v_push(out@, t);
    }
    out.push(t);
}

/// Appends a string literal whose value is `s`.
pub fn push_str(out: &mut Vec<Emitted>, s: &str)
    ensures
        emitted_v(final(out)@) == emitted_v(old(out)@).push(EmittedV::Str(s@)),
{
    let t = Emitted::Str(String::from_str(s));
    proof {
        lemma_emitted_v_push(out@, t);
    }
    out.push(t);
}

/// Appends a group.
pub fn push_group(out: &mut Vec<Emitted>, d: Delimiter, inner: Vec<Emitted>)
    ensures
        emitted_v(final(out)@) == emitted_v(old(out)@).push(group_e(d, emitted_v(inner@))),
{
    let t = Emitted::Group(d, inner);
    proof {
        lemma_emitted_v_push(out@, t);
    }
    out.push(t);
}

/// Appends `::`.
pub fn push_colon2(out: &mut Vec<Emitted>)
    ensures
        emitted_v(final(out)@) == emitted_v(old(out)@) + colon2(),
{
    push_joint(out, ':');
    push_punct(out, ':');
    assert(emitted_v(out@) =~= emitted_v(old(out)@) + colon2());
}

/// Appends a path whose segments are `segs`, each preceded by `::`.
pub fn push_path(out: &mut Vec<Emitted>, segs: &[&str])
    ensures
        emitted_v(final(out)@) == emitted_v(old(out)@) + path_v(strs_v(segs@)),
{
    let ghost start = emitted_v(out@);
    let mut i: usize = 0;
    while i < segs.len()
        invariant
            i <= segs@.len(),
            emitted_v(out@) == start + path_v(strs_v(segs@.take(i as int))),
        decreases segs.len() - i,
    {
        push_colon2(out);
        push_ident(out, segs[i]);
        proof {
            let s = strs_v(segs@.take(i + 1));
            assert(s.drop_last() =~= strs_v(segs@.take(i as int)));
            assert(s.last() == segs@[i as int]@);
            assert(emitted_v(out@) =~= start + path_v(s));
        }
        i = i + 1;
    }
    assert(segs@.take(segs@.len() as int) =~= segs@);
}

/// Appends input token trees as they are.
pub fn push_carried(out: &mut Vec<Emitted>, ts: &Vec<Token>)
    ensures
        emitted_v(final(out)@) == emitted_v(old(out)@) + carried_seq(tokens_v(ts@)),
{
    let carried = carry_tokens(ts);
    push_all(out, carried);
}

/// The values of two sequences of generated trees, one after the other.
pub proof fn lemma_emitted_v_add(a: Seq<Emitted>, b: Seq<Emitted>)
    ensures
        emitted_v(a + b) == emitted_v(a) + emitted_v(b),
    decreases b.len(),
{
    if b.len() == 0 {
        assert(a + b =~= a);
        assert(emitted_v(a) + emitted_v(b) =~= emitted_v(a));
    } else {
        lemma_emitted_v_add(a, b.drop_last());
        assert((a + b).drop_last() =~= a + b.drop_last());
        assert(emitted_v(a) + emitted_v(b) =~= (emitted_v(a) + emitted_v(b.drop_last())).push(
            b.last().ev(),
        ));
    }
}

/// Appends the trees `ts`.
pub fn push_all(out: &mut Vec<Emitted>, ts: Vec<Emitted>)
    ensures
        emitted_v(final(out)@) == emitted_v(old(out)@) + emitted_v(ts@),
{
    let mut ts = ts;
    proof {
        lemma_emitted_v_add(out@, ts@);
    }
    out.append(&mut ts);
}

} // verus!

verus! {

/// Appends code given by its source text.
pub fn push_source(out: &mut Vec<Emitted>, s: &str)
    ensures
        emitted_v(final(out)@) == emitted_v(old(out)@).push(EmittedV::Source(s@)),
{
    let t = Emitted::Source(String::from_str(s));
    proof {
        lemma_emitted_v_push(out@, t);
    }
    out.push(t);
}

/// Appends a literal given by its source representation.
pub fn push_literal(out: &mut Vec<Emitted>, repr: &str)
    ensures
        emitted_v(final(out)@) == emitted_v(old(out)@).push(EmittedV::Literal(repr@)),
{
    let t = Emitted::Literal(String::from_str(repr));
    proof {
        lemma_emitted_v_push(out@, t);
    }
    out.push(t);
}

} // verus!
