//! Building source text: literal pieces, and lines made from lists.
use crate::codegen::key_index;
use crate::syntx::{pairs_view, texts_view, Syntx};
use vstd::prelude::*;

verus! {

/// Relies on String::push_str: appends the characters of `t`.
#[verifier::external_body]
pub(crate) fn push_str(s: &mut String, t: &str)
    ensures
        final(s)@ == old(s)@ + t@,
{
    s.push_str(t)
}

/// `pre + item + post` for each item, in order.
pub open spec fn lines_of(items: Seq<Seq<char>>, pre: Seq<char>, post: Seq<char>) -> Seq<char>
    decreases items.len(),
{
    if items.len() == 0 {
        seq![]
    } else {
        lines_of(items.drop_last(), pre, post) + pre + items.last() + post
    }
}

/// The first item with `first` before it, the others with `pre`.
pub open spec fn sep_lines(items: Seq<Seq<char>>, first: Seq<char>, pre: Seq<char>, post: Seq<char>) -> Seq<char> {
    if items.len() == 0 {
        seq![]
    } else {
        first + items[0] + post + lines_of(items.drop_first(), pre, post)
    }
}

/// `a + key + b + value + c` for each pair, in order.
pub open spec fn pair_lines(
    items: Seq<(Seq<char>, Seq<char>)>,
    a: Seq<char>,
    b: Seq<char>,
    c: Seq<char>,
) -> Seq<char>
    decreases items.len(),
{
    if items.len() == 0 {
        seq![]
    } else {
        pair_lines(items.drop_last(), a, b, c) + a + items.last().0 + b + items.last().1 + c
    }
}

/// The keys of a map.
pub open spec fn keys_of(items: Seq<(Seq<char>, Seq<char>)>) -> Seq<Seq<char>> {
    items.map_values(|p: (Seq<char>, Seq<char>)| p.0)
}

/// The literal of each named token, with its name; `None` when a name has no
/// entry in `tokens`.
pub open spec fn literal_pairs(
    tokens: Seq<(Seq<char>, Seq<char>)>,
    names: Seq<Seq<char>>,
) -> Option<Seq<(Seq<char>, Seq<char>)>>
    decreases names.len(),
{
    if names.len() == 0 {
        Some(seq![])
    } else {
        match literal_pairs(tokens, names.drop_last()) {
            Some(ps) => {
                let i = key_index(tokens, names.last(), 0);
                if i >= 0 {
                    Some(ps.push((tokens[i].1, names.last())))
                } else {
                    None
                }
            },
            None => None,
        }
    }
}

pub fn push_lines(s: &mut String, items: &Vec<String>, pre: &str, post: &str)
    ensures
        final(s)@ == old(s)@ + lines_of(texts_view(items@), pre@, post@),
{
    let ghost v = texts_view(items@);
    let mut i: usize = 0;
    while i < items.len()
        invariant
            i <= items@.len(),
            v == texts_view(items@),
            s@ == old(s)@ + lines_of(v.subrange(0, i as int), pre@, post@),
        decreases items@.len() - i,
    {
        assert(v.subrange(0, i + 1).drop_last() =~= v.subrange(0, i as int));
        let ghost before = s@;
        push_str(s, pre);
        push_str(s, items[i].as_str());
        push_str(s, post);
        assert(s@ =~= old(s)@ + lines_of(v.subrange(0, i + 1), pre@, post@));
        i = i + 1;
    }
    assert(v.subrange(0, items@.len() as int) =~= v);
}

pub fn push_sep_lines(s: &mut String, items: &Vec<String>, first: &str, pre: &str, post: &str)
    ensures
        final(s)@ == old(s)@ + sep_lines(texts_view(items@), first@, pre@, post@),
{
    let ghost v = texts_view(items@);
    if items.len() == 0 {
        assert(old(s)@ + sep_lines(v, first@, pre@, post@) =~= old(s)@);
        return;
    }
    push_str(s, first);
    push_str(s, items[0].as_str());
    push_str(s, post);
    let mut i: usize = 1;
    assert(v.drop_first().subrange(0, 0) =~= Seq::<Seq<char>>::empty());
    while i < items.len()
        invariant
            1 <= i <= items@.len(),
            v == texts_view(items@),
            s@ == old(s)@ + first@ + v[0] + post@ + lines_of(
                v.drop_first().subrange(0, i - 1),
                pre@,
                post@,
            ),
        decreases items@.len() - i,
    {
        assert(v.drop_first().subrange(0, i as int).drop_last() =~= v.drop_first().subrange(
            0,
            i - 1,
        ));
        push_str(s, pre);
        push_str(s, items[i].as_str());
        push_str(s, post);
        assert(s@ =~= old(s)@ + first@ + v[0] + post@ + lines_of(
            v.drop_first().subrange(0, i as int),
            pre@,
            post@,
        ));
        i = i + 1;
    }
    assert(v.drop_first().subrange(0, items@.len() - 1) =~= v.drop_first());
    assert(s@ =~= old(s)@ + sep_lines(v, first@, pre@, post@));
}

pub fn push_pair_lines(s: &mut String, items: &Vec<(String, String)>, a: &str, b: &str, c: &str)
    ensures
        final(s)@ == old(s)@ + pair_lines(pairs_view(items@), a@, b@, c@),
{
    let ghost v = pairs_view(items@);
    let mut i: usize = 0;
    while i < items.len()
        invariant
            i <= items@.len(),
            v == pairs_view(items@),
            s@ == old(s)@ + pair_lines(v.subrange(0, i as int), a@, b@, c@),
        decreases items@.len() - i,
    {
        assert(v.subrange(0, i + 1).drop_last() =~= v.subrange(0, i as int));
        push_str(s, a);
        push_str(s, items[i].0.as_str());
        push_str(s, b);
        push_str(s, items[i].1.as_str());
        push_str(s, c);
        assert(s@ =~= old(s)@ + pair_lines(v.subrange(0, i + 1), a@, b@, c@));
        i = i + 1;
    }
    assert(v.subrange(0, items@.len() as int) =~= v);
}

pub fn push_key_lines(s: &mut String, items: &Vec<(String, String)>, pre: &str, post: &str)
    ensures
        final(s)@ == old(s)@ + lines_of(keys_of(pairs_view(items@)), pre@, post@),
{
    let ghost v = keys_of(pairs_view(items@));
    let mut i: usize = 0;
    while i < items.len()
        invariant
            i <= items@.len(),
            v == keys_of(pairs_view(items@)),
            s@ == old(s)@ + lines_of(v.subrange(0, i as int), pre@, post@),
        decreases items@.len() - i,
    {
        assert(v.subrange(0, i + 1).drop_last() =~= v.subrange(0, i as int));
        push_str(s, pre);
        push_str(s, items[i].0.as_str());
        push_str(s, post);
        assert(s@ =~= old(s)@ + lines_of(v.subrange(0, i + 1), pre@, post@));
        i = i + 1;
    }
    assert(v.subrange(0, items@.len() as int) =~= v);
}

} // verus!

verus! {

/// `a + value + b + key + c` for each pair, in order.
pub open spec fn pair_lines_rev(
    items: Seq<(Seq<char>, Seq<char>)>,
    a: Seq<char>,
    b: Seq<char>,
    c: Seq<char>,
) -> Seq<char>
    decreases items.len(),
{
    if items.len() == 0 {
        seq![]
    } else {
        pair_lines_rev(items.drop_last(), a, b, c) + a + items.last().1 + b + items.last().0 + c
    }
}

pub fn push_pair_lines_rev(s: &mut String, items: &Vec<(String, String)>, a: &str, b: &str, c: &str)
    ensures
        final(s)@ == old(s)@ + pair_lines_rev(pairs_view(items@), a@, b@, c@),
{
    let ghost v = pairs_view(items@);
    let mut i: usize = 0;
    while i < items.len()
        invariant
            i <= items@.len(),
            v == pairs_view(items@),
            s@ == old(s)@ + pair_lines_rev(v.subrange(0, i as int), a@, b@, c@),
        decreases items@.len() - i,
    {
        assert(v.subrange(0, i + 1).drop_last() =~= v.subrange(0, i as int));
        push_str(s, a);
        push_str(s, items[i].1.as_str());
        push_str(s, b);
        push_str(s, items[i].0.as_str());
        push_str(s, c);
        assert(s@ =~= old(s)@ + pair_lines_rev(v.subrange(0, i + 1), a@, b@, c@));
        i = i + 1;
    }
    assert(v.subrange(0, items@.len() as int) =~= v);
}

/// The literal of each named token, with its name; `None` when a name has no
/// entry in the `[tokens]` section.
pub fn literal_pairs_of(stx: &Syntx, names: &Vec<String>) -> (r: Option<Vec<(String, String)>>)
    ensures
        r is Some <==> literal_pairs(pairs_view(stx.tokens@), texts_view(names@)) is Some,
        r matches Some(v) ==> pairs_view(v@) == literal_pairs(
            pairs_view(stx.tokens@),
            texts_view(names@),
        )->0,
{
    let ghost tk = pairs_view(stx.tokens@);
    let ghost nv = texts_view(names@);
    let mut out: Vec<(String, String)> = Vec::new();
    let mut i: usize = 0;
    assert(nv.subrange(0, 0) =~= Seq::<Seq<char>>::empty());
    assert(pairs_view(out@) =~= Seq::<(Seq<char>, Seq<char>)>::empty());
    while i < names.len()
        invariant
            i <= names@.len(),
            tk == pairs_view(stx.tokens@),
            nv == texts_view(names@),
            literal_pairs(tk, nv.subrange(0, i as int)) == Some(pairs_view(out@)),
        decreases names@.len() - i,
    {
        assert(nv.subrange(0, i + 1).drop_last() =~= nv.subrange(0, i as int));
        assert(nv.subrange(0, i + 1).last() == names@[i as int]@);
        match stx.token_literal(&names[i]) {
            Some(lit) => {
                let ghost before = out@;
                out.push((lit, names[i].clone()));
                assert(pairs_view(out@) =~= pairs_view(before).push((lit@, names@[i as int]@)));
            },
            None => {
                proof {
                    lemma_literal_pairs_none(tk, nv, i + 1);
                }
                return None;
            },
        }
        i = i + 1;
    }
    assert(nv.subrange(0, names@.len() as int) =~= nv);
    Some(out)
}

/// A name without a literal stays without one in every longer list.
proof fn lemma_literal_pairs_none(tk: Seq<(Seq<char>, Seq<char>)>, nv: Seq<Seq<char>>, k: int)
    requires
        0 <= k <= nv.len(),
        literal_pairs(tk, nv.subrange(0, k)) is None,
    ensures
        literal_pairs(tk, nv) is None,
    decreases nv.len() - k,
{
    if k < nv.len() {
        assert(nv.subrange(0, k + 1).drop_last() =~= nv.subrange(0, k));
        lemma_literal_pairs_none(tk, nv, k + 1);
    } else {
        assert(nv.subrange(0, k) =~= nv);
    }
}

/// The first components of a list of pairs.
pub fn firsts(v: &Vec<(String, String)>) -> (r: Vec<String>)
    ensures
        texts_view(r@) == keys_of(pairs_view(v@)),
{
    let mut r: Vec<String> = Vec::new();
    let mut i: usize = 0;
    while i < v.len()
        invariant
            i <= v@.len(),
            texts_view(r@) == keys_of(pairs_view(v@)).subrange(0, i as int),
        decreases v@.len() - i,
    {
        let ghost before = r@;
        let t = v[i].0.clone();
        assert(t@ == keys_of(pairs_view(v@))[i as int]);
        r.push(t);
        assert(texts_view(r@) =~= texts_view(before).push(t@));
        assert(keys_of(pairs_view(v@)).subrange(0, i + 1) =~= keys_of(pairs_view(v@)).subrange(
            0,
            i as int,
        ).push(t@));
        i = i + 1;
    }
    assert(keys_of(pairs_view(v@)).subrange(0, v@.len() as int) =~= keys_of(pairs_view(v@)));
    r
}

} // verus!
