//! Properties of the lexer stated over its specification functions and proved.
use crate::java_delimiters::java_escape;
use crate::java_inference::{java_infer, java_infer_at};
use crate::java_tokenset::{kind_of, IdentView, JavaDelimeters, JavaTokenSet, TokenView};
use crate::lexer::{
    advance, block_comment_at, brace_after, end_cursor, level_after, lemma_next_advances, lex_from,
    line_comment_at, next, token_seq, Cursor, Lexer, Outcome,
};
use crate::normalize::{identity, identity_input, le_bytes};
use crate::scan::{
    ascii, ascii_bytes, block_end, char_body, close_brace, decode_code, delim_char, element, ident_end,
    lemma_munch_bounds, lemma_run_bounds, munch_end, number_end, occurs_at, string_body,
};
use crate::text::{alphabetic, numeric, radix16_u32, scalar_value, white_space};
use crate::tokens::{Delimeted, Lexable, TokenKind};
use vstd::prelude::*;

verus! {

/// The braces and parentheses that the lexer dispatches as such from cursor
/// `g` to the end of the text: those outside literals and comments.
pub open spec fn structure_from<T: Delimeted + Lexable>(cs: Seq<char>, g: Cursor) -> Seq<char>
    decreases cs.len() - g.pos,
    via structure_from_decreases::<T>
{
    if g.pos < 0 || g.pos >= cs.len() {
        seq![]
    } else {
        let o = next::<T>(cs, g);
        let c = cs[g.pos];
        let here = if !line_comment_at::<T>(cs, g.pos) && !block_comment_at::<T>(cs, g.pos) && (c
            == '{' || c == '}' || c == '(' || c == ')') {
            seq![c]
        } else {
            Seq::<char>::empty()
        };
        here + structure_from::<T>(cs, advance(g, o))
    }
}

#[via_fn]
proof fn structure_from_decreases<T: Delimeted + Lexable>(cs: Seq<char>, g: Cursor) {
    if 0 <= g.pos < cs.len() {
        lemma_next_advances::<T>(cs, g);
    }
}

/// The `open`/`close` nesting depth after a sequence of characters from `b`.
pub open spec fn depth_after(b: usize, s: Seq<char>, open: char, close: char) -> usize
    decreases s.len(),
{
    if s.len() == 0 {
        b
    } else {
        depth_after(level_after(b, s[0], open, close), s.drop_first(), open, close)
    }
}

/// The change of depth that one character makes.
pub open spec fn delta(c: char, open: char, close: char) -> int {
    if c == open {
        1
    } else if c == close {
        -1
    } else {
        0
    }
}

/// The number of `open` minus the number of `close`.
pub open spec fn net(s: Seq<char>, open: char, close: char) -> int
    decreases s.len(),
{
    if s.len() == 0 {
        0
    } else {
        delta(s[0], open, close) + net(s.drop_first(), open, close)
    }
}

/// No prefix closes more than it opens, and the whole closes all it opens.
pub open spec fn balanced(s: Seq<char>, open: char, close: char) -> bool {
    &&& forall|k: int| 0 <= k <= s.len() ==> net(#[trigger] s.subrange(0, k), open, close) >= 0
    &&& net(s, open, close) == 0
}

proof fn lemma_end_depth<T: Delimeted + Lexable>(cs: Seq<char>, g: Cursor)
    ensures
        end_cursor::<T>(cs, g).brace == depth_after(g.brace, structure_from::<T>(cs, g), '{', '}'),
        end_cursor::<T>(cs, g).paren == depth_after(g.paren, structure_from::<T>(cs, g), '(', ')'),
    decreases cs.len() - g.pos,
{
    if 0 <= g.pos < cs.len() {
        lemma_next_advances::<T>(cs, g);
        let o = next::<T>(cs, g);
        lemma_end_depth::<T>(cs, advance(g, o));
        let rest = structure_from::<T>(cs, advance(g, o));
        let c = cs[g.pos];
        if !line_comment_at::<T>(cs, g.pos) && !block_comment_at::<T>(cs, g.pos) && (c == '{' || c
            == '}' || c == '(' || c == ')') {
            assert((seq![c] + rest).drop_first() =~= rest);
            assert((seq![c] + rest)[0] == c);
        } else {
            assert(Seq::<char>::empty() + rest =~= rest);
        }
    }
}

proof fn lemma_depth_net(b: usize, s: Seq<char>, open: char, close: char)
    requires
        b as int + s.len() <= usize::MAX,
        forall|k: int| 0 <= k <= s.len() ==> b + net(#[trigger] s.subrange(0, k), open, close) >= 0,
        open != close,
    ensures
        depth_after(b, s, open, close) == b + net(s, open, close),
    decreases s.len(),
{
    if s.len() > 0 {
        let b2 = level_after(b, s[0], open, close);
        let r = s.drop_first();
        assert(s.subrange(0, 1).drop_first() =~= Seq::<char>::empty());
        assert(b + net(s.subrange(0, 1), open, close) >= 0);
        assert(s.subrange(0, 1)[0] == s[0]);
        assert(net(Seq::<char>::empty(), open, close) == 0);
        assert(net(s.subrange(0, 1), open, close) == delta(s[0], open, close));
        assert(b2 == b + delta(s[0], open, close));
        assert forall|k: int| 0 <= k <= r.len() implies b2 + net(
            #[trigger] r.subrange(0, k),
            open,
            close,
        ) >= 0 by {
            assert(s.subrange(0, k + 1).drop_first() =~= r.subrange(0, k));
            assert(b + net(s.subrange(0, k + 1), open, close) >= 0);
        }
        lemma_depth_net(b2, r, open, close);
    }
}

proof fn lemma_structure_len<T: Delimeted + Lexable>(cs: Seq<char>, g: Cursor)
    requires
        0 <= g.pos,
    ensures
        structure_from::<T>(cs, g).len() <= cs.len(),
        g.pos <= cs.len() ==> structure_from::<T>(cs, g).len() <= cs.len() - g.pos,
    decreases cs.len() - g.pos,
{
    if 0 <= g.pos < cs.len() {
        lemma_next_advances::<T>(cs, g);
        let o = next::<T>(cs, g);
        lemma_structure_len::<T>(cs, advance(g, o));
        let c = cs[g.pos];
        let rest = structure_from::<T>(cs, advance(g, o));
        if !line_comment_at::<T>(cs, g.pos) && !block_comment_at::<T>(cs, g.pos) && (c == '{' || c
            == '}' || c == '(' || c == ')') {
            assert((seq![c] + rest).len() == rest.len() + 1);
        } else {
            assert((Seq::<char>::empty() + rest).len() == rest.len());
        }
    }
}

/// Balance: when the braces that the lexer reads outside literals and
/// comments are balanced, a lex from depth zero ends at brace level zero, and
/// likewise for parentheses.
pub proof fn law_balance<T: Delimeted + Lexable>(cs: Seq<char>, g: Cursor)
    requires
        g.brace == 0,
        g.paren == 0,
        0 <= g.pos,
        cs.len() <= usize::MAX,
    ensures
        balanced(structure_from::<T>(cs, g), '{', '}') ==> end_cursor::<T>(cs, g).brace == 0,
        balanced(structure_from::<T>(cs, g), '(', ')') ==> end_cursor::<T>(cs, g).paren == 0,
{
    lemma_end_depth::<T>(cs, g);
    lemma_structure_len::<T>(cs, g);
    let s = structure_from::<T>(cs, g);
    if balanced(s, '{', '}') {
        lemma_depth_net(0, s, '{', '}');
    }
    if balanced(s, '(', ')') {
        lemma_depth_net(0, s, '(', ')');
    }
}

/// Java inference yields a white-space token only for a lone space or newline
/// outside literals.
proof fn lemma_java_not_white(s: Seq<char>, b: usize, in_str: bool, in_char: bool)
    requires
        in_str || in_char || s.len() != 1 || !(s[0] == ' ' || s[0] == '\n' || s[0] == '\t'),
    ensures
        java_infer_at(s, b, in_str, in_char) matches Some(t) ==> kind_of(t) != TokenKind::Whitespace
            && t != TokenView::Delimeter(JavaDelimeters::Tab),
{
}

/// No step of a Java lex emits a white-space token.
proof fn lemma_java_step_not_white(cs: Seq<char>, g: Cursor)
    requires
        0 <= g.pos < cs.len(),
    ensures
        next::<JavaTokenSet>(cs, g).token matches Some(t) ==> kind_of(t) != TokenKind::Whitespace
            && t != TokenView::Delimeter(JavaDelimeters::Tab),
{
    let p = g.pos;
    let c = cs[p];
    assert(delim_char::<JavaTokenSet>(' '));
    assert(delim_char::<JavaTokenSet>('\n'));
    assert(delim_char::<JavaTokenSet>('\t'));
    lemma_run_bounds::<JavaTokenSet>(cs, p);
    lemma_run_bounds::<JavaTokenSet>(cs, p + 1);
    lemma_munch_bounds::<JavaTokenSet>(cs, p, p + 1);
    if line_comment_at::<JavaTokenSet>(cs, p) || block_comment_at::<JavaTokenSet>(cs, p) || c
        == '\n' {
    } else if c == '"' {
        lemma_java_not_white(string_body::<JavaTokenSet>(cs, p + 1).0, g.brace, true, false);
    } else if c == '\'' {
        lemma_java_not_white(char_body::<JavaTokenSet>(cs, p + 1).0, g.brace, false, true);
    } else if c == '{' || c == '}' || c == '(' || c == ')' {
        lemma_java_not_white(seq![c], brace_after(g.brace, c), false, false);
    } else if ascii(c) && JavaTokenSet::spec_operator(seq![c as u8]) {
        let end = munch_end::<JavaTokenSet>(cs, p, p + 1);
        assert(c != ' ' && c != '\n' && c != '\t');
        lemma_java_not_white(cs.subrange(p, end), g.brace, false, false);
    } else if delim_char::<JavaTokenSet>(c) {
        if !white_space(c) {
            lemma_java_not_white(seq![c], g.brace, false, false);
        }
    } else if g.pending_import && alphabetic(c) {
    } else if alphabetic(c) {
        let end = ident_end::<JavaTokenSet>(cs, p);
        lemma_java_not_white(cs.subrange(p, end), g.brace, false, false);
    } else if numeric(c) {
        let end = number_end::<JavaTokenSet>(cs, p + 1);
        lemma_java_not_white(cs.subrange(p, end), g.brace, false, false);
    }
}

/// Whitespace elision: no token of a Java lex, from any cursor, is of kind
/// white space or a tab; spaces, tabs and newlines outside literals yield no
/// token.
pub proof fn law_whitespace_elided(cs: Seq<char>, g: Cursor)
    ensures
        forall|i: int|
            0 <= i < lex_from::<JavaTokenSet>(cs, g).len() ==> kind_of(
                #[trigger] lex_from::<JavaTokenSet>(cs, g)[i],
            ) != TokenKind::Whitespace && lex_from::<JavaTokenSet>(cs, g)[i] != TokenView::Delimeter(
                JavaDelimeters::Tab,
            ),
    decreases cs.len() - g.pos,
{
    if 0 <= g.pos < cs.len() {
        lemma_next_advances::<JavaTokenSet>(cs, g);
        let o = next::<JavaTokenSet>(cs, g);
        law_whitespace_elided(cs, advance(g, o));
        lemma_java_step_not_white(cs, g);
        let rest = lex_from::<JavaTokenSet>(cs, advance(g, o));
        let all = lex_from::<JavaTokenSet>(cs, g);
        assert(all == token_seq(o.token) + rest);
        assert forall|i: int| 0 <= i < all.len() implies kind_of(#[trigger] all[i])
            != TokenKind::Whitespace && all[i] != TokenView::Delimeter(JavaDelimeters::Tab) by {
            if i >= token_seq(o.token).len() {
                assert(all[i] == rest[i - token_seq(o.token).len()]);
            }
        }
    }
}

/// Source order: the emitted tokens begin at strictly increasing positions,
/// all of them already consumed.
pub proof fn law_source_order<T: Delimeted + Lexable>(lx: Lexer<T>)
    requires
        lx.wf_stream(),
    ensures
        forall|i: int, j: int| 0 <= i < j < lx.origins@.len() ==> lx.origins@[i] < lx.origins@[j],
        forall|i: int| 0 <= i < lx.origins@.len() ==> #[trigger] lx.origins@[i] < lx.pos,
{
}

/// Round trip on escapes: for an escape letter `e` that the table maps to `d`,
/// lexing the source `"\e"` yields exactly one string literal, whose decoded
/// text is `d`.
pub proof fn law_escape_round_trip(e: char, d: char)
    requires
        java_escape(e) == Some(d),
    ensures
        string_body::<JavaTokenSet>(seq!['"', '\\', e, '"'], 1) == (seq![d], 3int),
        lex_from::<JavaTokenSet>(
            seq!['"', '\\', e, '"'],
            (Cursor { pos: 0, brace: 0, paren: 0, pending_import: false }),
        ) == seq![TokenView::Identifier(IdentView::StringLiteral(seq![d]))],
{
    let cs = seq!['"', '\\', e, '"'];
    let g = Cursor { pos: 0, brace: 0, paren: 0, pending_import: false };
    assert(string_body::<JavaTokenSet>(cs, 3) == (Seq::<char>::empty(), 3int));
    assert(seq![d] + Seq::<char>::empty() =~= seq![d]);
    let t = TokenView::Identifier(IdentView::StringLiteral(seq![d]));
    assert(next::<JavaTokenSet>(cs, g) == Outcome {
        pos: 4,
        brace: 0,
        paren: 0,
        token: Some(t),
        pending_import: false,
        import: None,
    });
    assert(lex_from::<JavaTokenSet>(cs, advance(g, next::<JavaTokenSet>(cs, g)))
        == Seq::<TokenView>::empty());
    assert(seq![t] + Seq::<TokenView>::empty() =~= seq![t]);
}

/// Unicode fallback: the digits of a unicode escape that are not a
/// hexadecimal Unicode scalar value decode to themselves.
pub proof fn law_unicode_fallback(body: Seq<char>)
    requires
        radix16_u32(body) is None || !scalar_value(radix16_u32(body)->0),
    ensures
        decode_code(body) == body,
{
}

/// Unicode fallback in a literal: a braced unicode escape whose digits are not
/// a hexadecimal Unicode scalar value decodes to those digits, and the
/// literal goes on after the closing brace.
pub proof fn law_braced_escape_fallback(cs: Seq<char>, i: int)
    requires
        0 <= i,
        i + 2 < cs.len(),
        cs[i] == '\\',
        cs[i + 1] == 'u' || cs[i + 1] == 'U',
        cs[i + 2] == '{',
        close_brace(cs, i + 3) < cs.len(),
        radix16_u32(cs.subrange(i + 3, close_brace(cs, i + 3))) is None || !scalar_value(
            radix16_u32(cs.subrange(i + 3, close_brace(cs, i + 3)))->0,
        ),
    ensures
        element::<JavaTokenSet>(cs, i) == (cs.subrange(i + 3, close_brace(cs, i + 3)), close_brace(cs, i + 3) + 1),
{
}

/// Scope-aware identity: a lexeme at one brace depth always has the same
/// identity; at two different depths the bytes that are hashed differ.
pub proof fn law_scope_identity(name: Seq<u8>, d1: usize, d2: usize)
    ensures
        d1 == d2 ==> identity(name, d1) == identity(name, d2),
        d1 != d2 ==> identity_input(name, d1) != identity_input(name, d2),
{
    if d1 != d2 && identity_input(name, d1) == identity_input(name, d2) {
        let a = d1 as u64;
        let b = d2 as u64;
        let n = name.len() as int;
        assert forall|k: int| 0 <= k < 8 implies le_bytes(a)[k] == le_bytes(b)[k] by {
            assert(identity_input(name, d1)[n + k] == le_bytes(a)[k]);
            assert(identity_input(name, d2)[n + k] == le_bytes(b)[k]);
        }
        assert(le_bytes(a)[0] == le_bytes(b)[0]);
        assert(le_bytes(a)[1] == le_bytes(b)[1]);
        assert(le_bytes(a)[2] == le_bytes(b)[2]);
        assert(le_bytes(a)[3] == le_bytes(b)[3]);
        assert(le_bytes(a)[4] == le_bytes(b)[4]);
        assert(le_bytes(a)[5] == le_bytes(b)[5]);
        assert(le_bytes(a)[6] == le_bytes(b)[6]);
        assert(le_bytes(a)[7] == le_bytes(b)[7]);
        assert((a % 0x100) == (b % 0x100));
        assert(((a / 0x100) % 0x100) == ((b / 0x100) % 0x100));
        assert(((a / 0x10000) % 0x100) == ((b / 0x10000) % 0x100));
        assert(((a / 0x1000000) % 0x100) == ((b / 0x1000000) % 0x100));
        assert(((a / 0x100000000) % 0x100) == ((b / 0x100000000) % 0x100));
        assert(((a / 0x10000000000) % 0x100) == ((b / 0x10000000000) % 0x100));
        assert(((a / 0x1000000000000) % 0x100) == ((b / 0x1000000000000) % 0x100));
        assert(((a / 0x100000000000000) % 0x100) == ((b / 0x100000000000000) % 0x100));
        assert(a == b) by (bit_vector)
            requires
                (a % 0x100) == (b % 0x100),
                ((a / 0x100) % 0x100) == ((b / 0x100) % 0x100),
                ((a / 0x10000) % 0x100) == ((b / 0x10000) % 0x100),
                ((a / 0x1000000) % 0x100) == ((b / 0x1000000) % 0x100),
                ((a / 0x100000000) % 0x100) == ((b / 0x100000000) % 0x100),
                ((a / 0x10000000000) % 0x100) == ((b / 0x10000000000) % 0x100),
                ((a / 0x1000000000000) % 0x100) == ((b / 0x1000000000000) % 0x100),
                ((a / 0x100000000000000) % 0x100) == ((b / 0x100000000000000) % 0x100),
        ;
    }
}

/// Inference of a lexeme depends on the state only through the brace level
/// and the literal flags: the same lexeme at the same depth infers alike.
pub proof fn law_same_depth_same_token(
    s: Seq<char>,
    st1: crate::states::State,
    st2: crate::states::State,
)
    requires
        st1.brace_level == st2.brace_level,
        st1.in_str == st2.in_str,
        st1.in_char == st2.in_char,
    ensures
        java_infer(s, st1) == java_infer(s, st2),
{
}

/// No comment nesting: a block comment ends just after the first occurrence
/// of its end sequence, whatever start sequences come before it.
pub proof fn law_block_comment_flat(cs: Seq<char>, i: int, until: Seq<char>)
    requires
        0 <= i <= cs.len(),
    ensures
        block_end(cs, i, until) == cs.len() || occurs_at(
            cs,
            block_end(cs, i, until) - until.len(),
            until,
        ),
        forall|k: int|
            i <= k < block_end(cs, i, until) - until.len() ==> !occurs_at(cs, k, until),
    decreases cs.len() - i,
{
    if !(i >= cs.len() || i + until.len() > cs.len()) && !occurs_at(cs, i, until) {
        law_block_comment_flat(cs, i + 1, until);
    }
}

} // verus!

verus! {

/// Every nonempty prefix of an operator of the language is an operator.
pub open spec fn prefix_closed<T: Delimeted>() -> bool {
    forall|s: Seq<u8>, k: int|
        T::spec_operator(s) && 1 <= k <= s.len() ==> #[trigger] T::spec_operator(s.subrange(0, k))
}

proof fn lemma_munch<T: Delimeted>(cs: Seq<char>, i: int, j: int)
    requires
        0 <= i < j <= cs.len(),
        T::spec_operator(ascii_bytes(cs.subrange(i, j))),
    ensures
        j <= munch_end::<T>(cs, i, j) <= cs.len(),
        T::spec_operator(ascii_bytes(cs.subrange(i, munch_end::<T>(cs, i, j)))),
        prefix_closed::<T>() ==> forall|k: int|
            munch_end::<T>(cs, i, j) < k <= cs.len() && (forall|m: int| i <= m < k ==> ascii(cs[m]))
                ==> !T::spec_operator(#[trigger] ascii_bytes(cs.subrange(i, k))),
    decreases cs.len() - j,
{
    if j < cs.len() && ascii(cs[j]) && T::spec_operator(ascii_bytes(cs.subrange(i, j + 1))) {
        lemma_munch::<T>(cs, i, j + 1);
    } else {
        if prefix_closed::<T>() {
            assert forall|k: int|
                j < k <= cs.len() && (forall|m: int| i <= m < k ==> ascii(cs[m])) implies !T::spec_operator(
                #[trigger] ascii_bytes(cs.subrange(i, k)),
            ) by {
                if T::spec_operator(ascii_bytes(cs.subrange(i, k))) {
                    assert(ascii(cs[j]));
                    assert(ascii_bytes(cs.subrange(i, k)).subrange(0, j + 1 - i) =~= ascii_bytes(
                        cs.subrange(i, j + 1),
                    ));
                    assert(T::spec_operator(
                        ascii_bytes(cs.subrange(i, k)).subrange(0, j + 1 - i),
                    ));
                }
            }
        }
    }
}

/// Maximal munch: from an operator character, the operator muncher takes an
/// operator; when every prefix of an operator is an operator, no longer run of
/// characters from the same start is one.
pub proof fn law_maximal_munch<T: Delimeted>(cs: Seq<char>, i: int)
    requires
        0 <= i < cs.len(),
        ascii(cs[i]),
        T::spec_operator(seq![cs[i] as u8]),
    ensures
        i < munch_end::<T>(cs, i, i + 1) <= cs.len(),
        T::spec_operator(ascii_bytes(cs.subrange(i, munch_end::<T>(cs, i, i + 1)))),
        prefix_closed::<T>() ==> forall|k: int|
            munch_end::<T>(cs, i, i + 1) < k <= cs.len() && (forall|m: int|
                i <= m < k ==> ascii(cs[m])) ==> !T::spec_operator(
                #[trigger] ascii_bytes(cs.subrange(i, k)),
            ),
{
    assert(ascii_bytes(cs.subrange(i, i + 1)) =~= seq![cs[i] as u8]);
    lemma_munch::<T>(cs, i, i + 1);
}

} // verus!
