//! What the lexer's eaters consume and decode, stated over the source's
//! characters: where each run ends and what a literal's body decodes to.
use crate::text::{radix16_u32, scalar_value, char_with_code, white_space};
use crate::tokens::Delimeted;
use vstd::prelude::*;

verus! {

/// The first position at or after `i` that holds a newline, or the end.
pub open spec fn line_end(cs: Seq<char>, i: int) -> int
    decreases cs.len() - i,
{
    if i >= cs.len() {
        cs.len() as int
    } else if cs[i] == '\n' {
        i
    } else {
        line_end(cs, i + 1)
    }
}

/// A character whose byte is one of the language's delimiters.
pub open spec fn delim_char<T: Delimeted>(c: char) -> bool {
    (c as u32) < 128 && T::spec_delimeter(c as u8)
}

/// The first position at or after `i` that holds a delimiter, or the end.
pub open spec fn ident_end<T: Delimeted>(cs: Seq<char>, i: int) -> int
    decreases cs.len() - i,
{
    if i >= cs.len() {
        cs.len() as int
    } else if delim_char::<T>(cs[i]) {
        i
    } else {
        ident_end::<T>(cs, i + 1)
    }
}

/// The first position at or after `i` that cannot continue a numeral, or the end.
pub open spec fn number_end<T: Delimeted>(cs: Seq<char>, i: int) -> int
    decreases cs.len() - i,
{
    if i >= cs.len() {
        cs.len() as int
    } else if !T::spec_number_char(cs[i]) {
        i
    } else {
        number_end::<T>(cs, i + 1)
    }
}

/// The first position at or after `i` that is not white space, or the end.
pub open spec fn ws_end(cs: Seq<char>, i: int) -> int
    decreases cs.len() - i,
{
    if i >= cs.len() {
        cs.len() as int
    } else if !white_space(cs[i]) {
        i
    } else {
        ws_end(cs, i + 1)
    }
}

/// The first position at or after `i` that holds `}`, or the end.
pub open spec fn close_brace(cs: Seq<char>, i: int) -> int
    decreases cs.len() - i,
{
    if i >= cs.len() {
        cs.len() as int
    } else if cs[i] == '}' {
        i
    } else {
        close_brace(cs, i + 1)
    }
}

/// The end of the legacy form of a unicode escape: at most `n` characters from
/// `i`, stopping at white space or the end.
pub open spec fn legacy_end(cs: Seq<char>, i: int, n: int) -> int
    decreases n,
{
    if i >= cs.len() || n <= 0 || white_space(cs[i]) {
        i
    } else {
        legacy_end(cs, i + 1, n - 1)
    }
}

/// Whether `until` occurs in `cs` at position `i`.
pub open spec fn occurs_at(cs: Seq<char>, i: int, until: Seq<char>) -> bool {
    0 <= i && i + until.len() <= cs.len() && cs.subrange(i, i + until.len()) == until
}

/// The position just after the first occurrence of `until` at or after `i`,
/// or the end when there is none.
pub open spec fn block_end(cs: Seq<char>, i: int, until: Seq<char>) -> int
    decreases cs.len() - i,
{
    if i >= cs.len() || i + until.len() > cs.len() {
        cs.len() as int
    } else if occurs_at(cs, i, until) {
        i + until.len()
    } else {
        block_end(cs, i + 1, until)
    }
}

/// The bytes of a sequence of ASCII characters.
pub open spec fn ascii_bytes(s: Seq<char>) -> Seq<u8> {
    s.map_values(|c: char| c as u8)
}

pub open spec fn ascii(c: char) -> bool {
    (c as u32) < 128
}

/// Maximal munch: the operator that starts at `i` grows one character at a time
/// while the text stays an operator; `j` is the end reached so far.
pub open spec fn munch_end<T: Delimeted>(cs: Seq<char>, i: int, j: int) -> int
    decreases cs.len() - j,
{
    if j < cs.len() && ascii(cs[j]) && T::spec_operator(
        ascii_bytes(cs.subrange(i, j + 1)),
    ) {
        munch_end::<T>(cs, i, j + 1)
    } else {
        j
    }
}

/// The text of a unicode escape's digits: the character with that code point
/// when the digits are a hexadecimal scalar value, and the digits themselves
/// otherwise.
pub open spec fn decode_code(body: Seq<char>) -> Seq<char> {
    match radix16_u32(body) {
        Some(n) => if scalar_value(n) {
            seq![char_with_code(n)]
        } else {
            body
        },
        None => body,
    }
}

/// One element of a literal's body starting at `i`: its decoded text and the
/// position of the next element.
pub open spec fn element<T: Delimeted>(cs: Seq<char>, i: int) -> (Seq<char>, int) {
    if cs[i] != '\\' {
        (seq![cs[i]], i + 1)
    } else if i + 1 >= cs.len() {
        (seq![], cs.len() as int)
    } else {
        let e = cs[i + 1];
        let j = i + 2;
        if (e == 'u' || e == 'U') && T::spec_unicode_escape(e) is Some {
            if j < cs.len() && cs[j] == '{' {
                let k = close_brace(cs, j + 1);
                (decode_code(cs.subrange(j + 1, k)), if k < cs.len() {
                    k + 1
                } else {
                    k
                })
            } else {
                let k = legacy_end(cs, j, T::spec_unicode_escape(e)->0 as int);
                (decode_code(cs.subrange(j, k)), k)
            }
        } else if T::spec_escape(e) is Some {
            (seq![T::spec_escape(e)->0], j)
        } else {
            (seq![e], j)
        }
    }
}

pub proof fn lemma_close_brace_bounds(cs: Seq<char>, i: int)
    requires
        0 <= i,
    ensures
        i <= close_brace(cs, i) <= cs.len() || (i > cs.len() && close_brace(cs, i) == cs.len()),
    decreases cs.len() - i,
{
    if i < cs.len() && cs[i] != '}' {
        lemma_close_brace_bounds(cs, i + 1);
    }
}

pub proof fn lemma_legacy_end_bounds(cs: Seq<char>, i: int, n: int)
    ensures
        i <= legacy_end(cs, i, n),
        i <= cs.len() ==> legacy_end(cs, i, n) <= cs.len(),
    decreases n,
{
    if !(i >= cs.len() || n <= 0 || white_space(cs[i])) {
        lemma_legacy_end_bounds(cs, i + 1, n - 1);
    }
}

/// An element ends after it starts and within the text.
pub proof fn lemma_element_advances<T: Delimeted>(cs: Seq<char>, i: int)
    requires
        0 <= i < cs.len(),
    ensures
        i < element::<T>(cs, i).1 <= cs.len(),
{
    if cs[i] == '\\' && i + 1 < cs.len() {
        let e = cs[i + 1];
        let j = i + 2;
        lemma_close_brace_bounds(cs, j + 1);
        if (e == 'u' || e == 'U') && T::spec_unicode_escape(e) is Some {
            lemma_legacy_end_bounds(cs, j, T::spec_unicode_escape(e)->0 as int);
        }
    }
}

/// The decoded body of a string literal whose first body character is at `i`,
/// and the position of its closing quote (or the end).
pub open spec fn string_body<T: Delimeted>(cs: Seq<char>, i: int) -> (Seq<char>, int)
    decreases cs.len() - i,
    via string_body_decreases::<T>
{
    if i < 0 || i >= cs.len() {
        (seq![], cs.len() as int)
    } else if cs[i] == '"' {
        (seq![], i)
    } else {
        let (p, n) = element::<T>(cs, i);
        let (rest, e) = string_body::<T>(cs, n);
        (p + rest, e)
    }
}

#[via_fn]
proof fn string_body_decreases<T: Delimeted>(cs: Seq<char>, i: int) {
    if 0 <= i < cs.len() {
        lemma_element_advances::<T>(cs, i);
    }
}

/// The decoded body of a char literal whose first body character is at `i`:
/// at most one element, none when the closing quote follows at once.
pub open spec fn char_body<T: Delimeted>(cs: Seq<char>, i: int) -> (Seq<char>, int) {
    if i < 0 || i >= cs.len() || cs[i] == '\'' {
        (seq![], i)
    } else {
        element::<T>(cs, i)
    }
}

} // verus!

verus! {

/// Each run ends at or after where it starts, and within the text.
pub proof fn lemma_run_bounds<T: Delimeted>(cs: Seq<char>, i: int)
    requires
        0 <= i <= cs.len(),
    ensures
        i <= line_end(cs, i) <= cs.len(),
        i <= ident_end::<T>(cs, i) <= cs.len(),
        i <= number_end::<T>(cs, i) <= cs.len(),
        i <= ws_end(cs, i) <= cs.len(),
    decreases cs.len() - i,
{
    if i < cs.len() {
        lemma_run_bounds::<T>(cs, i + 1);
    }
}

/// A block comment ends at or after where its body starts.
pub proof fn lemma_block_end_bounds(cs: Seq<char>, i: int, until: Seq<char>)
    requires
        0 <= i <= cs.len(),
    ensures
        i <= block_end(cs, i, until) <= cs.len(),
    decreases cs.len() - i,
{
    if !(i >= cs.len() || i + until.len() > cs.len()) && !occurs_at(cs, i, until) {
        lemma_block_end_bounds(cs, i + 1, until);
    }
}

/// The operator muncher ends at or after the end reached so far.
pub proof fn lemma_munch_bounds<T: Delimeted>(cs: Seq<char>, i: int, j: int)
    requires
        0 <= j <= cs.len(),
    ensures
        j <= munch_end::<T>(cs, i, j) <= cs.len(),
    decreases cs.len() - j,
{
    if j < cs.len() && ascii(cs[j]) && T::spec_operator(
        ascii_bytes(cs.subrange(i, j + 1)),
    ) {
        lemma_munch_bounds::<T>(cs, i, j + 1);
    }
}

} // verus!

verus! {

/// A string literal's body ends at or after where it starts, and within the text.
pub proof fn lemma_string_body_bounds<T: Delimeted>(cs: Seq<char>, i: int)
    requires
        0 <= i <= cs.len(),
    ensures
        i <= string_body::<T>(cs, i).1 <= cs.len(),
    decreases cs.len() - i,
{
    if i < cs.len() && cs[i] != '"' {
        lemma_element_advances::<T>(cs, i);
        lemma_string_body_bounds::<T>(cs, element::<T>(cs, i).1);
    }
}

} // verus!
