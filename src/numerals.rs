//! Classification of numeric lexemes: digit separators, the floating-point
//! grammar that `f64::from_str` accepts, and radix prefixes.
use crate::text::ascii_digit;
use vstd::prelude::*;

verus! {

/// The lexeme with every `_` removed.
pub open spec fn strip_separators(s: Seq<char>) -> Seq<char>
    decreases s.len(),
{
    if s.len() == 0 {
        s
    } else if s.last() == '_' {
        strip_separators(s.drop_last())
    } else {
        strip_separators(s.drop_last()).push(s.last())
    }
}

/// Removes the digit separators of a lexeme.
pub fn without_separators(s: &[char]) -> (r: Vec<char>)
    ensures
        r@ == strip_separators(s@),
{
    let mut out: Vec<char> = Vec::new();
    let mut i: usize = 0;
    while i < s.len()
        invariant
            i <= s.len(),
            out@ == strip_separators(s@.subrange(0, i as int)),
        decreases s.len() - i,
    {
        assert(s@.subrange(0, i + 1).drop_last() =~= s@.subrange(0, i as int));
        if s[i] != '_' {
            out.push(s[i]);
        }
        i = i + 1;
    }
    assert(s@.subrange(0, s.len() as int) =~= s@);
    out
}

/// `c` is the lower-case ASCII letter `l` in either case.
pub open spec fn ci(c: char, l: char) -> bool {
    c == l || (c as u32) + 32 == (l as u32)
}

pub open spec fn is_sign(c: char) -> bool {
    c == '+' || c == '-'
}

/// The text after an optional sign.
pub open spec fn unsigned_part(s: Seq<char>) -> Seq<char> {
    if s.len() > 0 && is_sign(s[0]) {
        s.drop_first()
    } else {
        s
    }
}

/// `inf`, `infinity` or `nan` in any case.
pub open spec fn special_word(u: Seq<char>) -> bool {
    (u.len() == 3 && ci(u[0], 'i') && ci(u[1], 'n') && ci(u[2], 'f')) || (u.len()
        == 8 && ci(u[0], 'i') && ci(u[1], 'n') && ci(u[2], 'f') && ci(u[3], 'i') && ci(u[4], 'n') && ci(u[5], 'i') && ci(u[6], 't') && ci(u[7], 'y')) || (u.len() == 3 && ci(u[0], 'n') && ci(u[1], 'a') && ci(u[2], 'n'))
}

/// The states of the recogniser of decimal floating-point numerals:
/// 0 start, 1 after the sign, 2 integer digits, 3 a point with no digit yet,
/// 4 a complete mantissa with a point, 5 after the exponent marker,
/// 6 after the exponent sign, 7 exponent digits, 8 rejected.
pub open spec fn float_step(q: u8, c: char) -> u8 {
    if q == 0 && is_sign(c) {
        1
    } else if (q == 0 || q == 1 || q == 2) && ascii_digit(c) {
        2
    } else if (q == 0 || q == 1) && c == '.' {
        3
    } else if q == 2 && c == '.' {
        4
    } else if (q == 3 || q == 4) && ascii_digit(c) {
        4
    } else if (q == 2 || q == 4) && (c == 'e' || c == 'E') {
        5
    } else if q == 5 && is_sign(c) {
        6
    } else if (q == 5 || q == 6 || q == 7) && ascii_digit(c) {
        7
    } else {
        8
    }
}

/// The state that the recogniser reaches from `q` on `s`.
pub open spec fn float_run(q: u8, s: Seq<char>) -> u8
    decreases s.len(),
{
    if s.len() == 0 {
        q
    } else {
        float_run(float_step(q, s[0]), s.drop_first())
    }
}

/// The grammar of `f64::from_str`:
/// `[+-]? ( inf | infinity | nan | ( D+ | D+ '.' D* | D* '.' D+ ) ( [eE] [+-]? D+ )? )`,
/// with the three words in any case.
pub open spec fn float_literal(s: Seq<char>) -> bool {
    special_word(unsigned_part(s)) || {
        let q = float_run(0, s);
        q == 2 || q == 4 || q == 7
    }
}

fn is_ci(c: char, l: char) -> (r: bool)
    requires
        'a' <= l <= 'z',
    ensures
        r == ci(c, l),
{
    c == l || (c as u32) + 32 == (l as u32)
}

fn step(q: u8, c: char) -> (r: u8)
    ensures
        r == float_step(q, c),
{
    let digit = '0' <= c && c <= '9';
    let sign = c == '+' || c == '-';
    if q == 0 && sign {
        1
    } else if (q == 0 || q == 1 || q == 2) && digit {
        2
    } else if (q == 0 || q == 1) && c == '.' {
        3
    } else if q == 2 && c == '.' {
        4
    } else if (q == 3 || q == 4) && digit {
        4
    } else if (q == 2 || q == 4) && (c == 'e' || c == 'E') {
        5
    } else if q == 5 && sign {
        6
    } else if (q == 5 || q == 6 || q == 7) && digit {
        7
    } else {
        8
    }
}

/// Whether `s` is text that `f64::from_str` accepts.
pub fn parses_as_float(s: &[char]) -> (r: bool)
    ensures
        r == float_literal(s@),
{
    let start: usize = if s.len() > 0 && (s[0] == '+' || s[0] == '-') {
        1
    } else {
        0
    };
    let n = s.len() - start;
    let special = if n == 3 {
        (is_ci(s[start], 'i') && is_ci(s[start + 1], 'n') && is_ci(s[start + 2], 'f')) || (is_ci(
            s[start],
            'n',
        ) && is_ci(s[start + 1], 'a') && is_ci(s[start + 2], 'n'))
    } else if n == 8 {
        is_ci(s[start], 'i') && is_ci(s[start + 1], 'n') && is_ci(s[start + 2], 'f') && is_ci(s[start + 3], 'i') && is_ci(s[start + 4], 'n')
            && is_ci(s[start + 5], 'i') && is_ci(s[start + 6], 't') && is_ci(s[start + 7], 'y')
    } else {
        false
    };
    proof {
        let u = unsigned_part(s@);
        assert(u =~= s@.subrange(start as int, s@.len() as int));
        assert(special == special_word(u));
    }
    if special {
        return true;
    }
    let mut q: u8 = 0;
    let mut i: usize = 0;
    assert(s@.subrange(0, s@.len() as int) =~= s@);
    while i < s.len()
        invariant
            i <= s.len(),
            float_run(0, s@) == float_run(q, s@.subrange(i as int, s@.len() as int)),
        decreases s.len() - i,
    {
        assert(s@.subrange(i as int, s@.len() as int).drop_first() =~= s@.subrange(
            i + 1,
            s@.len() as int,
        ));
        q = step(q, s[i]);
        i = i + 1;
    }
    assert(s@.subrange(i as int, s@.len() as int).len() == 0);
    q == 2 || q == 4 || q == 7
}

/// A lexeme that contains `.`, `e`, `E`, `f` or `F` is a float candidate.
pub open spec fn float_marked(s: Seq<char>) -> bool {
    exists|i: int| 0 <= i < s.len() && float_mark(#[trigger] s[i])
}

pub open spec fn float_mark(c: char) -> bool {
    c == '.' || c == 'e' || c == 'E' || c == 'f' || c == 'F'
}

/// Every character is a decimal digit or `_`.
pub open spec fn all_digits(s: Seq<char>) -> bool {
    forall|i: int| 0 <= i < s.len() ==> ascii_digit(#[trigger] s[i]) || s[i] == '_'
}

/// Scans a lexeme: whether it is a float candidate, and whether it is all digits.
pub fn scan_numeral(s: &[char]) -> (r: (bool, bool))
    ensures
        r.0 == float_marked(s@),
        r.1 == all_digits(s@),
{
    let mut marked = false;
    let mut digits = true;
    let mut i: usize = 0;
    while i < s.len()
        invariant
            i <= s.len(),
            marked == exists|j: int| 0 <= j < i && float_mark(#[trigger] s@[j]),
            digits == forall|j: int| 0 <= j < i ==> ascii_digit(#[trigger] s@[j]) || s@[j] == '_',
        decreases s.len() - i,
    {
        let c = s[i];
        if c == '.' || c == 'e' || c == 'E' || c == 'f' || c == 'F' {
            marked = true;
        }
        if !(('0' <= c && c <= '9') || c == '_') {
            digits = false;
        }
        i = i + 1;
    }
    (marked, digits)
}

/// Whether the lexeme begins with `0` and then `c`.
pub open spec fn radix_prefix(s: Seq<char>, c: char) -> bool {
    s.len() >= 2 && s[0] == '0' && s[1] == c
}

} // verus!
