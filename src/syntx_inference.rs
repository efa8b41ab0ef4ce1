//! Token inference for the language-description format.
use crate::normalize::{identity, normalize};
use crate::numerals::{
    all_digits, float_literal, float_marked, parses_as_float, radix_prefix, scan_numeral,
    strip_separators, without_separators,
};
use crate::states::State;
use crate::syntx_tokenset::{
    syntxBase, syntxDelimeter, syntxIdentifier, syntxKeyword, syntxOperator, syntxToken,
    syntxTokenSet,
};
use crate::text::{chars_of, string_of};
use crate::tokens::{Delimeted, Lexable};
use vstd::prelude::*;
use vstd::utf8::encode_utf8;

verus! {

/// The mathematical value of a token of the description format.
pub enum SyntxTokenView {
    Keyword(syntxKeyword),
    StringLiteral(Seq<char>),
    CharLiteral(Seq<char>),
    Integer(Seq<char>, syntxBase),
    Float(Seq<char>),
    Unknown(u64),
    Operator(syntxOperator),
    Delimeter(syntxDelimeter),
    EOF,
}

pub open spec fn syntx_view(t: syntxToken) -> SyntxTokenView {
    match t {
        syntxToken::Identifier(syntxIdentifier::syntxKeyword(k)) => SyntxTokenView::Keyword(k),
        syntxToken::Identifier(syntxIdentifier::StringLiteral(s)) => SyntxTokenView::StringLiteral(
            s@,
        ),
        syntxToken::Identifier(syntxIdentifier::CharLiteral(s)) => SyntxTokenView::CharLiteral(s@),
        syntxToken::Identifier(syntxIdentifier::Integer(s, b)) => SyntxTokenView::Integer(s@, b),
        syntxToken::Identifier(syntxIdentifier::Float(s)) => SyntxTokenView::Float(s@),
        syntxToken::Identifier(syntxIdentifier::Unknown(h)) => SyntxTokenView::Unknown(h),
        syntxToken::Operator(o) => SyntxTokenView::Operator(o),
        syntxToken::Delimeter(d) => SyntxTokenView::Delimeter(d),
        syntxToken::EOF => SyntxTokenView::EOF,
    }
}

/// The keywords of the description format.
pub open spec fn syntx_keyword(s: Seq<char>) -> Option<syntxKeyword> {
    if s.len() == 4 && s[0] == 'i' && s[1] == 'n' && s[2] == 'f' && s[3] == 'o' {
        Some(syntxKeyword::Info)
    } else if s.len() == 9 && s[0] == 'o' && s[1] == 'p' && s[2] == 'e' && s[3] == 'r' && s[4]
        == 'a' && s[5] == 't' && s[6] == 'o' && s[7] == 'r' && s[8] == 's' {
        Some(syntxKeyword::Operators)
    } else if s.len() == 4 && s[0] == 'l' && s[1] == 'i' && s[2] == 'n' && s[3] == 'e' {
        Some(syntxKeyword::Line)
    } else if s.len() == 4 && s[0] == 'n' && s[1] == 'a' && s[2] == 'm' && s[3] == 'e' {
        Some(syntxKeyword::Name)
    } else if s.len() == 10 && s[0] == 'd' && s[1] == 'e' && s[2] == 'l' && s[3] == 'i' && s[4]
        == 'm' && s[5] == 'e' && s[6] == 't' && s[7] == 'e' && s[8] == 'r' && s[9] == 's' {
        Some(syntxKeyword::Delimeters)
    } else if s.len() == 6 && s[0] == 't' && s[1] == 'o' && s[2] == 'k' && s[3] == 'e' && s[4]
        == 'n' && s[5] == 's' {
        Some(syntxKeyword::Tokens)
    } else if s.len() == 5 && s[0] == 'b' && s[1] == 'l' && s[2] == 'o' && s[3] == 'c' && s[4]
        == 'k' {
        Some(syntxKeyword::Block)
    } else if s.len() == 8 && s[0] == 'c' && s[1] == 'o' && s[2] == 'm' && s[3] == 'm' && s[4]
        == 'e' && s[5] == 'n' && s[6] == 't' && s[7] == 's' {
        Some(syntxKeyword::Comments)
    } else {
        None
    }
}

fn keyword_of(s: &[char]) -> (r: Option<syntxKeyword>)
    ensures
        r == syntx_keyword(s@),
{
    if s.len() == 4 && s[0] == 'i' && s[1] == 'n' && s[2] == 'f' && s[3] == 'o' {
        Some(syntxKeyword::Info)
    } else if s.len() == 9 && s[0] == 'o' && s[1] == 'p' && s[2] == 'e' && s[3] == 'r' && s[4]
        == 'a' && s[5] == 't' && s[6] == 'o' && s[7] == 'r' && s[8] == 's' {
        Some(syntxKeyword::Operators)
    } else if s.len() == 4 && s[0] == 'l' && s[1] == 'i' && s[2] == 'n' && s[3] == 'e' {
        Some(syntxKeyword::Line)
    } else if s.len() == 4 && s[0] == 'n' && s[1] == 'a' && s[2] == 'm' && s[3] == 'e' {
        Some(syntxKeyword::Name)
    } else if s.len() == 10 && s[0] == 'd' && s[1] == 'e' && s[2] == 'l' && s[3] == 'i' && s[4]
        == 'm' && s[5] == 'e' && s[6] == 't' && s[7] == 'e' && s[8] == 'r' && s[9] == 's' {
        Some(syntxKeyword::Delimeters)
    } else if s.len() == 6 && s[0] == 't' && s[1] == 'o' && s[2] == 'k' && s[3] == 'e' && s[4]
        == 'n' && s[5] == 's' {
        Some(syntxKeyword::Tokens)
    } else if s.len() == 5 && s[0] == 'b' && s[1] == 'l' && s[2] == 'o' && s[3] == 'c' && s[4]
        == 'k' {
        Some(syntxKeyword::Block)
    } else if s.len() == 8 && s[0] == 'c' && s[1] == 'o' && s[2] == 'm' && s[3] == 'm' && s[4]
        == 'e' && s[5] == 'n' && s[6] == 't' && s[7] == 's' {
        Some(syntxKeyword::Comments)
    } else {
        None
    }
}

/// The delimiter token of a one-character lexeme.
pub open spec fn syntx_delimiter_of(c: char) -> Option<syntxDelimeter> {
    if c == '=' {
        Some(syntxDelimeter::Eq)
    } else if c == ';' {
        Some(syntxDelimeter::Semicolon)
    } else if c == '[' {
        Some(syntxDelimeter::LBracket)
    } else if c == ']' {
        Some(syntxDelimeter::RBracket)
    } else if c == ',' {
        Some(syntxDelimeter::Comma)
    } else {
        None
    }
}

/// A character whose byte is a delimiter of the description format.
pub open spec fn syntx_delimiter_char(c: char) -> bool {
    (c as u32) < 128 && syntxTokenSet::spec_delimeter(c as u8)
}

/// What inference yields for lexeme `s` in state `st`.
pub open spec fn syntx_infer(s: Seq<char>, brace_level: usize, in_str: bool, in_char: bool) -> SyntxTokenView {
    if in_char {
        SyntxTokenView::CharLiteral(s)
    } else if in_str {
        SyntxTokenView::StringLiteral(s)
    } else if syntxTokenSet::spec_operator(encode_utf8(s)) {
        SyntxTokenView::Operator(syntxOperator::Eq)
    } else if s.len() > 0 && syntx_delimiter_char(s[0]) {
        if s.len() == 1 && syntx_delimiter_of(s[0]) is Some {
            SyntxTokenView::Delimeter(syntx_delimiter_of(s[0])->0)
        } else {
            SyntxTokenView::Unknown(identity(encode_utf8(s), brace_level))
        }
    } else if syntx_keyword(s) is Some {
        SyntxTokenView::Keyword(syntx_keyword(s)->0)
    } else if float_marked(s) && float_literal(strip_separators(s)) {
        SyntxTokenView::Float(strip_separators(s))
    } else if !float_marked(s) && all_digits(s) {
        SyntxTokenView::Integer(s, syntxBase::Decimal)
    } else if radix_prefix(s, 'x') {
        SyntxTokenView::Integer(s, syntxBase::Hexadecimal)
    } else if radix_prefix(s, 'b') {
        SyntxTokenView::Integer(s, syntxBase::Binary)
    } else if radix_prefix(s, 'o') {
        SyntxTokenView::Integer(s, syntxBase::Octal)
    } else {
        SyntxTokenView::Unknown(identity(encode_utf8(s), brace_level))
    }
}

impl Lexable for syntxTokenSet {
    type Token = syntxToken;

    type TokenView = SyntxTokenView;

    open spec fn token_view(t: syntxToken) -> SyntxTokenView {
        syntx_view(t)
    }

    open spec fn spec_infer(s: Seq<char>, brace_level: usize, in_str: bool, in_char: bool) -> Option<
        SyntxTokenView,
    > {
        Some(syntx_infer(s, brace_level, in_str, in_char))
    }

    open spec fn spec_import_keyword(s: Seq<char>) -> bool {
        false
    }

    fn infer_token(c: String, state: &mut State) -> (r: Option<syntxToken>) {
        if state.in_char {
            return Some(syntxToken::Identifier(syntxIdentifier::CharLiteral(c)));
        }
        if state.in_str {
            return Some(syntxToken::Identifier(syntxIdentifier::StringLiteral(c)));
        }
        let bytes = c.as_str().as_bytes();
        assert(bytes@ == encode_utf8(c@));
        if syntxTokenSet::is_operator(bytes) {
            return Some(syntxToken::Operator(syntxOperator::Eq));
        }
        let s = chars_of(c.as_str());
        if s.len() > 0 && (s[0] as u32) < 128 && syntxTokenSet::is_delimeter(&(s[0] as u8)) {
            if s.len() == 1 {
                let d = s[0];
                if d == '=' {
                    return Some(syntxToken::Delimeter(syntxDelimeter::Eq));
                } else if d == ';' {
                    return Some(syntxToken::Delimeter(syntxDelimeter::Semicolon));
                } else if d == '[' {
                    return Some(syntxToken::Delimeter(syntxDelimeter::LBracket));
                } else if d == ']' {
                    return Some(syntxToken::Delimeter(syntxDelimeter::RBracket));
                } else if d == ',' {
                    return Some(syntxToken::Delimeter(syntxDelimeter::Comma));
                }
            }
            return Some(
                syntxToken::Identifier(syntxIdentifier::Unknown(normalize(bytes, state.brace_level))),
            );
        }
        if let Some(k) = keyword_of(s.as_slice()) {
            return Some(syntxToken::Identifier(syntxIdentifier::syntxKeyword(k)));
        }
        let (marked, digits) = scan_numeral(s.as_slice());
        if marked {
            let cleaned = without_separators(s.as_slice());
            if parses_as_float(cleaned.as_slice()) {
                return Some(syntxToken::Identifier(syntxIdentifier::Float(string_of(&cleaned))));
            }
        } else if digits {
            return Some(syntxToken::Identifier(syntxIdentifier::Integer(c, syntxBase::Decimal)));
        }
        if s.len() >= 2 && s[0] == '0' {
            if s[1] == 'x' {
                return Some(syntxToken::Identifier(syntxIdentifier::Integer(c, syntxBase::Hexadecimal)));
            } else if s[1] == 'b' {
                return Some(syntxToken::Identifier(syntxIdentifier::Integer(c, syntxBase::Binary)));
            } else if s[1] == 'o' {
                return Some(syntxToken::Identifier(syntxIdentifier::Integer(c, syntxBase::Octal)));
            }
        }
        Some(syntxToken::Identifier(syntxIdentifier::Unknown(normalize(bytes, state.brace_level))))
    }
}

} // verus!
