//! Token inference for Java: the classifier from a lexeme and the lexer state
//! to a token.
use crate::java_delimiters::{
    delimiter_id, java_delimiter_byte, java_delimiter_of, java_keyword, java_operator, keyword_id,
    operator_id,
};
use crate::java_tokenset::{
    IdentView, JavaBase, JavaIdentifier, JavaKeyword, JavaToken, JavaTokenSet, TokenView,
};
use crate::normalize::{identity, normalize};
use crate::numerals::{
    all_digits, float_literal, float_marked, parses_as_float, radix_prefix, scan_numeral,
    strip_separators, without_separators,
};
use crate::states::State;
use crate::text::{chars_of, string_of};
use crate::tokens::{Delimeted, Lexable};
use vstd::prelude::*;
use vstd::utf8::encode_utf8;

verus! {

/// A character whose byte is a Java delimiter byte.
pub open spec fn delimiter_char(c: char) -> bool {
    (c as u32) < 128 && java_delimiter_byte(c as u8)
}

/// The numeric token of a lexeme outside literals, if it is one.
pub open spec fn numeral_token(s: Seq<char>) -> Option<IdentView> {
    if float_marked(s) && float_literal(strip_separators(s)) {
        Some(IdentView::Float(strip_separators(s)))
    } else if !float_marked(s) && all_digits(s) {
        Some(IdentView::Integer(s, JavaBase::Decimal))
    } else if radix_prefix(s, 'x') {
        Some(IdentView::Integer(s, JavaBase::Hexadecimal))
    } else if radix_prefix(s, 'b') {
        Some(IdentView::Integer(s, JavaBase::Binary))
    } else if radix_prefix(s, 'o') {
        Some(IdentView::Integer(s, JavaBase::Octal))
    } else {
        None
    }
}

/// The unknown-identifier token of a lexeme at a brace depth.
pub open spec fn unknown_token(s: Seq<char>, brace_level: usize) -> TokenView {
    TokenView::Identifier(IdentView::Unknown(identity(encode_utf8(s), brace_level)))
}

/// What Java token inference yields for lexeme `s` in state `st`; `None` for
/// the import keyword, which is swallowed.
pub open spec fn java_infer(s: Seq<char>, st: State) -> Option<TokenView> {
    java_infer_at(s, st.brace_level, st.in_str, st.in_char)
}

/// Token inference, from the parts of the state that it reads.
pub open spec fn java_infer_at(s: Seq<char>, brace_level: usize, in_str: bool, in_char: bool) -> Option<
    TokenView,
> {
    if in_char {
        Some(TokenView::Identifier(IdentView::CharLiteral(s)))
    } else if in_str {
        Some(TokenView::Identifier(IdentView::StringLiteral(s)))
    } else if java_operator(encode_utf8(s)) is Some {
        Some(TokenView::Operator(java_operator(encode_utf8(s))->0))
    } else if s.len() > 0 && delimiter_char(s[0]) {
        if s.len() == 1 && java_delimiter_of(s[0]) is Some {
            Some(TokenView::Delimeter(java_delimiter_of(s[0])->0))
        } else {
            Some(unknown_token(s, brace_level))
        }
    } else if java_keyword(s) == Some(JavaKeyword::Import) {
        None
    } else if java_keyword(s) is Some {
        Some(TokenView::Identifier(IdentView::JavaKeyword(java_keyword(s)->0)))
    } else if numeral_token(s) is Some {
        Some(TokenView::Identifier(numeral_token(s)->0))
    } else {
        Some(unknown_token(s, brace_level))
    }
}

/// Whether a lexeme outside literals is the import keyword.
pub open spec fn import_keyword(s: Seq<char>) -> bool {
    &&& java_operator(encode_utf8(s)) is None
    &&& !(s.len() > 0 && delimiter_char(s[0]))
    &&& java_keyword(s) == Some(JavaKeyword::Import)
}

impl Lexable for JavaTokenSet {
    type Token = JavaToken;

    type TokenView = TokenView;

    open spec fn token_view(t: JavaToken) -> TokenView {
        t@
    }

    open spec fn spec_infer(s: Seq<char>, brace_level: usize, in_str: bool, in_char: bool) -> Option<
        TokenView,
    > {
        java_infer_at(s, brace_level, in_str, in_char)
    }

    open spec fn spec_import_keyword(s: Seq<char>) -> bool {
        import_keyword(s)
    }

    fn infer_token(c: String, state: &mut State) -> (r: Option<JavaToken>) {
        if state.in_char {
            return Some(JavaToken::Identifier(JavaIdentifier::CharLiteral(c)));
        }
        if state.in_str {
            return Some(JavaToken::Identifier(JavaIdentifier::StringLiteral(c)));
        }
        let bytes = c.as_str().as_bytes();
        assert(bytes@ == encode_utf8(c@));
        if let Some(op) = operator_id(bytes) {
            return Some(JavaToken::Operator(op));
        }
        let s = chars_of(c.as_str());
        if s.len() > 0 && (s[0] as u32) < 128 && JavaTokenSet::is_delimeter(&(s[0] as u8)) {
            if s.len() == 1 {
                if let Some(d) = delimiter_id(s[0]) {
                    return Some(JavaToken::Delimeter(d));
                }
            }
            return Some(
                JavaToken::Identifier(JavaIdentifier::Unknown(normalize(bytes, state.brace_level))),
            );
        }
        match keyword_id(s.as_slice()) {
            Some(JavaKeyword::Import) => {
                state.read_include = true;
                return None;
            },
            Some(k) => {
                return Some(JavaToken::Identifier(JavaIdentifier::JavaKeyword(k)));
            },
            None => {},
        }
        let (marked, digits) = scan_numeral(s.as_slice());
        if marked {
            let cleaned = without_separators(s.as_slice());
            if parses_as_float(cleaned.as_slice()) {
                return Some(JavaToken::Identifier(JavaIdentifier::Float(string_of(&cleaned))));
            }
        } else if digits {
            return Some(JavaToken::Identifier(JavaIdentifier::Integer(c, JavaBase::Decimal)));
        }
        if s.len() >= 2 && s[0] == '0' {
            if s[1] == 'x' {
                return Some(JavaToken::Identifier(JavaIdentifier::Integer(c, JavaBase::Hexadecimal)));
            } else if s[1] == 'b' {
                return Some(JavaToken::Identifier(JavaIdentifier::Integer(c, JavaBase::Binary)));
            } else if s[1] == 'o' {
                return Some(JavaToken::Identifier(JavaIdentifier::Integer(c, JavaBase::Octal)));
            }
        }
        Some(JavaToken::Identifier(JavaIdentifier::Unknown(normalize(bytes, state.brace_level))))
    }
}

} // verus!
