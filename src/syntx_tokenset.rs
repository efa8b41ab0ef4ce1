//! The token set and tables of the language-description format itself.
use crate::text::{ascii_alphanumeric, is_ascii_alphanumeric};
use crate::tokens::{Delimeted, Token, TokenKind};
use vstd::prelude::*;

verus! {

#[allow(non_camel_case_types)]
#[derive(Debug, Clone, PartialEq)]
pub enum syntxToken {
    Identifier(syntxIdentifier),
    Operator(syntxOperator),
    Delimeter(syntxDelimeter),
    EOF,
}

/// The identifier-like tokens; a float literal is carried as its decimal text.
#[allow(non_camel_case_types)]
#[derive(Debug, Clone, PartialEq)]
pub enum syntxIdentifier {
    syntxKeyword(syntxKeyword),
    StringLiteral(String),
    CharLiteral(String),
    Integer(String, syntxBase),
    Float(String),
    Unknown(u64),
}

#[allow(non_camel_case_types)]
#[derive(Debug, Clone, Copy, PartialEq, Eq, Structural)]
pub enum syntxOperator {
    Eq,
}

#[allow(non_camel_case_types)]
#[derive(Debug, Clone, Copy, PartialEq, Eq, Structural)]
pub enum syntxDelimeter {
    Eq,
    Semicolon,
    LBracket,
    RBracket,
    Comma,
    Whitespace,
    NewLine,
}

#[allow(non_camel_case_types)]
#[derive(Debug, Clone, Copy, PartialEq, Eq, Structural)]
pub enum syntxKeyword {
    Info,
    Operators,
    Line,
    Name,
    Delimeters,
    Tokens,
    Block,
    Comments,
    Grammar,
}

#[allow(non_camel_case_types)]
#[derive(Debug, Clone, Copy, PartialEq, Eq, Structural)]
pub enum syntxBase {
    Decimal,
    Hexadecimal,
    Binary,
    Octal,
}

/// Marker type that carries the description format's tables.
#[allow(non_camel_case_types)]
#[derive(Debug, Clone, Copy, PartialEq, Eq, Default, Hash)]
pub struct syntxTokenSet;

/// The kind of a token of the description format.
pub open spec fn syntx_kind(t: &syntxToken) -> TokenKind {
    match t {
        syntxToken::EOF => TokenKind::Delimeter,
        syntxToken::Identifier(syntxIdentifier::syntxKeyword(_)) => TokenKind::Keyword,
        syntxToken::Identifier(syntxIdentifier::StringLiteral(_)) => TokenKind::Literal,
        syntxToken::Identifier(_) => TokenKind::Identifier,
        syntxToken::Operator(_) => TokenKind::Operator,
        syntxToken::Delimeter(syntxDelimeter::Whitespace) => TokenKind::Whitespace,
        syntxToken::Delimeter(syntxDelimeter::NewLine) => TokenKind::Whitespace,
        syntxToken::Delimeter(_) => TokenKind::Delimeter,
    }
}

impl Token for syntxToken {
    open spec fn spec_kind(&self) -> TokenKind {
        syntx_kind(self)
    }

    fn kind(&self) -> (r: TokenKind) {
        match self {
            syntxToken::EOF => TokenKind::Delimeter,
            syntxToken::Identifier(syntxIdentifier::syntxKeyword(_)) => TokenKind::Keyword,
            syntxToken::Identifier(syntxIdentifier::StringLiteral(_)) => TokenKind::Literal,
            syntxToken::Identifier(_) => TokenKind::Identifier,
            syntxToken::Operator(_) => TokenKind::Operator,
            syntxToken::Delimeter(syntxDelimeter::Whitespace) => TokenKind::Whitespace,
            syntxToken::Delimeter(syntxDelimeter::NewLine) => TokenKind::Whitespace,
            syntxToken::Delimeter(_) => TokenKind::Delimeter,
        }
    }
}

/// The escape map of the description format.
pub open spec fn syntx_escape(c: char) -> Option<char> {
    if c == 't' {
        Some('\t')
    } else if c == 'r' {
        Some('\r')
    } else if c == 'f' {
        Some('\u{c}')
    } else if c == '\\' {
        Some('\\')
    } else if c == 'b' {
        Some('\u{8}')
    } else if c == '\'' {
        Some('\'')
    } else if c == 'n' {
        Some('\n')
    } else if c == '"' {
        Some('"')
    } else {
        None
    }
}

impl Delimeted for syntxTokenSet {
    open spec fn spec_delimeter(c: u8) -> bool {
        c == ('=' as u8) || c == (';' as u8) || c == ('[' as u8) || c == (']' as u8) || c == (
        ',' as u8)
    }

    open spec fn spec_operator(s: Seq<u8>) -> bool {
        s.len() == 1 && s[0] == ('=' as u8)
    }

    open spec fn spec_line_trigger(c: char) -> Option<usize> {
        if c == '/' {
            Some(2)
        } else {
            None
        }
    }

    open spec fn spec_block_trigger(c: char) -> Option<(Seq<char>, usize)> {
        if c == '/' {
            Some((seq!['*', '/'], 2))
        } else {
            None
        }
    }

    open spec fn spec_line_start(s: Seq<char>) -> bool {
        s.len() == 2 && s[0] == '/' && s[1] == '/'
    }

    open spec fn spec_block_start(s: Seq<char>) -> bool {
        s.len() == 2 && s[0] == '/' && s[1] == '*'
    }

    open spec fn spec_number_char(c: char) -> bool {
        ascii_alphanumeric(c) || c == '-' || c == '+' || c == 'f' || c == 'F' || c == '.' || c
            == '_' || c == 'e' || c == 'E'
    }

    open spec fn spec_unicode_escape(c: char) -> Option<usize> {
        if c == 'u' {
            Some(4)
        } else if c == 'U' {
            Some(8)
        } else {
            None
        }
    }

    open spec fn spec_escape(c: char) -> Option<char> {
        syntx_escape(c)
    }

    fn is_delimeter(c: &u8) -> (r: bool) {
        let c = *c;
        c == ('=' as u8) || c == (';' as u8) || c == ('[' as u8) || c == (']' as u8) || c == (
        ',' as u8)
    }

    fn may_trigger_line_comment(c: char) -> (r: Option<usize>) {
        if c == '/' {
            Some(2)
        } else {
            None
        }
    }

    fn may_trigger_block_comment(c: char) -> (r: Option<(Vec<char>, usize)>) {
        if c == '/' {
            let v = vec!['*', '/'];
            assert(v@ =~= seq!['*', '/']);
            Some((v, 2))
        } else {
            None
        }
    }

    fn trigger_comment_line(c: &[char]) -> (r: bool) {
        c.len() == 2 && c[0] == '/' && c[1] == '/'
    }

    fn trigger_comment_block(c: &[char]) -> (r: bool) {
        c.len() == 2 && c[0] == '/' && c[1] == '*'
    }

    fn is_operator(c: &[u8]) -> (r: bool) {
        c.len() == 1 && c[0] == ('=' as u8)
    }

    fn allowed_number_chars(c: &char) -> (r: bool) {
        let c = *c;
        is_ascii_alphanumeric(c) || c == '-' || c == '+' || c == 'f' || c == 'F' || c == '.' || c
            == '_' || c == 'e' || c == 'E'
    }

    fn allowed_unicode_char(c: &char) -> (r: Option<usize>) {
        if *c == 'u' {
            Some(4)
        } else if *c == 'U' {
            Some(8)
        } else {
            None
        }
    }

    fn is_scape(c: &char) -> (r: Option<char>) {
        let c = *c;
        if c == 't' {
            Some('\t')
        } else if c == 'r' {
            Some('\r')
        } else if c == 'f' {
            Some('\u{c}')
        } else if c == '\\' {
            Some('\\')
        } else if c == 'b' {
            Some('\u{8}')
        } else if c == '\'' {
            Some('\'')
        } else if c == 'n' {
            Some('\n')
        } else if c == '"' {
            Some('"')
        } else {
            None
        }
    }
}

} // verus!
