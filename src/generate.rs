//! The generator: the text of the three source files that describe a
//! language to the engine, built from its description.
use crate::syntx::{Syntx, SyntxView};
use crate::textgen::{
    firsts, keys_of, lines_of, literal_pairs, literal_pairs_of, pair_lines, pair_lines_rev,
    push_key_lines, push_lines, push_pair_lines, push_pair_lines_rev, push_sep_lines, push_str,
    sep_lines,
};
use vstd::prelude::*;

verus! {

/// The text of a language's token-set file.
pub open spec fn tokenset_text(v: SyntxView) -> Seq<char> {
    Seq::<char>::empty() + "use crate::tokens::token_traits::{Token, TokenKind};\n#[derive(Debug, Clone, PartialEq)]\npub enum "@
        + v.name
        + "Token {\n    Identifier("@
        + v.name
        + "Identifier),\n    Operator("@
        + v.name
        + "Operator),\n    Delimeter("@
        + v.name
        + "Delimeter),\n    EOF,\n}\nimpl Token for "@
        + v.name
        + "Token {\n    fn kind(&self) -> TokenKind {\n        match self {\n            "@
        + v.name
        + "Token::EOF => TokenKind::Delimeter,\n            "@
        + v.name
        + "Token::Identifier("@
        + v.name
        + "Identifier::"@
        + v.name
        + "Keyword(_)) => TokenKind::Keyword,\n            "@
        + v.name
        + "Token::Identifier("@
        + v.name
        + "Identifier::StringLiteral(_)) => TokenKind::Literal,\n            "@
        + v.name
        + "Token::Identifier(_) => TokenKind::Identifier,\n            "@
        + v.name
        + "Token::Operator(_) => TokenKind::Operator,\n            "@
        + v.name
        + "Token::Delimeter("@
        + v.name
        + "Delimeter::Whitespace) => TokenKind::Whitespace,\n            "@
        + v.name
        + "Token::Delimeter("@
        + v.name
        + "Delimeter::NewLine) => TokenKind::Whitespace,\n            "@
        + v.name
        + "Token::Delimeter(_) => TokenKind::Delimeter,\n        }\n    }\n}\n\n#[derive(Debug, Clone, PartialEq)]\npub enum "@
        + v.name
        + "Identifier {\n    "@
        + v.name
        + "Keyword("@
        + v.name
        + "Keyword),\n    StringLiteral(String),\n    CharLiteral(String),\n    Integer(String, "@
        + v.name
        + "Base),\n    Float(f64),\n    Unknown(u64),\n}\n#[repr(u8)]\n#[derive(Debug, Clone, PartialEq, Copy, Eq)]\npub enum "@
        + v.name
        + "Operator {\n"@
        + lines_of(v.operators, "    "@, ",\n"@)
        + "}\n#[repr(u8)]\n#[derive(Debug, Clone, PartialEq, Copy, Eq)]\npub enum "@
        + v.name
        + "Delimeter {\n"@
        + lines_of(v.delimiters, "    "@, ",\n"@)
        + "   Whitespace,\n    NewLine,\n}\n#[repr(u8)]\n#[derive(Debug, Clone, PartialEq, Copy, Eq)]\npub enum "@
        + v.name
        + "Keyword {\n"@
        + lines_of(keys_of(v.keywords), "    "@, ",\n"@)
        + "}\n#[repr(u8)]\n#[derive(Debug, Clone, PartialEq, Copy, Eq)]\npub enum "@
        + v.name
        + "Base {\n    Decimal,\n    Hexadecimal,\n    Binary,\n    Octal,\n}\n#[derive(Hash, Debug, Clone, PartialEq, Eq, Default)]\npub struct "@
        + v.name
        + "TokenSet;\n"@
}

/// The text of a language's tables file. It needs the literal of every
/// delimiter and operator name.
pub open spec fn tables_text(v: SyntxView) -> Seq<char> {
    Seq::<char>::empty() + "use crate::langs::"@
        + v.name
        + "::"@
        + v.name
        + "_tokenset::*;\nuse crate::tokens::token_traits::Delimeted;\n\nimpl Delimeted for "@
        + v.name
        + "TokenSet {\n    #[inline(always)]\n    fn allowed_unicode_char(c: &char) -> Option<usize> {\n        match c {\n            'u' => Some(4),\n            'U' => Some(8),\n            _ => None,\n        }\n    }\n\n\t#[inline(always)]\n    fn is_scape(c: &char) -> Option<char> {\n        match c {\n"@
        + pair_lines(v.scapes, "\t\t\t'"@, "' => Some('"@, "'),\n"@)
        + "\t\t\t_ => None\n\t\t}\n\t}\n\n\t#[inline(always)]\n    fn may_trigger_line_comment(c: char) -> Option<usize> {\n        if \""@
        + v.line_comment
        + "\".starts_with(c) { Some(\""@
        + v.line_comment
        + "\".chars().count()) } else { None }\n    }\n\n\t#[inline(always)]\n    fn trigger_comment_line(input: &[char]) -> bool {\n        input.iter().copied().eq(\""@
        + v.line_comment
        + "\".chars())\n    }\n\n    #[inline(always)]\n    fn may_trigger_block_comment(c: char) -> Option<(Vec<char>, usize)> {\n        if \""@
        + v.block_comment.0
        + "\".starts_with(c) {\n            Some((\""@
        + v.block_comment.1
        + "\".chars().collect(), \""@
        + v.block_comment.0
        + "\".chars().count()))\n        } else {\n            None\n        }\n    }\n\n\t#[inline(always)]\n    fn is_delimeter(c: &u8) -> bool {\n        matches!(\n            c,\n"@
        + sep_lines(keys_of(literal_pairs(v.tokens, v.delimiters)->0), "\t\t\tb'"@, "\t\t\t| b'"@, "'\n"@)
        + "\t\t)\n\t}\n\n\t#[inline(always)]\n    fn trigger_comment_block(input: &[char]) -> bool {\n        input.iter().copied().eq(\""@
        + v.block_comment.0
        + "\".chars())\n    }\n\n\t#[inline(always)]\n    fn is_operator(s: &[u8]) -> bool {\n        matches!(\n            s,\n"@
        + sep_lines(keys_of(literal_pairs(v.tokens, v.operators)->0), "\t\t\tb\""@, "\t\t\t | b\""@, "\"\n"@)
        + "\t\t)\n\t}\n\n\t#[inline(always)]\n    fn allowed_number_chars(c: &char) -> bool {\n        c.is_ascii_alphanumeric() || matches!(c,"@
        + sep_lines(v.numbers, " '"@, "\t\t\t | '"@, "'\n"@)
        + "\t\t)\n\t}\n}"@
}

/// The text of a language's token-inference file. It needs the literal of
/// every delimiter and operator name.
pub open spec fn inference_text(v: SyntxView) -> Seq<char> {
    Seq::<char>::empty() + "use crate::engine::normalize::normalize;\nuse crate::engine::states::State;\nuse crate::langs::"@
        + v.name
        + "::"@
        + v.name
        + "_tokenset::*;\nuse crate::tokens::token_traits::{Lexable, Delimeted };\nuse std::borrow::Cow;\n\nimpl Lexable for "@
        + v.name
        + "TokenSet {\n    type Token = "@
        + v.name
        + "Token;\n    fn infer_token(s: String, state: &mut State<Self>) -> Option<Self::Token> {\n        let raw = s.as_str();\n        if state.in_char {\n            return Some("@
        + v.name
        + "Token::Identifier("@
        + v.name
        + "Identifier::CharLiteral(s)));\n        }\n        if state.in_str {\n            return Some("@
        + v.name
        + "Token::Identifier("@
        + v.name
        + "Identifier::StringLiteral(s)));\n        }\n        if "@
        + v.name
        + "TokenSet::is_operator(s.as_bytes()) {\n            return Some(match s.as_bytes() {\n"@
        + pair_lines(literal_pairs(v.tokens, v.operators)->0, "                b\""@, (Seq::<char>::empty() + "\" => "@ + v.name + "Token::Operator("@ + v.name + "Operator::"@), "),\n"@)
        + "                _ => "@
        + v.name
        + "Token::Identifier("@
        + v.name
        + "Identifier::Unknown(normalize(&s.as_bytes(), state.brace_level))),\n            });\n        }\n        if let Some(&first) = s.as_bytes().first() {\n            if "@
        + v.name
        + "TokenSet::is_delimeter(&first) {\n                return Some(match s.as_bytes() {\n"@
        + pair_lines(literal_pairs(v.tokens, v.delimiters)->0, "                    b\""@, (Seq::<char>::empty() + "\" => "@ + v.name + "Token::Delimeter("@ + v.name + "Delimeter::"@), "),\n"@)
        + "                    _ => "@
        + v.name
        + "Token::Identifier("@
        + v.name
        + "Identifier::Unknown(normalize(&s.as_bytes(), state.brace_level))),\n                });\n            }\n        }\n        match s.as_bytes() {\n"@
        + pair_lines_rev(v.keywords, "            b\""@, (Seq::<char>::empty() + "\" => { return Some("@ + v.name + "Token::Identifier("@ + v.name + "Identifier::"@ + v.name + "Keyword("@ + v.name + "Keyword::"@), "))); },\n"@)
        + "            _ => { },\n        }\n        if !state.in_str && !state.in_char {\n            let mut is_float = false;\n            let mut all_digits = true;\n            for b in raw.chars() {\n                if "@
        + v.name
        + "TokenSet::allowed_number_chars(&b) {\n                    match b {\n                        '.' | 'e' | 'E' | 'f' | 'F' => is_float = true,\n                        _ => {}\n                    }\n                } else {\n                    all_digits = false;\n                    break;\n                }\n            }\n\n            if is_float {\n                let cleaned = if raw.contains('_') {\n                    Cow::Owned(raw.replace('_', \"\"))\n                } else {\n                    Cow::Borrowed(raw)\n                };\n                if let Ok(f) = cleaned.parse::<f64>() {\n                    return Some("@
        + v.name
        + "Token::Identifier("@
        + v.name
        + "Identifier::Float(f)));\n                }\n            } else if all_digits {\n                return Some("@
        + v.name
        + "Token::Identifier("@
        + v.name
        + "Identifier::Integer(s, "@
        + v.name
        + "Base::Decimal)));\n            }\n\n            if raw.starts_with(\"0x\") {\n                return Some("@
        + v.name
        + "Token::Identifier("@
        + v.name
        + "Identifier::Integer(s, "@
        + v.name
        + "Base::Hexadecimal)));\n            } else if raw.starts_with(\"0b\") {\n                return Some("@
        + v.name
        + "Token::Identifier("@
        + v.name
        + "Identifier::Integer(s, "@
        + v.name
        + "Base::Binary)));\n            } else if raw.starts_with(\"0o\") {\n                return Some("@
        + v.name
        + "Token::Identifier("@
        + v.name
        + "Identifier::Integer(s, "@
        + v.name
        + "Base::Octal)));\n            }\n        }        Some("@
        + v.name
        + "Token::Identifier("@
        + v.name
        + "Identifier::Unknown(normalize(&s.as_bytes(), state.brace_level))))\n    }\n}\n"@
}

/// Every delimiter and operator name has an entry in the `[tokens]` section.
pub open spec fn names_resolved(v: SyntxView) -> bool {
    literal_pairs(v.tokens, v.delimiters) is Some && literal_pairs(v.tokens, v.operators) is Some
}

/// Builds the token-set file of a language.
pub fn tokenset_source(stx: &Syntx) -> (r: String)
    ensures
        r@ == tokenset_text(stx@),
{
    let mut s = String::new();
        push_str(&mut s, "use crate::tokens::token_traits::{Token, TokenKind};\n#[derive(Debug, Clone, PartialEq)]\npub enum ");
        push_str(&mut s, stx.name.as_str());
        push_str(&mut s, "Token {\n    Identifier(");
        push_str(&mut s, stx.name.as_str());
        push_str(&mut s, "Identifier),\n    Operator(");
        push_str(&mut s, stx.name.as_str());
        push_str(&mut s, "Operator),\n    Delimeter(");
        push_str(&mut s, stx.name.as_str());
        push_str(&mut s, "Delimeter),\n    EOF,\n}\nimpl Token for ");
        push_str(&mut s, stx.name.as_str());
        push_str(&mut s, "Token {\n    fn kind(&self) -> TokenKind {\n        match self {\n            ");
        push_str(&mut s, stx.name.as_str());
        push_str(&mut s, "Token::EOF => TokenKind::Delimeter,\n            ");
        push_str(&mut s, stx.name.as_str());
        push_str(&mut s, "Token::Identifier(");
        push_str(&mut s, stx.name.as_str());
        push_str(&mut s, "Identifier::");
        push_str(&mut s, stx.name.as_str());
        push_str(&mut s, "Keyword(_)) => TokenKind::Keyword,\n            ");
        push_str(&mut s, stx.name.as_str());
        push_str(&mut s, "Token::Identifier(");
        push_str(&mut s, stx.name.as_str());
        push_str(&mut s, "Identifier::StringLiteral(_)) => TokenKind::Literal,\n            ");
        push_str(&mut s, stx.name.as_str());
        push_str(&mut s, "Token::Identifier(_) => TokenKind::Identifier,\n            ");
        push_str(&mut s, stx.name.as_str());
        push_str(&mut s, "Token::Operator(_) => TokenKind::Operator,\n            ");
        push_str(&mut s, stx.name.as_str());
        push_str(&mut s, "Token::Delimeter(");
        push_str(&mut s, stx.name.as_str());
        push_str(&mut s, "Delimeter::Whitespace) => TokenKind::Whitespace,\n            ");
        push_str(&mut s, stx.name.as_str());
        push_str(&mut s, "Token::Delimeter(");
        push_str(&mut s, stx.name.as_str());
        push_str(&mut s, "Delimeter::NewLine) => TokenKind::Whitespace,\n            ");
        push_str(&mut s, stx.name.as_str());
        push_str(&mut s, "Token::Delimeter(_) => TokenKind::Delimeter,\n        }\n    }\n}\n\n#[derive(Debug, Clone, PartialEq)]\npub enum ");
        push_str(&mut s, stx.name.as_str());
        push_str(&mut s, "Identifier {\n    ");
        push_str(&mut s, stx.name.as_str());
        push_str(&mut s, "Keyword(");
        push_str(&mut s, stx.name.as_str());
        push_str(&mut s, "Keyword),\n    StringLiteral(String),\n    CharLiteral(String),\n    Integer(String, ");
        push_str(&mut s, stx.name.as_str());
        push_str(&mut s, "Base),\n    Float(f64),\n    Unknown(u64),\n}\n#[repr(u8)]\n#[derive(Debug, Clone, PartialEq, Copy, Eq)]\npub enum ");
        push_str(&mut s, stx.name.as_str());
        push_str(&mut s, "Operator {\n");
        push_lines(&mut s, &stx.operators, "    ", ",\n");
        push_str(&mut s, "}\n#[repr(u8)]\n#[derive(Debug, Clone, PartialEq, Copy, Eq)]\npub enum ");
        push_str(&mut s, stx.name.as_str());
        push_str(&mut s, "Delimeter {\n");
        push_lines(&mut s, &stx.delimiters, "    ", ",\n");
        push_str(&mut s, "   Whitespace,\n    NewLine,\n}\n#[repr(u8)]\n#[derive(Debug, Clone, PartialEq, Copy, Eq)]\npub enum ");
        push_str(&mut s, stx.name.as_str());
        push_str(&mut s, "Keyword {\n");
        push_key_lines(&mut s, &stx.keywords, "    ", ",\n");
        push_str(&mut s, "}\n#[repr(u8)]\n#[derive(Debug, Clone, PartialEq, Copy, Eq)]\npub enum ");
        push_str(&mut s, stx.name.as_str());
        push_str(&mut s, "Base {\n    Decimal,\n    Hexadecimal,\n    Binary,\n    Octal,\n}\n#[derive(Hash, Debug, Clone, PartialEq, Eq, Default)]\npub struct ");
        push_str(&mut s, stx.name.as_str());
        push_str(&mut s, "TokenSet;\n");
    s
}

/// Builds the tables file of a language; `None` when a delimiter or operator
/// name has no literal.
pub fn tables_source(stx: &Syntx) -> (r: Option<String>)
    ensures
        r is Some <==> names_resolved(stx@),
        r matches Some(t) ==> t@ == tables_text(stx@),
{
    let dp = match literal_pairs_of(stx, &stx.delimiters) {
        Some(p) => p,
        None => return None,
    };
    let op = match literal_pairs_of(stx, &stx.operators) {
        Some(p) => p,
        None => return None,
    };
    let dl = firsts(&dp);
    let ol = firsts(&op);
    let mut s = String::new();
        push_str(&mut s, "use crate::langs::");
        push_str(&mut s, stx.name.as_str());
        push_str(&mut s, "::");
        push_str(&mut s, stx.name.as_str());
        push_str(&mut s, "_tokenset::*;\nuse crate::tokens::token_traits::Delimeted;\n\nimpl Delimeted for ");
        push_str(&mut s, stx.name.as_str());
        push_str(&mut s, "TokenSet {\n    #[inline(always)]\n    fn allowed_unicode_char(c: &char) -> Option<usize> {\n        match c {\n            'u' => Some(4),\n            'U' => Some(8),\n            _ => None,\n        }\n    }\n\n\t#[inline(always)]\n    fn is_scape(c: &char) -> Option<char> {\n        match c {\n");
        push_pair_lines(&mut s, &stx.scapes, "\t\t\t'", "' => Some('", "'),\n");
        push_str(&mut s, "\t\t\t_ => None\n\t\t}\n\t}\n\n\t#[inline(always)]\n    fn may_trigger_line_comment(c: char) -> Option<usize> {\n        if \"");
        push_str(&mut s, stx.line_comment.as_str());
        push_str(&mut s, "\".starts_with(c) { Some(\"");
        push_str(&mut s, stx.line_comment.as_str());
        push_str(&mut s, "\".chars().count()) } else { None }\n    }\n\n\t#[inline(always)]\n    fn trigger_comment_line(input: &[char]) -> bool {\n        input.iter().copied().eq(\"");
        push_str(&mut s, stx.line_comment.as_str());
        push_str(&mut s, "\".chars())\n    }\n\n    #[inline(always)]\n    fn may_trigger_block_comment(c: char) -> Option<(Vec<char>, usize)> {\n        if \"");
        push_str(&mut s, stx.block_start.as_str());
        push_str(&mut s, "\".starts_with(c) {\n            Some((\"");
        push_str(&mut s, stx.block_end.as_str());
        push_str(&mut s, "\".chars().collect(), \"");
        push_str(&mut s, stx.block_start.as_str());
        push_str(&mut s, "\".chars().count()))\n        } else {\n            None\n        }\n    }\n\n\t#[inline(always)]\n    fn is_delimeter(c: &u8) -> bool {\n        matches!(\n            c,\n");
        push_sep_lines(&mut s, &dl, "\t\t\tb'", "\t\t\t| b'", "'\n");
        push_str(&mut s, "\t\t)\n\t}\n\n\t#[inline(always)]\n    fn trigger_comment_block(input: &[char]) -> bool {\n        input.iter().copied().eq(\"");
        push_str(&mut s, stx.block_start.as_str());
        push_str(&mut s, "\".chars())\n    }\n\n\t#[inline(always)]\n    fn is_operator(s: &[u8]) -> bool {\n        matches!(\n            s,\n");
        push_sep_lines(&mut s, &ol, "\t\t\tb\"", "\t\t\t | b\"", "\"\n");
        push_str(&mut s, "\t\t)\n\t}\n\n\t#[inline(always)]\n    fn allowed_number_chars(c: &char) -> bool {\n        c.is_ascii_alphanumeric() || matches!(c,");
        push_sep_lines(&mut s, &stx.numbers, " '", "\t\t\t | '", "'\n");
        push_str(&mut s, "\t\t)\n\t}\n}");
    Some(s)
}

/// Builds the token-inference file of a language; `None` when a delimiter or
/// operator name has no literal.
pub fn inference_source(stx: &Syntx) -> (r: Option<String>)
    ensures
        r is Some <==> names_resolved(stx@),
        r matches Some(t) ==> t@ == inference_text(stx@),
{
    let dels = match literal_pairs_of(stx, &stx.delimiters) {
        Some(p) => p,
        None => return None,
    };
    let ops = match literal_pairs_of(stx, &stx.operators) {
        Some(p) => p,
        None => return None,
    };
    let mut s = String::new();
        push_str(&mut s, "use crate::engine::normalize::normalize;\nuse crate::engine::states::State;\nuse crate::langs::");
        push_str(&mut s, stx.name.as_str());
        push_str(&mut s, "::");
        push_str(&mut s, stx.name.as_str());
        push_str(&mut s, "_tokenset::*;\nuse crate::tokens::token_traits::{Lexable, Delimeted };\nuse std::borrow::Cow;\n\nimpl Lexable for ");
        push_str(&mut s, stx.name.as_str());
        push_str(&mut s, "TokenSet {\n    type Token = ");
        push_str(&mut s, stx.name.as_str());
        push_str(&mut s, "Token;\n    fn infer_token(s: String, state: &mut State<Self>) -> Option<Self::Token> {\n        let raw = s.as_str();\n        if state.in_char {\n            return Some(");
        push_str(&mut s, stx.name.as_str());
        push_str(&mut s, "Token::Identifier(");
        push_str(&mut s, stx.name.as_str());
        push_str(&mut s, "Identifier::CharLiteral(s)));\n        }\n        if state.in_str {\n            return Some(");
        push_str(&mut s, stx.name.as_str());
        push_str(&mut s, "Token::Identifier(");
        push_str(&mut s, stx.name.as_str());
        push_str(&mut s, "Identifier::StringLiteral(s)));\n        }\n        if ");
        push_str(&mut s, stx.name.as_str());
        push_str(&mut s, "TokenSet::is_operator(s.as_bytes()) {\n            return Some(match s.as_bytes() {\n");
        let mut t1 = String::new();
        push_str(&mut t1, "\" => ");
        push_str(&mut t1, stx.name.as_str());
        push_str(&mut t1, "Token::Operator(");
        push_str(&mut t1, stx.name.as_str());
        push_str(&mut t1, "Operator::");
        assert(t1@ =~= Seq::<char>::empty() + "\" => "@ + stx@.name + "Token::Operator("@ + stx@.name + "Operator::"@);
        push_pair_lines(&mut s, &ops, "                b\"", t1.as_str(), "),\n");
        push_str(&mut s, "                _ => ");
        push_str(&mut s, stx.name.as_str());
        push_str(&mut s, "Token::Identifier(");
        push_str(&mut s, stx.name.as_str());
        push_str(&mut s, "Identifier::Unknown(normalize(&s.as_bytes(), state.brace_level))),\n            });\n        }\n        if let Some(&first) = s.as_bytes().first() {\n            if ");
        push_str(&mut s, stx.name.as_str());
        push_str(&mut s, "TokenSet::is_delimeter(&first) {\n                return Some(match s.as_bytes() {\n");
        let mut t2 = String::new();
        push_str(&mut t2, "\" => ");
        push_str(&mut t2, stx.name.as_str());
        push_str(&mut t2, "Token::Delimeter(");
        push_str(&mut t2, stx.name.as_str());
        push_str(&mut t2, "Delimeter::");
        assert(t2@ =~= Seq::<char>::empty() + "\" => "@ + stx@.name + "Token::Delimeter("@ + stx@.name + "Delimeter::"@);
        push_pair_lines(&mut s, &dels, "                    b\"", t2.as_str(), "),\n");
        push_str(&mut s, "                    _ => ");
        push_str(&mut s, stx.name.as_str());
        push_str(&mut s, "Token::Identifier(");
        push_str(&mut s, stx.name.as_str());
        push_str(&mut s, "Identifier::Unknown(normalize(&s.as_bytes(), state.brace_level))),\n                });\n            }\n        }\n        match s.as_bytes() {\n");
        let mut t3 = String::new();
        push_str(&mut t3, "\" => { return Some(");
        push_str(&mut t3, stx.name.as_str());
        push_str(&mut t3, "Token::Identifier(");
        push_str(&mut t3, stx.name.as_str());
        push_str(&mut t3, "Identifier::");
        push_str(&mut t3, stx.name.as_str());
        push_str(&mut t3, "Keyword(");
        push_str(&mut t3, stx.name.as_str());
        push_str(&mut t3, "Keyword::");
        assert(t3@ =~= Seq::<char>::empty() + "\" => { return Some("@ + stx@.name + "Token::Identifier("@ + stx@.name + "Identifier::"@ + stx@.name + "Keyword("@ + stx@.name + "Keyword::"@);
        push_pair_lines_rev(&mut s, &stx.keywords, "            b\"", t3.as_str(), "))); },\n");
        push_str(&mut s, "            _ => { },\n        }\n        if !state.in_str && !state.in_char {\n            let mut is_float = false;\n            let mut all_digits = true;\n            for b in raw.chars() {\n                if ");
        push_str(&mut s, stx.name.as_str());
        push_str(&mut s, "TokenSet::allowed_number_chars(&b) {\n                    match b {\n                        '.' | 'e' | 'E' | 'f' | 'F' => is_float = true,\n                        _ => {}\n                    }\n                } else {\n                    all_digits = false;\n                    break;\n                }\n            }\n\n            if is_float {\n                let cleaned = if raw.contains('_') {\n                    Cow::Owned(raw.replace('_', \"\"))\n                } else {\n                    Cow::Borrowed(raw)\n                };\n                if let Ok(f) = cleaned.parse::<f64>() {\n                    return Some(");
        push_str(&mut s, stx.name.as_str());
        push_str(&mut s, "Token::Identifier(");
        push_str(&mut s, stx.name.as_str());
        push_str(&mut s, "Identifier::Float(f)));\n                }\n            } else if all_digits {\n                return Some(");
        push_str(&mut s, stx.name.as_str());
        push_str(&mut s, "Token::Identifier(");
        push_str(&mut s, stx.name.as_str());
        push_str(&mut s, "Identifier::Integer(s, ");
        push_str(&mut s, stx.name.as_str());
        push_str(&mut s, "Base::Decimal)));\n            }\n\n            if raw.starts_with(\"0x\") {\n                return Some(");
        push_str(&mut s, stx.name.as_str());
        push_str(&mut s, "Token::Identifier(");
        push_str(&mut s, stx.name.as_str());
        push_str(&mut s, "Identifier::Integer(s, ");
        push_str(&mut s, stx.name.as_str());
        push_str(&mut s, "Base::Hexadecimal)));\n            } else if raw.starts_with(\"0b\") {\n                return Some(");
        push_str(&mut s, stx.name.as_str());
        push_str(&mut s, "Token::Identifier(");
        push_str(&mut s, stx.name.as_str());
        push_str(&mut s, "Identifier::Integer(s, ");
        push_str(&mut s, stx.name.as_str());
        push_str(&mut s, "Base::Binary)));\n            } else if raw.starts_with(\"0o\") {\n                return Some(");
        push_str(&mut s, stx.name.as_str());
        push_str(&mut s, "Token::Identifier(");
        push_str(&mut s, stx.name.as_str());
        push_str(&mut s, "Identifier::Integer(s, ");
        push_str(&mut s, stx.name.as_str());
        push_str(&mut s, "Base::Octal)));\n            }\n        }        Some(");
        push_str(&mut s, stx.name.as_str());
        push_str(&mut s, "Token::Identifier(");
        push_str(&mut s, stx.name.as_str());
        push_str(&mut s, "Identifier::Unknown(normalize(&s.as_bytes(), state.brace_level))))\n    }\n}\n");
    Some(s)
}

} // verus!
