//! The Java language tables: delimiters, operators, keywords, escapes,
//! comment markers and numeric-literal characters.
use crate::java_tokenset::{JavaDelimeters, JavaKeyword, JavaOperator, JavaTokenSet};
use crate::text::{ascii_alphanumeric, is_ascii_alphanumeric};
use crate::tokens::Delimeted;
use vstd::prelude::*;

verus! {

/// The operator that a byte string spells, if any.
pub open spec fn java_operator(s: Seq<u8>) -> Option<JavaOperator> {
    if s.len() == 1 && s[0] == ('!' as u8) {
        Some(JavaOperator::Not)
    } else if s.len() == 1 && s[0] == ('.' as u8) {
        Some(JavaOperator::Dot)
    } else if s.len() == 1 && s[0] == ('@' as u8) {
        Some(JavaOperator::At)
    } else if s.len() == 1 && s[0] == ('>' as u8) {
        Some(JavaOperator::Gt)
    } else if s.len() == 2 && s[0] == ('>' as u8) && s[1] == ('=' as u8) {
        Some(JavaOperator::Geq)
    } else if s.len() == 1 && s[0] == ('<' as u8) {
        Some(JavaOperator::Lt)
    } else if s.len() == 2 && s[0] == ('<' as u8) && s[1] == ('=' as u8) {
        Some(JavaOperator::Leq)
    } else if s.len() == 2 && s[0] == ('>' as u8) && s[1] == ('>' as u8) {
        Some(JavaOperator::BitShiftRight)
    } else if s.len() == 2 && s[0] == ('<' as u8) && s[1] == ('<' as u8) {
        Some(JavaOperator::BitShiftLeft)
    } else if s.len() == 3 && s[0] == ('>' as u8) && s[1] == ('>' as u8) && s[2] == ('>' as u8) {
        Some(JavaOperator::UBitShiftRight)
    } else if s.len() == 3 && s[0] == ('>' as u8) && s[1] == ('>' as u8) && s[2] == ('=' as u8) {
        Some(JavaOperator::BitShiftRightEq)
    } else if s.len() == 3 && s[0] == ('<' as u8) && s[1] == ('<' as u8) && s[2] == ('=' as u8) {
        Some(JavaOperator::BitShiftLeftEq)
    } else if s.len() == 4 && s[0] == ('>' as u8) && s[1] == ('>' as u8) && s[2] == ('>' as u8) && s[3] == ('=' as u8) {
        Some(JavaOperator::UBitShiftRightEq)
    } else if s.len() == 1 && s[0] == ('+' as u8) {
        Some(JavaOperator::Plus)
    } else if s.len() == 1 && s[0] == ('-' as u8) {
        Some(JavaOperator::Minus)
    } else if s.len() == 1 && s[0] == ('*' as u8) {
        Some(JavaOperator::Mul)
    } else if s.len() == 1 && s[0] == ('=' as u8) {
        Some(JavaOperator::Assign)
    } else if s.len() == 2 && s[0] == ('=' as u8) && s[1] == ('=' as u8) {
        Some(JavaOperator::Eq)
    } else if s.len() == 1 && s[0] == ('/' as u8) {
        Some(JavaOperator::Div)
    } else if s.len() == 2 && s[0] == ('+' as u8) && s[1] == ('=' as u8) {
        Some(JavaOperator::PlusEq)
    } else if s.len() == 2 && s[0] == ('-' as u8) && s[1] == ('=' as u8) {
        Some(JavaOperator::MinusEq)
    } else if s.len() == 2 && s[0] == ('*' as u8) && s[1] == ('=' as u8) {
        Some(JavaOperator::MulEq)
    } else if s.len() == 2 && s[0] == ('/' as u8) && s[1] == ('=' as u8) {
        Some(JavaOperator::DivEq)
    } else if s.len() == 1 && s[0] == ('%' as u8) {
        Some(JavaOperator::Mod)
    } else if s.len() == 2 && s[0] == ('%' as u8) && s[1] == ('=' as u8) {
        Some(JavaOperator::ModEq)
    } else if s.len() == 2 && s[0] == ('+' as u8) && s[1] == ('+' as u8) {
        Some(JavaOperator::Increment)
    } else if s.len() == 2 && s[0] == ('-' as u8) && s[1] == ('-' as u8) {
        Some(JavaOperator::Decrement)
    } else if s.len() == 1 && s[0] == ('&' as u8) {
        Some(JavaOperator::BitAnd)
    } else if s.len() == 2 && s[0] == ('&' as u8) && s[1] == ('=' as u8) {
        Some(JavaOperator::AndEq)
    } else if s.len() == 1 && s[0] == ('^' as u8) {
        Some(JavaOperator::BitXor)
    } else if s.len() == 2 && s[0] == ('^' as u8) && s[1] == ('=' as u8) {
        Some(JavaOperator::XorEq)
    } else if s.len() == 1 && s[0] == ('~' as u8) {
        Some(JavaOperator::BitCompl)
    } else if s.len() == 1 && s[0] == ('|' as u8) {
        Some(JavaOperator::BitOr)
    } else if s.len() == 2 && s[0] == ('|' as u8) && s[1] == ('=' as u8) {
        Some(JavaOperator::OrEq)
    } else if s.len() == 2 && s[0] == ('!' as u8) && s[1] == ('=' as u8) {
        Some(JavaOperator::Neq)
    } else if s.len() == 2 && s[0] == ('&' as u8) && s[1] == ('&' as u8) {
        Some(JavaOperator::And)
    } else if s.len() == 2 && s[0] == ('|' as u8) && s[1] == ('|' as u8) {
        Some(JavaOperator::Or)
    } else if s.len() == 1 && s[0] == ('?' as u8) {
        Some(JavaOperator::Qmark)
    } else if s.len() == 10 && s[0] == ('i' as u8) && s[1] == ('n' as u8) && s[2] == ('s' as u8) && s[3] == ('t' as u8) && s[4] == ('a' as u8) && s[5] == ('n' as u8) && s[6] == ('c' as u8) && s[7] == ('e' as u8) && s[8] == ('o' as u8) && s[9] == ('f' as u8) {
        Some(JavaOperator::Instanceof)
    } else {
        None
    }
}

/// Looks up the operator that a byte string spells.
pub fn operator_id(s: &[u8]) -> (r: Option<JavaOperator>)
    ensures
        r == java_operator(s@),
{
    if s.len() == 1 && s[0] == ('!' as u8) {
        Some(JavaOperator::Not)
    } else if s.len() == 1 && s[0] == ('.' as u8) {
        Some(JavaOperator::Dot)
    } else if s.len() == 1 && s[0] == ('@' as u8) {
        Some(JavaOperator::At)
    } else if s.len() == 1 && s[0] == ('>' as u8) {
        Some(JavaOperator::Gt)
    } else if s.len() == 2 && s[0] == ('>' as u8) && s[1] == ('=' as u8) {
        Some(JavaOperator::Geq)
    } else if s.len() == 1 && s[0] == ('<' as u8) {
        Some(JavaOperator::Lt)
    } else if s.len() == 2 && s[0] == ('<' as u8) && s[1] == ('=' as u8) {
        Some(JavaOperator::Leq)
    } else if s.len() == 2 && s[0] == ('>' as u8) && s[1] == ('>' as u8) {
        Some(JavaOperator::BitShiftRight)
    } else if s.len() == 2 && s[0] == ('<' as u8) && s[1] == ('<' as u8) {
        Some(JavaOperator::BitShiftLeft)
    } else if s.len() == 3 && s[0] == ('>' as u8) && s[1] == ('>' as u8) && s[2] == ('>' as u8) {
        Some(JavaOperator::UBitShiftRight)
    } else if s.len() == 3 && s[0] == ('>' as u8) && s[1] == ('>' as u8) && s[2] == ('=' as u8) {
        Some(JavaOperator::BitShiftRightEq)
    } else if s.len() == 3 && s[0] == ('<' as u8) && s[1] == ('<' as u8) && s[2] == ('=' as u8) {
        Some(JavaOperator::BitShiftLeftEq)
    } else if s.len() == 4 && s[0] == ('>' as u8) && s[1] == ('>' as u8) && s[2] == ('>' as u8) && s[3] == ('=' as u8) {
        Some(JavaOperator::UBitShiftRightEq)
    } else if s.len() == 1 && s[0] == ('+' as u8) {
        Some(JavaOperator::Plus)
    } else if s.len() == 1 && s[0] == ('-' as u8) {
        Some(JavaOperator::Minus)
    } else if s.len() == 1 && s[0] == ('*' as u8) {
        Some(JavaOperator::Mul)
    } else if s.len() == 1 && s[0] == ('=' as u8) {
        Some(JavaOperator::Assign)
    } else if s.len() == 2 && s[0] == ('=' as u8) && s[1] == ('=' as u8) {
        Some(JavaOperator::Eq)
    } else if s.len() == 1 && s[0] == ('/' as u8) {
        Some(JavaOperator::Div)
    } else if s.len() == 2 && s[0] == ('+' as u8) && s[1] == ('=' as u8) {
        Some(JavaOperator::PlusEq)
    } else if s.len() == 2 && s[0] == ('-' as u8) && s[1] == ('=' as u8) {
        Some(JavaOperator::MinusEq)
    } else if s.len() == 2 && s[0] == ('*' as u8) && s[1] == ('=' as u8) {
        Some(JavaOperator::MulEq)
    } else if s.len() == 2 && s[0] == ('/' as u8) && s[1] == ('=' as u8) {
        Some(JavaOperator::DivEq)
    } else if s.len() == 1 && s[0] == ('%' as u8) {
        Some(JavaOperator::Mod)
    } else if s.len() == 2 && s[0] == ('%' as u8) && s[1] == ('=' as u8) {
        Some(JavaOperator::ModEq)
    } else if s.len() == 2 && s[0] == ('+' as u8) && s[1] == ('+' as u8) {
        Some(JavaOperator::Increment)
    } else if s.len() == 2 && s[0] == ('-' as u8) && s[1] == ('-' as u8) {
        Some(JavaOperator::Decrement)
    } else if s.len() == 1 && s[0] == ('&' as u8) {
        Some(JavaOperator::BitAnd)
    } else if s.len() == 2 && s[0] == ('&' as u8) && s[1] == ('=' as u8) {
        Some(JavaOperator::AndEq)
    } else if s.len() == 1 && s[0] == ('^' as u8) {
        Some(JavaOperator::BitXor)
    } else if s.len() == 2 && s[0] == ('^' as u8) && s[1] == ('=' as u8) {
        Some(JavaOperator::XorEq)
    } else if s.len() == 1 && s[0] == ('~' as u8) {
        Some(JavaOperator::BitCompl)
    } else if s.len() == 1 && s[0] == ('|' as u8) {
        Some(JavaOperator::BitOr)
    } else if s.len() == 2 && s[0] == ('|' as u8) && s[1] == ('=' as u8) {
        Some(JavaOperator::OrEq)
    } else if s.len() == 2 && s[0] == ('!' as u8) && s[1] == ('=' as u8) {
        Some(JavaOperator::Neq)
    } else if s.len() == 2 && s[0] == ('&' as u8) && s[1] == ('&' as u8) {
        Some(JavaOperator::And)
    } else if s.len() == 2 && s[0] == ('|' as u8) && s[1] == ('|' as u8) {
        Some(JavaOperator::Or)
    } else if s.len() == 1 && s[0] == ('?' as u8) {
        Some(JavaOperator::Qmark)
    } else if s.len() == 10 && s[0] == ('i' as u8) && s[1] == ('n' as u8) && s[2] == ('s' as u8) && s[3] == ('t' as u8) && s[4] == ('a' as u8) && s[5] == ('n' as u8) && s[6] == ('c' as u8) && s[7] == ('e' as u8) && s[8] == ('o' as u8) && s[9] == ('f' as u8) {
        Some(JavaOperator::Instanceof)
    } else {
        None
    }
}

/// The keyword that a lexeme spells, if any (`String` counts as `class`).
pub open spec fn java_keyword(s: Seq<char>) -> Option<JavaKeyword> {
    if s.len() == 7 && s[0] == 'b' && s[1] == 'o' && s[2] == 'o' && s[3] == 'l' && s[4] == 'e' && s[5] == 'a' && s[6] == 'n' {
        Some(JavaKeyword::Boolean)
    } else if s.len() == 4 && s[0] == 'b' && s[1] == 'y' && s[2] == 't' && s[3] == 'e' {
        Some(JavaKeyword::Byte)
    } else if s.len() == 4 && s[0] == 'c' && s[1] == 'h' && s[2] == 'a' && s[3] == 'r' {
        Some(JavaKeyword::Char)
    } else if s.len() == 5 && s[0] == 's' && s[1] == 'h' && s[2] == 'o' && s[3] == 'r' && s[4] == 't' {
        Some(JavaKeyword::Short)
    } else if s.len() == 3 && s[0] == 'i' && s[1] == 'n' && s[2] == 't' {
        Some(JavaKeyword::Int)
    } else if s.len() == 4 && s[0] == 'l' && s[1] == 'o' && s[2] == 'n' && s[3] == 'g' {
        Some(JavaKeyword::Long)
    } else if s.len() == 5 && s[0] == 'f' && s[1] == 'l' && s[2] == 'o' && s[3] == 'a' && s[4] == 't' {
        Some(JavaKeyword::Float)
    } else if s.len() == 6 && s[0] == 'd' && s[1] == 'o' && s[2] == 'u' && s[3] == 'b' && s[4] == 'l' && s[5] == 'e' {
        Some(JavaKeyword::Double)
    } else if s.len() == 4 && s[0] == 'v' && s[1] == 'o' && s[2] == 'i' && s[3] == 'd' {
        Some(JavaKeyword::Void)
    } else if s.len() == 6 && s[0] == 'S' && s[1] == 't' && s[2] == 'r' && s[3] == 'i' && s[4] == 'n' && s[5] == 'g' {
        Some(JavaKeyword::Class)
    } else if s.len() == 5 && s[0] == 'c' && s[1] == 'l' && s[2] == 'a' && s[3] == 's' && s[4] == 's' {
        Some(JavaKeyword::Class)
    } else if s.len() == 9 && s[0] == 'i' && s[1] == 'n' && s[2] == 't' && s[3] == 'e' && s[4] == 'r' && s[5] == 'f' && s[6] == 'a' && s[7] == 'c' && s[8] == 'e' {
        Some(JavaKeyword::Interface)
    } else if s.len() == 4 && s[0] == 'e' && s[1] == 'n' && s[2] == 'u' && s[3] == 'm' {
        Some(JavaKeyword::Enum)
    } else if s.len() == 8 && s[0] == 'a' && s[1] == 'b' && s[2] == 's' && s[3] == 't' && s[4] == 'r' && s[5] == 'a' && s[6] == 'c' && s[7] == 't' {
        Some(JavaKeyword::Abstract)
    } else if s.len() == 8 && s[0] == 'c' && s[1] == 'o' && s[2] == 'n' && s[3] == 't' && s[4] == 'i' && s[5] == 'n' && s[6] == 'u' && s[7] == 'e' {
        Some(JavaKeyword::Continue)
    } else if s.len() == 3 && s[0] == 'f' && s[1] == 'o' && s[2] == 'r' {
        Some(JavaKeyword::For)
    } else if s.len() == 3 && s[0] == 'n' && s[1] == 'e' && s[2] == 'w' {
        Some(JavaKeyword::New)
    } else if s.len() == 6 && s[0] == 's' && s[1] == 'w' && s[2] == 'i' && s[3] == 't' && s[4] == 'c' && s[5] == 'h' {
        Some(JavaKeyword::Switch)
    } else if s.len() == 6 && s[0] == 'a' && s[1] == 's' && s[2] == 's' && s[3] == 'e' && s[4] == 'r' && s[5] == 't' {
        Some(JavaKeyword::Assert)
    } else if s.len() == 7 && s[0] == 'd' && s[1] == 'e' && s[2] == 'f' && s[3] == 'a' && s[4] == 'u' && s[5] == 'l' && s[6] == 't' {
        Some(JavaKeyword::Default)
    } else if s.len() == 4 && s[0] == 'g' && s[1] == 'o' && s[2] == 't' && s[3] == 'o' {
        Some(JavaKeyword::Goto)
    } else if s.len() == 7 && s[0] == 'p' && s[1] == 'a' && s[2] == 'c' && s[3] == 'k' && s[4] == 'a' && s[5] == 'g' && s[6] == 'e' {
        Some(JavaKeyword::Package)
    } else if s.len() == 12 && s[0] == 's' && s[1] == 'y' && s[2] == 'n' && s[3] == 'c' && s[4] == 'h' && s[5] == 'r' && s[6] == 'o' && s[7] == 'n' && s[8] == 'i' && s[9] == 'z' && s[10] == 'e' && s[11] == 'd' {
        Some(JavaKeyword::Synchronized)
    } else if s.len() == 2 && s[0] == 'd' && s[1] == 'o' {
        Some(JavaKeyword::Do)
    } else if s.len() == 2 && s[0] == 'i' && s[1] == 'f' {
        Some(JavaKeyword::If)
    } else if s.len() == 7 && s[0] == 'p' && s[1] == 'r' && s[2] == 'i' && s[3] == 'v' && s[4] == 'a' && s[5] == 't' && s[6] == 'e' {
        Some(JavaKeyword::Private)
    } else if s.len() == 4 && s[0] == 't' && s[1] == 'h' && s[2] == 'i' && s[3] == 's' {
        Some(JavaKeyword::This)
    } else if s.len() == 5 && s[0] == 'b' && s[1] == 'r' && s[2] == 'e' && s[3] == 'a' && s[4] == 'k' {
        Some(JavaKeyword::Break)
    } else if s.len() == 10 && s[0] == 'i' && s[1] == 'm' && s[2] == 'p' && s[3] == 'l' && s[4] == 'e' && s[5] == 'm' && s[6] == 'e' && s[7] == 'n' && s[8] == 't' && s[9] == 's' {
        Some(JavaKeyword::Implements)
    } else if s.len() == 9 && s[0] == 'p' && s[1] == 'r' && s[2] == 'o' && s[3] == 't' && s[4] == 'e' && s[5] == 'c' && s[6] == 't' && s[7] == 'e' && s[8] == 'd' {
        Some(JavaKeyword::Protected)
    } else if s.len() == 5 && s[0] == 't' && s[1] == 'h' && s[2] == 'r' && s[3] == 'o' && s[4] == 'w' {
        Some(JavaKeyword::Throw)
    } else if s.len() == 4 && s[0] == 'e' && s[1] == 'l' && s[2] == 's' && s[3] == 'e' {
        Some(JavaKeyword::Else)
    } else if s.len() == 6 && s[0] == 'i' && s[1] == 'm' && s[2] == 'p' && s[3] == 'o' && s[4] == 'r' && s[5] == 't' {
        Some(JavaKeyword::Import)
    } else if s.len() == 6 && s[0] == 'p' && s[1] == 'u' && s[2] == 'b' && s[3] == 'l' && s[4] == 'i' && s[5] == 'c' {
        Some(JavaKeyword::Public)
    } else if s.len() == 6 && s[0] == 't' && s[1] == 'h' && s[2] == 'r' && s[3] == 'o' && s[4] == 'w' && s[5] == 's' {
        Some(JavaKeyword::Throws)
    } else if s.len() == 4 && s[0] == 'c' && s[1] == 'a' && s[2] == 's' && s[3] == 'e' {
        Some(JavaKeyword::Case)
    } else if s.len() == 10 && s[0] == 'i' && s[1] == 'n' && s[2] == 's' && s[3] == 't' && s[4] == 'a' && s[5] == 'n' && s[6] == 'c' && s[7] == 'e' && s[8] == 'o' && s[9] == 'f' {
        Some(JavaKeyword::Instanceof)
    } else if s.len() == 6 && s[0] == 'r' && s[1] == 'e' && s[2] == 't' && s[3] == 'u' && s[4] == 'r' && s[5] == 'n' {
        Some(JavaKeyword::Return)
    } else if s.len() == 9 && s[0] == 't' && s[1] == 'r' && s[2] == 'a' && s[3] == 'n' && s[4] == 's' && s[5] == 'i' && s[6] == 'e' && s[7] == 'n' && s[8] == 't' {
        Some(JavaKeyword::Transient)
    } else if s.len() == 5 && s[0] == 'c' && s[1] == 'a' && s[2] == 't' && s[3] == 'c' && s[4] == 'h' {
        Some(JavaKeyword::Catch)
    } else if s.len() == 7 && s[0] == 'e' && s[1] == 'x' && s[2] == 't' && s[3] == 'e' && s[4] == 'n' && s[5] == 'd' && s[6] == 's' {
        Some(JavaKeyword::Extends)
    } else if s.len() == 3 && s[0] == 't' && s[1] == 'r' && s[2] == 'y' {
        Some(JavaKeyword::Try)
    } else if s.len() == 5 && s[0] == 'f' && s[1] == 'i' && s[2] == 'n' && s[3] == 'a' && s[4] == 'l' {
        Some(JavaKeyword::Final)
    } else if s.len() == 6 && s[0] == 's' && s[1] == 't' && s[2] == 'a' && s[3] == 't' && s[4] == 'i' && s[5] == 'c' {
        Some(JavaKeyword::Static)
    } else if s.len() == 7 && s[0] == 'f' && s[1] == 'i' && s[2] == 'n' && s[3] == 'a' && s[4] == 'l' && s[5] == 'l' && s[6] == 'y' {
        Some(JavaKeyword::Finally)
    } else if s.len() == 8 && s[0] == 's' && s[1] == 't' && s[2] == 'r' && s[3] == 'i' && s[4] == 'c' && s[5] == 't' && s[6] == 'f' && s[7] == 'p' {
        Some(JavaKeyword::Strictfp)
    } else if s.len() == 8 && s[0] == 'v' && s[1] == 'o' && s[2] == 'l' && s[3] == 'a' && s[4] == 't' && s[5] == 'i' && s[6] == 'l' && s[7] == 'e' {
        Some(JavaKeyword::Volatile)
    } else if s.len() == 5 && s[0] == 'c' && s[1] == 'o' && s[2] == 'n' && s[3] == 's' && s[4] == 't' {
        Some(JavaKeyword::Const)
    } else if s.len() == 6 && s[0] == 'n' && s[1] == 'a' && s[2] == 't' && s[3] == 'i' && s[4] == 'v' && s[5] == 'e' {
        Some(JavaKeyword::Native)
    } else if s.len() == 5 && s[0] == 's' && s[1] == 'u' && s[2] == 'p' && s[3] == 'e' && s[4] == 'r' {
        Some(JavaKeyword::Super)
    } else if s.len() == 5 && s[0] == 'w' && s[1] == 'h' && s[2] == 'i' && s[3] == 'l' && s[4] == 'e' {
        Some(JavaKeyword::While)
    } else {
        None
    }
}

/// Looks up the keyword that a lexeme spells.
pub fn keyword_id(s: &[char]) -> (r: Option<JavaKeyword>)
    ensures
        r == java_keyword(s@),
{
    if s.len() == 7 && s[0] == 'b' && s[1] == 'o' && s[2] == 'o' && s[3] == 'l' && s[4] == 'e' && s[5] == 'a' && s[6] == 'n' {
        Some(JavaKeyword::Boolean)
    } else if s.len() == 4 && s[0] == 'b' && s[1] == 'y' && s[2] == 't' && s[3] == 'e' {
        Some(JavaKeyword::Byte)
    } else if s.len() == 4 && s[0] == 'c' && s[1] == 'h' && s[2] == 'a' && s[3] == 'r' {
        Some(JavaKeyword::Char)
    } else if s.len() == 5 && s[0] == 's' && s[1] == 'h' && s[2] == 'o' && s[3] == 'r' && s[4] == 't' {
        Some(JavaKeyword::Short)
    } else if s.len() == 3 && s[0] == 'i' && s[1] == 'n' && s[2] == 't' {
        Some(JavaKeyword::Int)
    } else if s.len() == 4 && s[0] == 'l' && s[1] == 'o' && s[2] == 'n' && s[3] == 'g' {
        Some(JavaKeyword::Long)
    } else if s.len() == 5 && s[0] == 'f' && s[1] == 'l' && s[2] == 'o' && s[3] == 'a' && s[4] == 't' {
        Some(JavaKeyword::Float)
    } else if s.len() == 6 && s[0] == 'd' && s[1] == 'o' && s[2] == 'u' && s[3] == 'b' && s[4] == 'l' && s[5] == 'e' {
        Some(JavaKeyword::Double)
    } else if s.len() == 4 && s[0] == 'v' && s[1] == 'o' && s[2] == 'i' && s[3] == 'd' {
        Some(JavaKeyword::Void)
    } else if s.len() == 6 && s[0] == 'S' && s[1] == 't' && s[2] == 'r' && s[3] == 'i' && s[4] == 'n' && s[5] == 'g' {
        Some(JavaKeyword::Class)
    } else if s.len() == 5 && s[0] == 'c' && s[1] == 'l' && s[2] == 'a' && s[3] == 's' && s[4] == 's' {
        Some(JavaKeyword::Class)
    } else if s.len() == 9 && s[0] == 'i' && s[1] == 'n' && s[2] == 't' && s[3] == 'e' && s[4] == 'r' && s[5] == 'f' && s[6] == 'a' && s[7] == 'c' && s[8] == 'e' {
        Some(JavaKeyword::Interface)
    } else if s.len() == 4 && s[0] == 'e' && s[1] == 'n' && s[2] == 'u' && s[3] == 'm' {
        Some(JavaKeyword::Enum)
    } else if s.len() == 8 && s[0] == 'a' && s[1] == 'b' && s[2] == 's' && s[3] == 't' && s[4] == 'r' && s[5] == 'a' && s[6] == 'c' && s[7] == 't' {
        Some(JavaKeyword::Abstract)
    } else if s.len() == 8 && s[0] == 'c' && s[1] == 'o' && s[2] == 'n' && s[3] == 't' && s[4] == 'i' && s[5] == 'n' && s[6] == 'u' && s[7] == 'e' {
        Some(JavaKeyword::Continue)
    } else if s.len() == 3 && s[0] == 'f' && s[1] == 'o' && s[2] == 'r' {
        Some(JavaKeyword::For)
    } else if s.len() == 3 && s[0] == 'n' && s[1] == 'e' && s[2] == 'w' {
        Some(JavaKeyword::New)
    } else if s.len() == 6 && s[0] == 's' && s[1] == 'w' && s[2] == 'i' && s[3] == 't' && s[4] == 'c' && s[5] == 'h' {
        Some(JavaKeyword::Switch)
    } else if s.len() == 6 && s[0] == 'a' && s[1] == 's' && s[2] == 's' && s[3] == 'e' && s[4] == 'r' && s[5] == 't' {
        Some(JavaKeyword::Assert)
    } else if s.len() == 7 && s[0] == 'd' && s[1] == 'e' && s[2] == 'f' && s[3] == 'a' && s[4] == 'u' && s[5] == 'l' && s[6] == 't' {
        Some(JavaKeyword::Default)
    } else if s.len() == 4 && s[0] == 'g' && s[1] == 'o' && s[2] == 't' && s[3] == 'o' {
        Some(JavaKeyword::Goto)
    } else if s.len() == 7 && s[0] == 'p' && s[1] == 'a' && s[2] == 'c' && s[3] == 'k' && s[4] == 'a' && s[5] == 'g' && s[6] == 'e' {
        Some(JavaKeyword::Package)
    } else if s.len() == 12 && s[0] == 's' && s[1] == 'y' && s[2] == 'n' && s[3] == 'c' && s[4] == 'h' && s[5] == 'r' && s[6] == 'o' && s[7] == 'n' && s[8] == 'i' && s[9] == 'z' && s[10] == 'e' && s[11] == 'd' {
        Some(JavaKeyword::Synchronized)
    } else if s.len() == 2 && s[0] == 'd' && s[1] == 'o' {
        Some(JavaKeyword::Do)
    } else if s.len() == 2 && s[0] == 'i' && s[1] == 'f' {
        Some(JavaKeyword::If)
    } else if s.len() == 7 && s[0] == 'p' && s[1] == 'r' && s[2] == 'i' && s[3] == 'v' && s[4] == 'a' && s[5] == 't' && s[6] == 'e' {
        Some(JavaKeyword::Private)
    } else if s.len() == 4 && s[0] == 't' && s[1] == 'h' && s[2] == 'i' && s[3] == 's' {
        Some(JavaKeyword::This)
    } else if s.len() == 5 && s[0] == 'b' && s[1] == 'r' && s[2] == 'e' && s[3] == 'a' && s[4] == 'k' {
        Some(JavaKeyword::Break)
    } else if s.len() == 10 && s[0] == 'i' && s[1] == 'm' && s[2] == 'p' && s[3] == 'l' && s[4] == 'e' && s[5] == 'm' && s[6] == 'e' && s[7] == 'n' && s[8] == 't' && s[9] == 's' {
        Some(JavaKeyword::Implements)
    } else if s.len() == 9 && s[0] == 'p' && s[1] == 'r' && s[2] == 'o' && s[3] == 't' && s[4] == 'e' && s[5] == 'c' && s[6] == 't' && s[7] == 'e' && s[8] == 'd' {
        Some(JavaKeyword::Protected)
    } else if s.len() == 5 && s[0] == 't' && s[1] == 'h' && s[2] == 'r' && s[3] == 'o' && s[4] == 'w' {
        Some(JavaKeyword::Throw)
    } else if s.len() == 4 && s[0] == 'e' && s[1] == 'l' && s[2] == 's' && s[3] == 'e' {
        Some(JavaKeyword::Else)
    } else if s.len() == 6 && s[0] == 'i' && s[1] == 'm' && s[2] == 'p' && s[3] == 'o' && s[4] == 'r' && s[5] == 't' {
        Some(JavaKeyword::Import)
    } else if s.len() == 6 && s[0] == 'p' && s[1] == 'u' && s[2] == 'b' && s[3] == 'l' && s[4] == 'i' && s[5] == 'c' {
        Some(JavaKeyword::Public)
    } else if s.len() == 6 && s[0] == 't' && s[1] == 'h' && s[2] == 'r' && s[3] == 'o' && s[4] == 'w' && s[5] == 's' {
        Some(JavaKeyword::Throws)
    } else if s.len() == 4 && s[0] == 'c' && s[1] == 'a' && s[2] == 's' && s[3] == 'e' {
        Some(JavaKeyword::Case)
    } else if s.len() == 10 && s[0] == 'i' && s[1] == 'n' && s[2] == 's' && s[3] == 't' && s[4] == 'a' && s[5] == 'n' && s[6] == 'c' && s[7] == 'e' && s[8] == 'o' && s[9] == 'f' {
        Some(JavaKeyword::Instanceof)
    } else if s.len() == 6 && s[0] == 'r' && s[1] == 'e' && s[2] == 't' && s[3] == 'u' && s[4] == 'r' && s[5] == 'n' {
        Some(JavaKeyword::Return)
    } else if s.len() == 9 && s[0] == 't' && s[1] == 'r' && s[2] == 'a' && s[3] == 'n' && s[4] == 's' && s[5] == 'i' && s[6] == 'e' && s[7] == 'n' && s[8] == 't' {
        Some(JavaKeyword::Transient)
    } else if s.len() == 5 && s[0] == 'c' && s[1] == 'a' && s[2] == 't' && s[3] == 'c' && s[4] == 'h' {
        Some(JavaKeyword::Catch)
    } else if s.len() == 7 && s[0] == 'e' && s[1] == 'x' && s[2] == 't' && s[3] == 'e' && s[4] == 'n' && s[5] == 'd' && s[6] == 's' {
        Some(JavaKeyword::Extends)
    } else if s.len() == 3 && s[0] == 't' && s[1] == 'r' && s[2] == 'y' {
        Some(JavaKeyword::Try)
    } else if s.len() == 5 && s[0] == 'f' && s[1] == 'i' && s[2] == 'n' && s[3] == 'a' && s[4] == 'l' {
        Some(JavaKeyword::Final)
    } else if s.len() == 6 && s[0] == 's' && s[1] == 't' && s[2] == 'a' && s[3] == 't' && s[4] == 'i' && s[5] == 'c' {
        Some(JavaKeyword::Static)
    } else if s.len() == 7 && s[0] == 'f' && s[1] == 'i' && s[2] == 'n' && s[3] == 'a' && s[4] == 'l' && s[5] == 'l' && s[6] == 'y' {
        Some(JavaKeyword::Finally)
    } else if s.len() == 8 && s[0] == 's' && s[1] == 't' && s[2] == 'r' && s[3] == 'i' && s[4] == 'c' && s[5] == 't' && s[6] == 'f' && s[7] == 'p' {
        Some(JavaKeyword::Strictfp)
    } else if s.len() == 8 && s[0] == 'v' && s[1] == 'o' && s[2] == 'l' && s[3] == 'a' && s[4] == 't' && s[5] == 'i' && s[6] == 'l' && s[7] == 'e' {
        Some(JavaKeyword::Volatile)
    } else if s.len() == 5 && s[0] == 'c' && s[1] == 'o' && s[2] == 'n' && s[3] == 's' && s[4] == 't' {
        Some(JavaKeyword::Const)
    } else if s.len() == 6 && s[0] == 'n' && s[1] == 'a' && s[2] == 't' && s[3] == 'i' && s[4] == 'v' && s[5] == 'e' {
        Some(JavaKeyword::Native)
    } else if s.len() == 5 && s[0] == 's' && s[1] == 'u' && s[2] == 'p' && s[3] == 'e' && s[4] == 'r' {
        Some(JavaKeyword::Super)
    } else if s.len() == 5 && s[0] == 'w' && s[1] == 'h' && s[2] == 'i' && s[3] == 'l' && s[4] == 'e' {
        Some(JavaKeyword::While)
    } else {
        None
    }
}

/// The delimiter bytes: they end an identifier run.
pub open spec fn java_delimiter_byte(c: u8) -> bool {
    c == ('+' as u8) || c == ('-' as u8) || c == ('<' as u8) || c == ('>' as u8) || c == ('=' as u8) || c == ('!' as u8) || c == ('|' as u8) || c == ('*' as u8) || c == ('~' as u8) || c == ('^' as u8) || c == (')' as u8) || c == ('(' as u8) || c == ('}' as u8) || c == ('{' as u8) || c == ('[' as u8) || c == (']' as u8) || c == (',' as u8) || c == (';' as u8) || c == ('/' as u8) || c == (':' as u8) || c == ('?' as u8) || c == ('&' as u8) || c == ('.' as u8) || c == ('%' as u8) || c == (' ' as u8) || c == ('\t' as u8) || c == ('\n' as u8)
}

/// The delimiter token of a one-character lexeme.
pub open spec fn java_delimiter_of(c: char) -> Option<JavaDelimeters> {
    if c == ':' {
        Some(JavaDelimeters::Colon)
    } else if c == ',' {
        Some(JavaDelimeters::Comma)
    } else if c == ';' {
        Some(JavaDelimeters::Semicolon)
    } else if c == ')' {
        Some(JavaDelimeters::Rparen)
    } else if c == '(' {
        Some(JavaDelimeters::LParen)
    } else if c == '{' {
        Some(JavaDelimeters::LBrace)
    } else if c == '}' {
        Some(JavaDelimeters::RBrace)
    } else if c == '[' {
        Some(JavaDelimeters::LBracket)
    } else if c == ']' {
        Some(JavaDelimeters::RBracket)
    } else if c == ' ' {
        Some(JavaDelimeters::Whitespace)
    } else if c == '\t' {
        Some(JavaDelimeters::Tab)
    } else if c == '\n' {
        Some(JavaDelimeters::NewLine)
    } else {
        None
    }
}

pub fn delimiter_id(c: char) -> (r: Option<JavaDelimeters>)
    ensures
        r == java_delimiter_of(c),
{
    if c == ':' {
        Some(JavaDelimeters::Colon)
    } else if c == ',' {
        Some(JavaDelimeters::Comma)
    } else if c == ';' {
        Some(JavaDelimeters::Semicolon)
    } else if c == ')' {
        Some(JavaDelimeters::Rparen)
    } else if c == '(' {
        Some(JavaDelimeters::LParen)
    } else if c == '{' {
        Some(JavaDelimeters::LBrace)
    } else if c == '}' {
        Some(JavaDelimeters::RBrace)
    } else if c == '[' {
        Some(JavaDelimeters::LBracket)
    } else if c == ']' {
        Some(JavaDelimeters::RBracket)
    } else if c == ' ' {
        Some(JavaDelimeters::Whitespace)
    } else if c == '\t' {
        Some(JavaDelimeters::Tab)
    } else if c == '\n' {
        Some(JavaDelimeters::NewLine)
    } else {
        None
    }
}

/// The escape map: an escape letter and the character it stands for.
pub open spec fn java_escape(c: char) -> Option<char> {
    if c == 't' {
        Some('\t')
    } else if c == 'b' {
        Some('\u{8}')
    } else if c == 'n' {
        Some('\n')
    } else if c == 'r' {
        Some('\r')
    } else if c == 'f' {
        Some('\u{c}')
    } else if c == '\'' {
        Some('\'')
    } else if c == '"' {
        Some('"')
    } else if c == '\\' {
        Some('\\')
    } else {
        None
    }
}

/// The characters, besides ASCII letters and digits, allowed in a numeral.
pub open spec fn java_number_char(c: char) -> bool {
    ascii_alphanumeric(c) || c == '.' || c == '_' || c == 'e' || c == 'E' || c == '-' || c == '+'
        || c == 'f' || c == 'F'
}

impl Delimeted for JavaTokenSet {
    open spec fn spec_delimeter(c: u8) -> bool {
        java_delimiter_byte(c)
    }

    open spec fn spec_operator(s: Seq<u8>) -> bool {
        java_operator(s) is Some
    }

    open spec fn spec_line_trigger(c: char) -> Option<usize> {
        if c == '/' {
            Some(2)
        } else {
            None
        }
    }

    open spec fn spec_block_trigger(c: char) -> Option<(Seq<char>, usize)> {
        if c == '/' {
            Some((seq!['*', '/'], 2))
        } else {
            None
        }
    }

    open spec fn spec_line_start(s: Seq<char>) -> bool {
        s.len() == 2 && s[0] == '/' && s[1] == '/'
    }

    open spec fn spec_block_start(s: Seq<char>) -> bool {
        s.len() == 2 && s[0] == '/' && s[1] == '*'
    }

    open spec fn spec_number_char(c: char) -> bool {
        java_number_char(c)
    }

    open spec fn spec_unicode_escape(c: char) -> Option<usize> {
        if c == 'u' {
            Some(4)
        } else if c == 'U' {
            Some(8)
        } else {
            None
        }
    }

    open spec fn spec_escape(c: char) -> Option<char> {
        java_escape(c)
    }

    fn is_delimeter(c: &u8) -> (r: bool) {
        let c = *c;
        c == ('+' as u8) || c == ('-' as u8) || c == ('<' as u8) || c == ('>' as u8) || c == ('=' as u8) || c == ('!' as u8) || c == ('|' as u8) || c == ('*' as u8) || c == ('~' as u8) || c == ('^' as u8) || c == (')' as u8) || c == ('(' as u8) || c == ('}' as u8) || c == ('{' as u8) || c == ('[' as u8) || c == (']' as u8) || c == (',' as u8) || c == (';' as u8) || c == ('/' as u8) || c == (':' as u8) || c == ('?' as u8) || c == ('&' as u8) || c == ('.' as u8) || c == ('%' as u8) || c == (' ' as u8) || c == ('\t' as u8) || c == ('\n' as u8)
    }

    fn may_trigger_line_comment(c: char) -> (r: Option<usize>) {
        if c == '/' {
            Some(2)
        } else {
            None
        }
    }

    fn may_trigger_block_comment(c: char) -> (r: Option<(Vec<char>, usize)>) {
        if c == '/' {
            let v = vec!['*', '/'];
            assert(v@ =~= seq!['*', '/']);
            Some((v, 2))
        } else {
            None
        }
    }

    fn trigger_comment_line(c: &[char]) -> (r: bool) {
        c.len() == 2 && c[0] == '/' && c[1] == '/'
    }

    fn trigger_comment_block(c: &[char]) -> (r: bool) {
        c.len() == 2 && c[0] == '/' && c[1] == '*'
    }

    fn is_operator(c: &[u8]) -> (r: bool) {
        operator_id(c).is_some()
    }

    fn allowed_number_chars(c: &char) -> (r: bool) {
        let c = *c;
        is_ascii_alphanumeric(c) || c == '.' || c == '_' || c == 'e' || c == 'E' || c == '-'
            || c == '+' || c == 'f' || c == 'F'
    }

    fn allowed_unicode_char(c: &char) -> (r: Option<usize>) {
        if *c == 'u' {
            Some(4)
        } else if *c == 'U' {
            Some(8)
        } else {
            None
        }
    }

    fn is_scape(c: &char) -> (r: Option<char>) {
        let c = *c;
        if c == 't' {
            Some('\t')
        } else if c == 'b' {
            Some('\u{8}')
        } else if c == 'n' {
            Some('\n')
        } else if c == 'r' {
            Some('\r')
        } else if c == 'f' {
            Some('\u{c}')
        } else if c == '\'' {
            Some('\'')
        } else if c == '"' {
            Some('"')
        } else if c == '\\' {
            Some('\\')
        } else {
            None
        }
    }
}

} // verus!
