//! The token set of the Java language.
use crate::tokens::{Token, TokenKind};
use vstd::prelude::*;

verus! {

/// A Java token.
#[derive(Debug, Clone, PartialEq)]
pub enum JavaToken {
    Identifier(JavaIdentifier),
    Operator(JavaOperator),
    Delimeter(JavaDelimeters),
    EOF,
}

/// Marker type that carries the Java tables and token inference.
#[derive(Debug, Clone, Copy, PartialEq, Eq, Default, Hash)]
pub struct JavaTokenSet;

#[derive(Debug, Clone, Copy, PartialEq, Eq, Structural)]
pub enum JavaDelimeters {
    LParen,
    Rparen,
    LBracket,
    RBracket,
    LBrace,
    RBrace,
    Comma,
    Colon,
    Semicolon,
    Whitespace,
    Tab,
    NewLine,
}

/// The base of an integer literal.
#[derive(Debug, Clone, Copy, PartialEq, Eq, Structural)]
pub enum JavaBase {
    Binary,
    Decimal,
    Octal,
    Hexadecimal,
}

/// The identifier-like tokens. A float literal is carried as its decimal
/// text with the digit separators removed; that text always parses as an
/// IEEE-754 double.
#[derive(Debug, Clone, PartialEq)]
pub enum JavaIdentifier {
    Var(u64, JavaKeyword),
    ObjVar(u64, u64),
    StringLiteral(String),
    CharLiteral(String),
    JavaKeyword(JavaKeyword),
    Integer(String, JavaBase),
    Float(String),
    Unknown(u64),
}

#[derive(Debug, Clone, Copy, PartialEq, Eq, Structural)]
pub enum JavaOperator {
    Dot,
    At,
    Qmark,
    Assign,
    Eq,
    Not,
    Neq,
    Geq,
    Leq,
    Gt,
    Lt,
    Plus,
    Minus,
    PlusEq,
    MinusEq,
    Div,
    Mod,
    Mul,
    DivEq,
    ModEq,
    MulEq,
    BitShiftLeft,
    BitShiftRight,
    UBitShiftRight,
    BitShiftLeftEq,
    BitShiftRightEq,
    UBitShiftRightEq,
    Increment,
    Decrement,
    And,
    Or,
    AndEq,
    OrEq,
    XorEq,
    BitAnd,
    BitOr,
    BitXor,
    BitAndEq,
    BitOrEq,
    BitXorEq,
    BitCompl,
    Instanceof,
}

#[derive(Debug, Clone, Copy, PartialEq, Eq, Structural)]
pub enum JavaKeyword {
    Abstract,
    Continue,
    For,
    New,
    Switch,
    Assert,
    Default,
    Goto,
    Package,
    Synchronized,
    Boolean,
    Do,
    If,
    Private,
    This,
    Break,
    Double,
    Implements,
    Protected,
    Throw,
    Byte,
    Else,
    Import,
    Public,
    Throws,
    Case,
    Enum,
    Instanceof,
    Return,
    Transient,
    Catch,
    Extends,
    Int,
    Short,
    Try,
    Char,
    Final,
    Interface,
    Static,
    Void,
    Class,
    Finally,
    Long,
    Strictfp,
    Volatile,
    Const,
    Float,
    Native,
    Super,
    While,
}

/// The mathematical value of a Java token: texts become character sequences.
pub enum TokenView {
    Identifier(IdentView),
    Operator(JavaOperator),
    Delimeter(JavaDelimeters),
    EOF,
}

/// The mathematical value of an identifier-like token.
pub enum IdentView {
    Var(u64, JavaKeyword),
    ObjVar(u64, u64),
    StringLiteral(Seq<char>),
    CharLiteral(Seq<char>),
    JavaKeyword(JavaKeyword),
    Integer(Seq<char>, JavaBase),
    Float(Seq<char>),
    Unknown(u64),
}

impl View for JavaIdentifier {
    type V = IdentView;

    open spec fn view(&self) -> IdentView {
        match self {
            JavaIdentifier::Var(h, k) => IdentView::Var(*h, *k),
            JavaIdentifier::ObjVar(a, b) => IdentView::ObjVar(*a, *b),
            JavaIdentifier::StringLiteral(s) => IdentView::StringLiteral(s@),
            JavaIdentifier::CharLiteral(s) => IdentView::CharLiteral(s@),
            JavaIdentifier::JavaKeyword(k) => IdentView::JavaKeyword(*k),
            JavaIdentifier::Integer(s, b) => IdentView::Integer(s@, *b),
            JavaIdentifier::Float(s) => IdentView::Float(s@),
            JavaIdentifier::Unknown(h) => IdentView::Unknown(*h),
        }
    }
}

impl View for JavaToken {
    type V = TokenView;

    open spec fn view(&self) -> TokenView {
        match self {
            JavaToken::Identifier(i) => TokenView::Identifier(i@),
            JavaToken::Operator(o) => TokenView::Operator(*o),
            JavaToken::Delimeter(d) => TokenView::Delimeter(*d),
            JavaToken::EOF => TokenView::EOF,
        }
    }
}

/// The kind of a token, read from its mathematical value.
pub open spec fn kind_of(t: TokenView) -> TokenKind {
    match t {
        TokenView::EOF => TokenKind::Delimeter,
        TokenView::Identifier(IdentView::Var(_, _)) => TokenKind::Identifier,
        TokenView::Identifier(IdentView::JavaKeyword(_)) => TokenKind::Keyword,
        TokenView::Identifier(IdentView::CharLiteral(_)) => TokenKind::Literal,
        TokenView::Identifier(IdentView::StringLiteral(_)) => TokenKind::Literal,
        TokenView::Identifier(IdentView::Unknown(_)) => TokenKind::Unknown,
        TokenView::Identifier(_) => TokenKind::Identifier,
        TokenView::Operator(_) => TokenKind::Operator,
        TokenView::Delimeter(JavaDelimeters::Whitespace) => TokenKind::Whitespace,
        TokenView::Delimeter(JavaDelimeters::NewLine) => TokenKind::Whitespace,
        TokenView::Delimeter(_) => TokenKind::Delimeter,
    }
}

impl Token for JavaToken {
    open spec fn spec_kind(&self) -> TokenKind {
        kind_of(self@)
    }

    fn kind(&self) -> (r: TokenKind) {
        match self {
            JavaToken::EOF => TokenKind::Delimeter,
            JavaToken::Identifier(JavaIdentifier::Var(_, _)) => TokenKind::Identifier,
            JavaToken::Identifier(JavaIdentifier::JavaKeyword(_)) => TokenKind::Keyword,
            JavaToken::Identifier(JavaIdentifier::CharLiteral(_)) => TokenKind::Literal,
            JavaToken::Identifier(JavaIdentifier::StringLiteral(_)) => TokenKind::Literal,
            JavaToken::Identifier(JavaIdentifier::Unknown(_)) => TokenKind::Unknown,
            JavaToken::Identifier(_) => TokenKind::Identifier,
            JavaToken::Operator(_) => TokenKind::Operator,
            JavaToken::Delimeter(JavaDelimeters::Whitespace) => TokenKind::Whitespace,
            JavaToken::Delimeter(JavaDelimeters::NewLine) => TokenKind::Whitespace,
            JavaToken::Delimeter(_) => TokenKind::Delimeter,
        }
    }
}

} // verus!
