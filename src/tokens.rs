//! The contracts that a language supplies to the engine: token kinds, the
//! per-language tables and token inference.
use crate::states::State;
use vstd::prelude::*;

verus! {

/// The categorical kind of a token; a pure function of its variant.
#[derive(Debug, Clone, Copy, PartialEq, Eq, Structural)]
pub enum TokenKind {
    Identifier,
    Keyword,
    Operator,
    Delimeter,
    Literal,
    Whitespace,
    Unknown,
}

/// A token of some language, with its kind.
pub trait Token: Sized {
    spec fn spec_kind(&self) -> TokenKind;

    fn kind(&self) -> (r: TokenKind)
        ensures
            r == self.spec_kind(),
    ;
}

/// Marker for languages that will later feed a parser.
pub trait Parseable {

}

} // verus!

verus! {

/// The per-language tables that the engine consults.
pub trait Delimeted: Sized {
    /// The bytes that end an identifier run.
    spec fn spec_delimeter(c: u8) -> bool;

    /// The operator lexemes.
    spec fn spec_operator(s: Seq<u8>) -> bool;

    /// The lookahead length of a line comment that `c` may start.
    spec fn spec_line_trigger(c: char) -> Option<usize>;

    /// The end sequence and lookahead length of a block comment that `c` may start.
    spec fn spec_block_trigger(c: char) -> Option<(Seq<char>, usize)>;

    /// The line comment start sequence.
    spec fn spec_line_start(s: Seq<char>) -> bool;

    /// The block comment start sequence.
    spec fn spec_block_start(s: Seq<char>) -> bool;

    /// The characters allowed inside a numeric literal.
    spec fn spec_number_char(c: char) -> bool;

    /// The number of hex digits of the legacy form of a unicode escape letter.
    spec fn spec_unicode_escape(c: char) -> Option<usize>;

    /// The escape map.
    spec fn spec_escape(c: char) -> Option<char>;

    fn is_delimeter(c: &u8) -> (r: bool)
        ensures
            r == Self::spec_delimeter(*c),
    ;

    /// Max sequence length for an inline comment.
    fn may_trigger_line_comment(c: char) -> (r: Option<usize>)
        ensures
            r == Self::spec_line_trigger(c),
    ;

    /// The end sequence and max sequence length for a block comment.
    fn may_trigger_block_comment(c: char) -> (r: Option<(Vec<char>, usize)>)
        ensures
            r is Some <==> Self::spec_block_trigger(c) is Some,
            r matches Some(p) ==> Self::spec_block_trigger(c) == Some((p.0@, p.1)),
    ;

    /// Whether the characters following a trigger open a line comment.
    fn trigger_comment_line(c: &[char]) -> (r: bool)
        ensures
            r == Self::spec_line_start(c@),
    ;

    /// Whether the characters following a trigger open a block comment.
    fn trigger_comment_block(c: &[char]) -> (r: bool)
        ensures
            r == Self::spec_block_start(c@),
    ;

    /// Whether a byte string is an operator of the language.
    fn is_operator(c: &[u8]) -> (r: bool)
        ensures
            r == Self::spec_operator(c@),
    ;

    /// Whether a character may appear inside a numeric literal.
    fn allowed_number_chars(c: &char) -> (r: bool)
        ensures
            r == Self::spec_number_char(*c),
    ;

    /// The legacy hex-digit count of a unicode escape letter.
    fn allowed_unicode_char(c: &char) -> (r: Option<usize>)
        ensures
            r == Self::spec_unicode_escape(*c),
    ;

    /// The decoded character of an escape letter.
    fn is_scape(c: &char) -> (r: Option<char>)
        ensures
            r == Self::spec_escape(*c),
    ;
}

/// Token inference: the classifier from a lexeme and the lexer state to a
/// token, stated over the language's mathematical token values.
pub trait Lexable: Sized {
    type Token;

    type TokenView;

    /// The mathematical value of a token.
    spec fn token_view(t: Self::Token) -> Self::TokenView;

    /// What inference yields for lexeme `s` at a brace level, inside a string
    /// or char literal or outside; `None` for a lexeme that is swallowed.
    spec fn spec_infer(s: Seq<char>, brace_level: usize, in_str: bool, in_char: bool) -> Option<
        Self::TokenView,
    >;

    /// Whether a lexeme outside literals is the import directive's keyword.
    spec fn spec_import_keyword(s: Seq<char>) -> bool;

    fn infer_token(c: String, state: &mut State) -> (r: Option<Self::Token>)
        ensures
            r is Some <==> Self::spec_infer(
                c@,
                old(state).brace_level,
                old(state).in_str,
                old(state).in_char,
            ) is Some,
            r matches Some(t) ==> Some(Self::token_view(t)) == Self::spec_infer(
                c@,
                old(state).brace_level,
                old(state).in_str,
                old(state).in_char,
            ),
            *final(state) == (State {
                read_include: old(state).read_include || (!old(state).in_str && !old(state).in_char && Self::spec_import_keyword(c@)),
                ..*old(state)
            }),
    ;
}

} // verus!
