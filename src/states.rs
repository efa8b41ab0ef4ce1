//! The lexer's mutable cursor state and the errors it can record.
use vstd::prelude::*;

verus! {

/// The kinds of lexical error.
#[derive(Debug, Clone, Copy, PartialEq, Eq, Structural)]
pub enum ErrorKind {
    UnterminatedStringLiteral,
    UnterminatedCharLiteral,
    UnterminatedBlockComment,
    MalformedUnicodeEscape,
    MalformedNumericLiteral,
    UnbalancedParenthesis,
    IoFailureDuringResolution,
    UnknownSubcommand,
}

/// A lexical error at a source position.
#[derive(Debug, Clone)]
pub struct LexicalError<T> {
    pub row: usize,
    pub column: usize,
    pub expected: T,
    pub context: Option<Vec<T>>,
}

/// The lexer's state while a lex is in progress. Rows count from 1; `column`
/// is the number of characters consumed on the current row.
#[derive(Debug)]
pub struct State {
    pub valid: bool,
    pub row: usize,
    pub column: usize,
    pub in_str: bool,
    pub in_char: bool,
    pub in_brace: bool,
    pub in_paren: bool,
    pub scape_next: bool,
    pub brace_level: usize,
    pub generic_level: usize,
    pub paren_level: usize,
    pub read_include: bool,
    pub stacktrace: Option<Vec<LexicalError<ErrorKind>>>,
}

impl State {
    /// The state before any character has been read.
    pub open spec fn initial(self) -> bool {
        &&& self.valid
        &&& self.row == 1
        &&& self.column == 0
        &&& !self.in_str
        &&& !self.in_char
        &&& !self.in_brace
        &&& !self.in_paren
        &&& !self.scape_next
        &&& self.brace_level == 0
        &&& self.generic_level == 0
        &&& self.paren_level == 0
        &&& !self.read_include
        &&& self.stacktrace matches Some(v) && v@.len() == 0
    }
}

impl Default for State {
    fn default() -> (r: State)
        ensures
            r.initial(),
    {
        State {
            valid: true,
            row: 1,
            column: 0,
            in_str: false,
            in_char: false,
            in_brace: false,
            in_paren: false,
            scape_next: false,
            brace_level: 0,
            generic_level: 0,
            paren_level: 0,
            read_include: false,
            stacktrace: Some(Vec::new()),
        }
    }
}

} // verus!
