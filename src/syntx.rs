//! The description of a language as read from its declarative specification
//! file.
use vstd::prelude::*;

verus! {

/// The section of the specification file being read.
#[derive(Debug, Clone, Copy, PartialEq, Eq, Structural)]
pub enum CurrentState {
    Info,
    Tokens,
    Delimeters,
    Operators,
    Comments,
    Keywords,
    Scapes,
    Numbers,
}

/// A language description. The maps keep their keys unique and their
/// insertion order; the comment markers are held whole.
#[derive(Debug, Clone)]
pub struct Syntx {
    pub name: String,
    pub tokens: Vec<(String, String)>,
    pub delimiters: Vec<String>,
    pub operators: Vec<String>,
    pub numbers: Vec<String>,
    pub keywords: Vec<(String, String)>,
    pub scapes: Vec<(String, String)>,
    pub line_comment: String,
    pub block_start: String,
    pub block_end: String,
    pub state: Option<CurrentState>,
}

/// The mathematical value of a language description.
pub struct SyntxView {
    pub name: Seq<char>,
    pub tokens: Seq<(Seq<char>, Seq<char>)>,
    pub delimiters: Seq<Seq<char>>,
    pub operators: Seq<Seq<char>>,
    pub numbers: Seq<Seq<char>>,
    pub keywords: Seq<(Seq<char>, Seq<char>)>,
    pub scapes: Seq<(Seq<char>, Seq<char>)>,
    pub line_comment: Seq<char>,
    pub block_comment: (Seq<char>, Seq<char>),
    pub state: Option<CurrentState>,
}

pub open spec fn texts_view(v: Seq<String>) -> Seq<Seq<char>> {
    v.map_values(|s: String| s@)
}

pub open spec fn pairs_view(v: Seq<(String, String)>) -> Seq<(Seq<char>, Seq<char>)> {
    v.map_values(|p: (String, String)| (p.0@, p.1@))
}

impl View for Syntx {
    type V = SyntxView;

    open spec fn view(&self) -> SyntxView {
        SyntxView {
            name: self.name@,
            tokens: pairs_view(self.tokens@),
            delimiters: texts_view(self.delimiters@),
            operators: texts_view(self.operators@),
            numbers: texts_view(self.numbers@),
            keywords: pairs_view(self.keywords@),
            scapes: pairs_view(self.scapes@),
            line_comment: self.line_comment@,
            block_comment: (self.block_start@, self.block_end@),
            state: self.state,
        }
    }
}

/// The description before any line has been read.
pub open spec fn empty_view() -> SyntxView {
    SyntxView {
        name: seq![],
        tokens: seq![],
        delimiters: seq![],
        operators: seq![],
        numbers: seq![],
        keywords: seq![],
        scapes: seq![],
        line_comment: seq![],
        block_comment: (seq![], seq![]),
        state: None,
    }
}

impl Default for Syntx {
    fn default() -> (r: Syntx)
        ensures
            r@ == empty_view(),
    {
        let r = Syntx {
            scapes: Vec::new(),
            name: String::new(),
            tokens: Vec::new(),
            delimiters: Vec::new(),
            numbers: Vec::new(),
            operators: Vec::new(),
            keywords: Vec::new(),
            line_comment: String::new(),
            block_start: String::new(),
            block_end: String::new(),
            state: None,
        };
        assert(r@.tokens =~= seq![]);
        assert(r@.delimiters =~= seq![]);
        assert(r@.operators =~= seq![]);
        assert(r@.numbers =~= seq![]);
        assert(r@.keywords =~= seq![]);
        assert(r@.scapes =~= seq![]);
        r
    }
}

} // verus!
