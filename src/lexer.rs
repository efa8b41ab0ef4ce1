//! The streaming lexer engine: a character-driven state machine that performs
//! maximal-munch tokenization and hands its tokens out in batches. The engine
//! is generic over a language: its tables (`Delimeted`) and its token
//! inference (`Lexable`).
use crate::scan::{
    ascii, ascii_bytes, block_end, char_body, close_brace, decode_code, delim_char, element,
    ident_end, legacy_end, lemma_block_end_bounds, lemma_element_advances, lemma_munch_bounds,
    lemma_run_bounds, lemma_string_body_bounds, line_end, munch_end, number_end, occurs_at,
    string_body, ws_end,
};
use crate::states::State;
use crate::text::{
    alphabetic, char_from_u32, chars_of, is_alphabetic, is_numeric, is_white_space, numeric,
    parse_hex_u32, string_of, white_space,
};
use crate::tokens::{Delimeted, Lexable};
use vstd::prelude::*;

verus! {

/// The number of tokens in a full batch.
pub const BATCH_SIZE: usize = 2048;

/// What the driver of a lex does next.
pub enum Step<K> {
    /// Hand this full batch to the consumer, then call `tokenize` again.
    Send(Vec<K>),
    /// Hand this batch to the consumer, lex the named import into the same
    /// consumer, then call `tokenize` again.
    Import(Vec<K>, String),
    /// Hand this last batch to the consumer and close it: the lex is complete.
    Close(Vec<K>),
}

/// The mathematical values of a sequence of tokens.
pub open spec fn views<T: Lexable>(v: Seq<T::Token>) -> Seq<T::TokenView> {
    v.map_values(|t: T::Token| T::token_view(t))
}

/// The batch that a step hands out.
pub open spec fn batch_of<K>(s: Step<K>) -> Seq<K> {
    match s {
        Step::Send(b) => b@,
        Step::Import(b, _) => b@,
        Step::Close(b) => b@,
    }
}

/// Everything that a sequence of steps hands out, in order.
pub open spec fn flatten<T: Lexable>(steps: Seq<Step<T::Token>>) -> Seq<T::TokenView>
    decreases steps.len(),
{
    if steps.len() == 0 {
        seq![]
    } else {
        flatten::<T>(steps.drop_last()) + views::<T>(batch_of(steps.last()))
    }
}

/// The emitted stream after inferring `lexeme` in state `st`.
pub open spec fn extend<T: Lexable>(ts: Seq<T::TokenView>, lexeme: Seq<char>, st: State) -> Seq<
    T::TokenView,
> {
    match T::spec_infer(lexeme, st.brace_level, st.in_str, st.in_char) {
        Some(t) => ts.push(t),
        None => ts,
    }
}

/// The text of an import directive whose first character is at `i`: the rest
/// of the line without one trailing `;`.
pub open spec fn directive(cs: Seq<char>, i: int) -> Seq<char> {
    let t = cs.subrange(i, line_end(cs, i));
    if t.len() > 0 && t.last() == ';' {
        t.drop_last()
    } else {
        t
    }
}

/// Where the main loop stands between steps: the cursor, the brace and
/// parenthesis depths and
/// whether an import directive's argument comes next.
pub struct Cursor {
    pub pos: int,
    pub brace: usize,
    pub paren: usize,
    pub pending_import: bool,
}

/// What one step of the main loop does: where it leaves the cursor, the brace
/// depth after it, the token it emits, whether an import argument comes next,
/// and the import directive it read.
pub struct Outcome<V> {
    pub pos: int,
    pub brace: usize,
    pub paren: usize,
    pub token: Option<V>,
    pub pending_import: bool,
    pub import: Option<Seq<char>>,
}

/// The characters that comment detection looks at: at most `n`, and at most
/// four, from `p`.
pub open spec fn lookahead_of(cs: Seq<char>, p: int, n: usize) -> Seq<char> {
    cs.subrange(p, min_int(p + min_int(n as int, 4), cs.len() as int))
}

/// A line comment starts at `p`.
pub open spec fn line_comment_at<T: Delimeted>(cs: Seq<char>, p: int) -> bool {
    T::spec_line_trigger(cs[p]) matches Some(n) && T::spec_line_start(lookahead_of(cs, p, n))
}

/// A block comment starts at `p`.
pub open spec fn block_comment_at<T: Delimeted>(cs: Seq<char>, p: int) -> bool {
    T::spec_block_trigger(cs[p]) matches Some(t) && t.1 > 0 && T::spec_block_start(
        lookahead_of(cs, p, t.1),
    )
}

/// Where a line comment that starts at `p` ends: after its newline.
pub open spec fn line_comment_end(cs: Seq<char>, p: int) -> int {
    if line_end(cs, p) < cs.len() {
        line_end(cs, p) + 1
    } else {
        cs.len() as int
    }
}

/// Where a block comment that starts at `p` ends.
pub open spec fn block_comment_end<T: Delimeted>(cs: Seq<char>, p: int) -> int {
    let t = T::spec_block_trigger(cs[p])->0;
    block_end(cs, p + lookahead_of(cs, p, t.1).len(), t.0)
}

/// A step that consumes up to `end` and emits nothing.
pub open spec fn quiet<V>(g: Cursor, end: int) -> Outcome<V> {
    Outcome {
        pos: end,
        brace: g.brace,
        paren: g.paren,
        token: None,
        pending_import: g.pending_import,
        import: None,
    }
}

/// A step that consumes `lexeme`, ending at `end`, and emits what it infers to
/// outside literals at brace depth `brace`.
pub open spec fn eaten<T: Lexable>(
    g: Cursor,
    end: int,
    lexeme: Seq<char>,
    brace: usize,
    paren: usize,
) -> Outcome<T::TokenView> {
    Outcome {
        pos: end,
        brace: brace,
        paren: paren,
        token: T::spec_infer(lexeme, brace, false, false),
        pending_import: g.pending_import || T::spec_import_keyword(lexeme),
        import: None,
    }
}

/// The depth of `open`/`close` nesting after the character `c`; a `close`
/// at depth zero leaves it at zero.
pub open spec fn level_after(b: usize, c: char, open: char, close: char) -> usize {
    if c == open {
        (b + 1) as usize
    } else if c == close && b > 0 {
        (b - 1) as usize
    } else if c == close {
        0
    } else {
        b
    }
}

/// The brace depth after the character `c`.
pub open spec fn brace_after(b: usize, c: char) -> usize {
    level_after(b, c, '{', '}')
}

/// The parenthesis depth after the character `c`.
pub open spec fn paren_after(b: usize, c: char) -> usize {
    level_after(b, c, '(', ')')
}

/// One step of the main loop at cursor `g`, in the engine's priority order.
pub open spec fn next<T: Delimeted + Lexable>(cs: Seq<char>, g: Cursor) -> Outcome<T::TokenView> {
    let p = g.pos;
    let c = cs[p];
    if line_comment_at::<T>(cs, p) {
        quiet(g, line_comment_end(cs, p))
    } else if block_comment_at::<T>(cs, p) {
        quiet(g, block_comment_end::<T>(cs, p))
    } else if c == '\n' {
        quiet(g, p + 1)
    } else if c == '"' {
        let (body, e) = string_body::<T>(cs, p + 1);
        Outcome {
            pos: if e < cs.len() {
                e + 1
            } else {
                cs.len() as int
            },
            brace: g.brace,
            paren: g.paren,
            token: T::spec_infer(body, g.brace, true, false),
            pending_import: g.pending_import,
            import: None,
        }
    } else if c == '\'' {
        let (body, n) = char_body::<T>(cs, p + 1);
        Outcome {
            pos: if n < cs.len() && cs[n] == '\'' {
                n + 1
            } else {
                n
            },
            brace: g.brace,
            paren: g.paren,
            token: T::spec_infer(body, g.brace, false, true),
            pending_import: g.pending_import,
            import: None,
        }
    } else if c == '{' || c == '}' || c == '(' || c == ')' {
        eaten::<T>(g, p + 1, seq![c], brace_after(g.brace, c), paren_after(g.paren, c))
    } else if ascii(c) && T::spec_operator(seq![c as u8]) {
        let end = munch_end::<T>(cs, p, p + 1);
        eaten::<T>(g, end, cs.subrange(p, end), g.brace, g.paren)
    } else if delim_char::<T>(c) {
        Outcome {
            pos: ws_end(cs, p + 1),
            brace: g.brace,
            paren: g.paren,
            token: if white_space(c) {
                None
            } else {
                T::spec_infer(seq![c], g.brace, false, false)
            },
            pending_import: if white_space(c) {
                g.pending_import
            } else {
                g.pending_import || T::spec_import_keyword(seq![c])
            },
            import: None,
        }
    } else if g.pending_import && alphabetic(c) {
        Outcome {
            pos: line_end(cs, p),
            brace: g.brace,
            paren: g.paren,
            token: None,
            pending_import: false,
            import: Some(directive(cs, p)),
        }
    } else if alphabetic(c) {
        let end = ident_end::<T>(cs, p);
        eaten::<T>(g, end, cs.subrange(p, end), g.brace, g.paren)
    } else if numeric(c) {
        let end = number_end::<T>(cs, p + 1);
        eaten::<T>(g, end, cs.subrange(p, end), g.brace, g.paren)
    } else {
        quiet(g, p + 1)
    }
}

/// The cursor after a step.
pub open spec fn advance<V>(g: Cursor, o: Outcome<V>) -> Cursor {
    Cursor { pos: o.pos, brace: o.brace, paren: o.paren, pending_import: o.pending_import }
}

/// The tokens of an optional token.
pub open spec fn token_seq<V>(t: Option<V>) -> Seq<V> {
    match t {
        Some(x) => seq![x],
        None => seq![],
    }
}

/// Every step moves the cursor forward and stays within the text.
pub proof fn lemma_next_advances<T: Delimeted + Lexable>(cs: Seq<char>, g: Cursor)
    requires
        0 <= g.pos < cs.len(),
    ensures
        g.pos < next::<T>(cs, g).pos <= cs.len(),
{
    let p = g.pos;
    lemma_run_bounds::<T>(cs, p);
    lemma_run_bounds::<T>(cs, p + 1);
    lemma_munch_bounds::<T>(cs, p, p + 1);
    lemma_string_body_bounds::<T>(cs, p + 1);
    if p + 1 < cs.len() {
        lemma_element_advances::<T>(cs, p + 1);
    }
    if !line_comment_at::<T>(cs, p) && block_comment_at::<T>(cs, p) {
        let t = T::spec_block_trigger(cs[p])->0;
        lemma_block_end_bounds(cs, p + lookahead_of(cs, p, t.1).len(), t.0);
    }
}

/// The tokens that the lexer emits from cursor `g` to the end of the text.
pub open spec fn lex_from<T: Delimeted + Lexable>(cs: Seq<char>, g: Cursor) -> Seq<T::TokenView>
    decreases cs.len() - g.pos,
    via lex_from_decreases::<T>
{
    if g.pos < 0 || g.pos >= cs.len() {
        seq![]
    } else {
        let o = next::<T>(cs, g);
        token_seq(o.token) + lex_from::<T>(cs, advance(g, o))
    }
}

/// The import directives that the lexer reads from cursor `g` to the end of
/// the text, in order.
pub open spec fn imports_from<T: Delimeted + Lexable>(cs: Seq<char>, g: Cursor) -> Seq<Seq<char>>
    decreases cs.len() - g.pos,
    via imports_from_decreases::<T>
{
    if g.pos < 0 || g.pos >= cs.len() {
        seq![]
    } else {
        let o = next::<T>(cs, g);
        match o.import {
            Some(n) => seq![n] + imports_from::<T>(cs, advance(g, o)),
            None => imports_from::<T>(cs, advance(g, o)),
        }
    }
}

/// The cursor at which the lexer ends when it starts at `g`.
pub open spec fn end_cursor<T: Delimeted + Lexable>(cs: Seq<char>, g: Cursor) -> Cursor
    decreases cs.len() - g.pos,
    via end_cursor_decreases::<T>
{
    if g.pos < 0 || g.pos >= cs.len() {
        g
    } else {
        end_cursor::<T>(cs, advance(g, next::<T>(cs, g)))
    }
}

#[via_fn]
proof fn imports_from_decreases<T: Delimeted + Lexable>(cs: Seq<char>, g: Cursor) {
    if 0 <= g.pos < cs.len() {
        lemma_next_advances::<T>(cs, g);
    }
}

#[via_fn]
proof fn end_cursor_decreases<T: Delimeted + Lexable>(cs: Seq<char>, g: Cursor) {
    if 0 <= g.pos < cs.len() {
        lemma_next_advances::<T>(cs, g);
    }
}

/// The import directives that a sequence of steps hands out, in order.
pub open spec fn step_imports<K>(steps: Seq<Step<K>>) -> Seq<Seq<char>>
    decreases steps.len(),
{
    if steps.len() == 0 {
        seq![]
    } else {
        step_imports(steps.drop_last()) + match steps.last() {
            Step::Import(_, n) => seq![n@],
            _ => Seq::<Seq<char>>::empty(),
        }
    }
}

#[via_fn]
proof fn lex_from_decreases<T: Delimeted + Lexable>(cs: Seq<char>, g: Cursor) {
    if 0 <= g.pos < cs.len() {
        lemma_next_advances::<T>(cs, g);
    }
}

/// The lexer over one source text.
pub struct Lexer<T: Delimeted + Lexable> {
    /// The pending batch.
    pub tokens: Vec<T::Token>,
    /// The source's characters.
    pub contents: Vec<char>,
    /// The cursor: the number of characters consumed.
    pub pos: usize,
    pub state: State,
    /// Whether the last batch has been handed out.
    pub closed: bool,
    /// Every token emitted so far, in order.
    pub emitted: Ghost<Seq<T::TokenView>>,
    /// The source position at which each emitted token begins.
    pub origins: Ghost<Seq<int>>,
    /// Every token handed out in a batch so far, in order.
    pub handed: Ghost<Seq<T::TokenView>>,
}

impl<T: Delimeted + Lexable> Lexer<T> {
    /// What holds of the emitted stream and the cursor at every point.
    pub open spec fn wf_stream(&self) -> bool {
        &&& self.pos <= self.contents@.len()
        &&& self.handed@ + views::<T>(self.tokens@) == self.emitted@
        &&& self.origins@.len() == self.emitted@.len()
        &&& forall|i: int, j: int|
            0 <= i < j < self.origins@.len() ==> self.origins@[i] < self.origins@[j]
        &&& forall|i: int| 0 <= i < self.origins@.len() ==> 0 <= #[trigger] self.origins@[i] < self.pos
        &&& self.state.brace_level <= self.pos
        &&& self.state.paren_level <= self.pos
        &&& self.state.in_brace == (self.state.brace_level > 0)
        &&& self.state.in_paren == (self.state.paren_level > 0)
        &&& self.closed ==> self.pos == self.contents@.len() && self.tokens@.len() == 0
    }

    /// The invariant between dispatch steps, but for the size of the batch.
    pub open spec fn wf_core(&self) -> bool {
        &&& self.wf_stream()
        &&& !self.state.in_str
        &&& !self.state.in_char
    }

    /// The invariant between calls of `tokenize`.
    pub open spec fn wf(&self) -> bool {
        &&& self.wf_core()
        &&& self.tokens@.len() < BATCH_SIZE
    }

    /// `self` is `old` with the cursor at `p` and only the position counters
    /// of the state changed.
    pub open spec fn moved(&self, old: Lexer<T>, p: int) -> bool {
        &&& self.pos == p
        &&& self.contents == old.contents
        &&& self.tokens == old.tokens
        &&& self.closed == old.closed
        &&& self.emitted == old.emitted
        &&& self.origins == old.origins
        &&& self.handed == old.handed
        &&& self.state == (State { row: self.state.row, column: self.state.column, ..old.state })
    }

    /// `self` is `old` after a run that ends at `p` and emits what `lexeme`
    /// infers to in `old`'s state.
    pub open spec fn emitted_after(&self, old: Lexer<T>, p: int, lexeme: Seq<char>) -> bool {
        &&& self.wf_core()
        &&& self.pos == p
        &&& self.contents == old.contents
        &&& self.closed == old.closed
        &&& self.handed == old.handed
        &&& self.emitted@ == extend::<T>(old.emitted@, lexeme, old.state)
        &&& self.tokens@.len() <= old.tokens@.len() + 1
        &&& self.state.read_include == (old.state.read_include || T::spec_import_keyword(lexeme))
        &&& self.state.brace_level == old.state.brace_level
        &&& self.state.paren_level == old.state.paren_level
    }

    /// Where the main loop stands.
    pub open spec fn cursor(&self) -> Cursor {
        Cursor {
            pos: self.pos as int,
            brace: self.state.brace_level,
            paren: self.state.paren_level,
            pending_import: self.state.read_include,
        }
    }

    /// A lexer at the start of `value`.
    pub fn new(value: &str) -> (r: Lexer<T>)
        ensures
            r.wf(),
            !r.closed,
            r.pos == 0,
            r.contents@ == value@,
            r.emitted@.len() == 0,
            r.handed@.len() == 0,
            r.state.initial(),
            r.cursor() == (Cursor { pos: 0, brace: 0, paren: 0, pending_import: false }),
    {
        let r = Lexer {
            tokens: Vec::new(),
            contents: chars_of(value),
            pos: 0,
            state: State::default(),
            closed: false,
            emitted: Ghost(Seq::empty()),
            origins: Ghost(Seq::empty()),
            handed: Ghost(Seq::empty()),
        };
        assert(views::<T>(r.tokens@) =~= seq![]);
        r
    }

    /// Consumes the character under the cursor. A newline outside literals
    /// starts a new row; any other character advances the column. The
    /// counters saturate.
    pub fn bump(&mut self, ch: char)
        requires
            old(self).pos < old(self).contents@.len(),
            ch == old(self).contents@[old(self).pos as int],
        ensures
            final(self).moved(*old(self), old(self).pos + 1),
            !old(self).state.in_str && !old(self).state.in_char && ch == '\n' ==> final(self).state.row == old(self).state.row.saturating_add(1) && final(self).state.column == 0,
            !(!old(self).state.in_str && !old(self).state.in_char && ch == '\n') ==> final(self).state.row == old(self).state.row && final(self).state.column == old(self).state.column.saturating_add(1),
    {
        if !self.state.in_str && !self.state.in_char && ch == '\n' {
            self.state.row = self.state.row.saturating_add(1);
            self.state.column = 0;
        } else {
            self.state.column = self.state.column.saturating_add(1);
        }
        assert(self.pos < self.contents.len());
        self.pos = self.pos + 1;
    }

    /// Infers the token of `lexeme` and, if there is one, appends it to the
    /// pending batch, as begun at source position `origin`.
    fn emit_raw(&mut self, lexeme: String, Ghost(origin): Ghost<int>)
        requires
            forall|i: int| 0 <= i < old(self).origins@.len() ==> #[trigger] old(self).origins@[i] < origin,
            0 <= origin,
            old(self).handed@ + views::<T>(old(self).tokens@) == old(self).emitted@,
            old(self).origins@.len() == old(self).emitted@.len(),
        ensures
            final(self).pos == old(self).pos,
            final(self).contents == old(self).contents,
            final(self).closed == old(self).closed,
            final(self).handed == old(self).handed,
            final(self).state == (State {
                read_include: old(self).state.read_include || (!old(self).state.in_str
                    && !old(self).state.in_char && T::spec_import_keyword(lexeme@)),
                ..old(self).state
            }),
            final(self).emitted@ == extend::<T>(old(self).emitted@, lexeme@, old(self).state),
            final(self).handed@ + views::<T>(final(self).tokens@) == final(self).emitted@,
            final(self).origins@.len() == final(self).emitted@.len(),
            T::spec_infer(lexeme@, old(self).state.brace_level, old(self).state.in_str, old(self).state.in_char) is Some ==> final(self).origins@ == old(self).origins@.push(origin) && final(self).tokens@.len() == old(self).tokens@.len() + 1,
            T::spec_infer(lexeme@, old(self).state.brace_level, old(self).state.in_str, old(self).state.in_char) is None ==> final(self).origins@ == old(self).origins@ && final(self).tokens@ == old(self).tokens@,
    {
        let r = T::infer_token(lexeme, &mut self.state);
        if let Some(t) = r {
            let ghost old_tokens = self.tokens@;
            self.tokens.push(t);
            assert(views::<T>(self.tokens@) =~= views::<T>(old_tokens).push(T::token_view(t)));
            self.emitted = Ghost(self.emitted@.push(T::token_view(t)));
            self.origins = Ghost(self.origins@.push(origin));
        }
    }
    /// Emits the token of `lexeme`, which began at `origin`, when inference
    /// yields neither white space nor a brace or parenthesis.
    fn emit(&mut self, lexeme: String, Ghost(origin): Ghost<int>)
        requires
            old(self).wf_stream(),
            !old(self).closed,
            0 <= origin < old(self).pos,
            forall|i: int| 0 <= i < old(self).origins@.len() ==> #[trigger] old(self).origins@[i] < origin,
        ensures
            final(self).wf_stream(),
            final(self).pos == old(self).pos,
            final(self).contents == old(self).contents,
            final(self).closed == old(self).closed,
            final(self).handed == old(self).handed,
            final(self).state == (State {
                read_include: old(self).state.read_include || (!old(self).state.in_str
                    && !old(self).state.in_char && T::spec_import_keyword(lexeme@)),
                ..old(self).state
            }),
            final(self).emitted@ == extend::<T>(old(self).emitted@, lexeme@, old(self).state),
            final(self).tokens@.len() <= old(self).tokens@.len() + 1,
    {
        let ghost o = *self;
        self.emit_raw(lexeme, Ghost(origin));
        proof {
            if let Some(t) = T::spec_infer(lexeme@, o.state.brace_level, o.state.in_str, o.state.in_char) {
                lemma_stream_push(o, *self, t, origin);
            }
        }
    }

    /// Moving the cursor forward keeps the invariant.
    proof fn lemma_moved_wf(o: Lexer<T>, n: Lexer<T>)
        requires
            o.wf_stream(),
            n.moved(o, n.pos as int),
            o.pos <= n.pos <= o.contents@.len(),
        ensures
            n.wf_stream(),
            o.wf_core() ==> n.wf_core(),
    {
        assert forall|i: int| 0 <= i < n.origins@.len() implies 0 <= #[trigger] n.origins@[i]
            < n.pos by {
            assert(n.origins@[i] == o.origins@[i]);
        }
    }

    /// Consumes the rest of the line, its newline included.
    pub fn skip_line(&mut self)
        requires
            old(self).wf_core(),
        ensures
            final(self).wf_core(),
            final(self).moved(
                *old(self),
                if line_end(old(self).contents@, old(self).pos as int) < old(self).contents@.len() {
                    line_end(old(self).contents@, old(self).pos as int) + 1
                } else {
                    old(self).contents@.len() as int
                },
            ),
    {
        let ghost o = *self;
        while self.pos < self.contents.len() && self.contents[self.pos] != '\n'
            invariant
                o.wf_core(),
                o.pos <= self.pos <= self.contents@.len(),
                self.moved(o, self.pos as int),
                line_end(o.contents@, o.pos as int) == line_end(o.contents@, self.pos as int),
            decreases self.contents@.len() - self.pos,
        {
            let c = self.contents[self.pos];
            self.bump(c);
        }
        if self.pos < self.contents.len() {
            self.bump('\n');
        }
        proof {
            Self::lemma_moved_wf(o, *self);
        }
    }

    /// A line comment: consumes the rest of the line.
    pub fn eat_comment_line(&mut self)
        requires
            old(self).wf_core(),
        ensures
            final(self).wf_core(),
            final(self).moved(
                *old(self),
                if line_end(old(self).contents@, old(self).pos as int) < old(self).contents@.len() {
                    line_end(old(self).contents@, old(self).pos as int) + 1
                } else {
                    old(self).contents@.len() as int
                },
            ),
    {
        self.skip_line();
    }

    /// Consumes the character under the cursor and then every white space
    /// character that follows.
    pub fn goto_next_sequence(&mut self, ch: char)
        requires
            old(self).wf_core(),
            old(self).pos < old(self).contents@.len(),
            ch == old(self).contents@[old(self).pos as int],
        ensures
            final(self).wf_core(),
            final(self).moved(*old(self), ws_end(old(self).contents@, old(self).pos + 1)),
    {
        let ghost o = *self;
        self.bump(ch);
        while self.pos < self.contents.len() && is_white_space(self.contents[self.pos])
            invariant
                o.wf_core(),
                o.pos < self.pos <= self.contents@.len(),
                self.moved(o, self.pos as int),
                ws_end(o.contents@, o.pos + 1) == ws_end(o.contents@, self.pos as int),
            decreases self.contents@.len() - self.pos,
        {
            let c = self.contents[self.pos];
            self.bump(c);
        }
        proof {
            Self::lemma_moved_wf(o, *self);
        }
    }

    /// The identifier eater: consumes up to the next delimiter and emits the
    /// token that the lexeme infers to.
    pub fn eat_literal(&mut self)
        requires
            old(self).wf_core(),
            old(self).pos < old(self).contents@.len(),
            !delim_char::<T>(old(self).contents@[old(self).pos as int]),
        ensures
            final(self).emitted_after(
                *old(self),
                ident_end::<T>(old(self).contents@, old(self).pos as int),
                old(self).contents@.subrange(
                    old(self).pos as int,
                    ident_end::<T>(old(self).contents@, old(self).pos as int),
                ),
            ),
    {
        let ghost o = *self;
        let ghost start = self.pos as int;
        let mut literal: Vec<char> = Vec::new();
        while self.pos < self.contents.len() && !is_delimiter_char::<T>(self.contents[self.pos])
            invariant
                o.wf_core(),
                start == o.pos,
                start <= self.pos <= self.contents@.len(),
                self.moved(o, self.pos as int),
                ident_end::<T>(o.contents@, start) == ident_end::<T>(o.contents@, self.pos as int),
                literal@ == o.contents@.subrange(start, self.pos as int),
            decreases self.contents@.len() - self.pos,
        {
            let c = self.contents[self.pos];
            literal.push(c);
            self.bump(c);
            assert(literal@ =~= o.contents@.subrange(start, self.pos as int));
        }
        proof {
            Self::lemma_moved_wf(o, *self);
        }
        let lexeme = string_of(&literal);
        self.emit(lexeme, Ghost(start));
    }

    /// The number eater: consumes the leading character, then every character
    /// allowed in a numeral, and emits the token that the lexeme infers to.
    pub fn eat_number(&mut self, ch: char)
        requires
            old(self).wf_core(),
            old(self).pos < old(self).contents@.len(),
            ch == old(self).contents@[old(self).pos as int],
            !delim_char::<T>(ch),
        ensures
            final(self).emitted_after(
                *old(self),
                number_end::<T>(old(self).contents@, old(self).pos + 1),
                old(self).contents@.subrange(
                    old(self).pos as int,
                    number_end::<T>(old(self).contents@, old(self).pos + 1),
                ),
            ),
    {
        let ghost o = *self;
        let ghost start = self.pos as int;
        let mut s: Vec<char> = Vec::new();
        s.push(ch);
        self.bump(ch);
        assert(s@ =~= o.contents@.subrange(start, self.pos as int));
        while self.pos < self.contents.len() && T::allowed_number_chars(
            &self.contents[self.pos],
        )
            invariant
                o.wf_core(),
                start == o.pos,
                start < self.pos <= self.contents@.len(),
                self.moved(o, self.pos as int),
                number_end::<T>(o.contents@, start + 1) == number_end::<T>(o.contents@, self.pos as int),
                s@ == o.contents@.subrange(start, self.pos as int),
            decreases self.contents@.len() - self.pos,
        {
            let c = self.contents[self.pos];
            s.push(c);
            self.bump(c);
            assert(s@ =~= o.contents@.subrange(start, self.pos as int));
        }
        proof {
            Self::lemma_moved_wf(o, *self);
        }
        let lexeme = string_of(&s);
        self.emit(lexeme, Ghost(start));
    }

    /// Reads an import directive's argument: the rest of the line, without its
    /// newline and without one trailing `;`.
    pub fn eat_to_newl(&mut self) -> (r: String)
        requires
            old(self).wf_core(),
        ensures
            final(self).wf_core(),
            final(self).moved(*old(self), line_end(old(self).contents@, old(self).pos as int)),
            r@ == directive(old(self).contents@, old(self).pos as int),
    {
        let ghost o = *self;
        let ghost start = self.pos as int;
        let mut literal: Vec<char> = Vec::new();
        while self.pos < self.contents.len() && self.contents[self.pos] != '\n'
            invariant
                o.wf_core(),
                start == o.pos,
                start <= self.pos <= self.contents@.len(),
                self.moved(o, self.pos as int),
                line_end(o.contents@, start) == line_end(o.contents@, self.pos as int),
                literal@ == o.contents@.subrange(start, self.pos as int),
            decreases self.contents@.len() - self.pos,
        {
            let c = self.contents[self.pos];
            literal.push(c);
            self.bump(c);
            assert(literal@ =~= o.contents@.subrange(start, self.pos as int));
        }
        if literal.len() > 0 && literal[literal.len() - 1] == ';' {
            literal.pop();
        }
        proof {
            Self::lemma_moved_wf(o, *self);
        }
        string_of(&literal)
    }

    /// Whether `until` occurs at the cursor.
    fn occurs_here(&self, until: &[char]) -> (r: bool)
        requires
            self.pos <= self.contents@.len(),
        ensures
            r == occurs_at(self.contents@, self.pos as int, until@),
    {
        if until.len() > self.contents.len() - self.pos {
            return false;
        }
        let n = self.contents.len();
        let mut k: usize = 0;
        while k < until.len()
            invariant
                n == self.contents@.len(),
                self.pos <= self.contents@.len(),
                self.pos + until@.len() <= self.contents@.len(),
                k <= until@.len(),
                forall|m: int| 0 <= m < k ==> self.contents@[self.pos + m] == until@[m],
            decreases until@.len() - k,
        {
            if self.contents[self.pos + k] != until[k] {
                assert(self.contents@.subrange(self.pos as int, self.pos + until@.len())[k as int]
                    != until@[k as int]);
                return false;
            }
            k = k + 1;
        }
        assert(self.contents@.subrange(self.pos as int, self.pos + until@.len()) =~= until@);
        true
    }

    /// A block comment: consumes the `skip` characters of its start sequence,
    /// then everything up to and including the first occurrence of `until`.
    /// Comments do not nest.
    pub fn eat_comment_block(&mut self, until: &[char], skip: usize)
        requires
            old(self).wf_core(),
            1 <= skip,
            old(self).pos + skip <= old(self).contents@.len(),
        ensures
            final(self).wf_core(),
            final(self).moved(
                *old(self),
                block_end(old(self).contents@, old(self).pos + skip, until@),
            ),
    {
        let ghost o = *self;
        let ghost body = self.pos + skip;
        let mut k: usize = 0;
        while k < skip
            invariant
                o.wf_core(),
                k <= skip,
                o.pos + skip <= o.contents@.len(),
                self.pos == o.pos + k,
                self.moved(o, self.pos as int),
            decreases skip - k,
        {
            let c = self.contents[self.pos];
            self.bump(c);
            k = k + 1;
        }
        while self.pos < self.contents.len()
            invariant_except_break
                o.wf_core(),
                body <= self.pos <= self.contents@.len(),
                self.moved(o, self.pos as int),
                block_end(o.contents@, body, until@) == block_end(o.contents@, self.pos as int, until@),
            ensures
                o.wf_core(),
                self.moved(o, self.pos as int),
                body <= self.pos <= self.contents@.len(),
                self.pos == block_end(o.contents@, body, until@),
            decreases self.contents@.len() - self.pos,
        {
            if until.len() > self.contents.len() - self.pos {
                while self.pos < self.contents.len()
                    invariant
                        o.wf_core(),
                        body <= self.pos <= self.contents@.len(),
                        self.moved(o, self.pos as int),
                    decreases self.contents@.len() - self.pos,
                {
                    let c = self.contents[self.pos];
                    self.bump(c);
                }
                break;
            }
            if self.occurs_here(until) {
                let ghost at = self.pos as int;
                let mut m: usize = 0;
                while m < until.len()
                    invariant
                        o.wf_core(),
                        m <= until@.len(),
                        at + until@.len() <= self.contents@.len(),
                        self.pos == at + m,
                        body <= at,
                        self.moved(o, self.pos as int),
                    decreases until@.len() - m,
                {
                    let c = self.contents[self.pos];
                    self.bump(c);
                    m = m + 1;
                }
                break;
            }
            let c = self.contents[self.pos];
            self.bump(c);
        }
        proof {
            Self::lemma_moved_wf(o, *self);
        }
    }

    /// The operator muncher: starting from an operator character, takes the
    /// next character while the text so far stays an operator, then emits it.
    pub fn eat_delimeter(&mut self, ch: char)
        requires
            old(self).wf_core(),
            old(self).pos < old(self).contents@.len(),
            ch == old(self).contents@[old(self).pos as int],
            ascii(ch),
            T::spec_operator(seq![ch as u8]),
        ensures
            final(self).emitted_after(
                *old(self),
                munch_end::<T>(old(self).contents@, old(self).pos as int, old(self).pos + 1),
                old(self).contents@.subrange(
                    old(self).pos as int,
                    munch_end::<T>(old(self).contents@, old(self).pos as int, old(self).pos + 1),
                ),
            ),
    {
        let ghost o = *self;
        let ghost start = self.pos as int;
        let mut bytes: Vec<u8> = Vec::new();
        bytes.push(ch as u8);
        let mut s: Vec<char> = Vec::new();
        s.push(ch);
        self.bump(ch);
        assert(s@ =~= o.contents@.subrange(start, self.pos as int));
        assert(bytes@ =~= ascii_bytes(s@));
        while self.pos < self.contents.len()
            invariant_except_break
                o.wf_core(),
                start == o.pos,
                start < self.pos <= self.contents@.len(),
                self.moved(o, self.pos as int),
                munch_end::<T>(o.contents@, start, start + 1) == munch_end::<T>(o.contents@, start, self.pos as int),
                s@ == o.contents@.subrange(start, self.pos as int),
                bytes@ == ascii_bytes(s@),
            ensures
                o.wf_core(),
                start < self.pos <= self.contents@.len(),
                self.moved(o, self.pos as int),
                munch_end::<T>(o.contents@, start, start + 1) == self.pos,
                s@ == o.contents@.subrange(start, self.pos as int),
            decreases self.contents@.len() - self.pos,
        {
            let next = self.contents[self.pos];
            if (next as u32) >= 128 {
                break;
            }
            bytes.push(next as u8);
            proof {
                assert(o.contents@.subrange(start, self.pos + 1) =~= s@.push(next));
                assert(bytes@ =~= ascii_bytes(s@.push(next)));
            }
            if !T::is_operator(bytes.as_slice()) {
                break;
            }
            s.push(next);
            self.bump(next);
        }
        proof {
            Self::lemma_moved_wf(o, *self);
        }
        let lexeme = string_of(&s);
        self.emit(lexeme, Ghost(start));
    }

    /// Hands out the pending batch.
    fn take_batch(&mut self) -> (b: Vec<T::Token>)
        requires
            old(self).wf_stream(),
        ensures
            b@ == old(self).tokens@,
            final(self).tokens@.len() == 0,
            final(self).handed@ == old(self).handed@ + views::<T>(b@),
            final(self).handed@ == final(self).emitted@,
            final(self).emitted == old(self).emitted,
            final(self).origins == old(self).origins,
            final(self).pos == old(self).pos,
            final(self).contents == old(self).contents,
            final(self).state == old(self).state,
            final(self).closed == old(self).closed,
    {
        let mut b: Vec<T::Token> = Vec::new();
        std::mem::swap(&mut b, &mut self.tokens);
        self.handed = Ghost(self.handed@ + views::<T>(b@));
        assert(views::<T>(self.tokens@) =~= Seq::<T::TokenView>::empty());
        assert(self.handed@ + views::<T>(self.tokens@) =~= self.handed@);
        b
    }

    /// Reads one element of a literal's body: a plain character, an escape,
    /// or a unicode escape in either form; appends its decoded text to `out`.
    #[verifier::rlimit(50)]
    fn eat_element(&mut self, out: &mut Vec<char>)
        requires
            old(self).pos < old(self).contents@.len(),
        ensures
            final(self).moved(*old(self), element::<T>(old(self).contents@, old(self).pos as int).1),
            old(self).state.in_str || old(self).state.in_char ==> final(self).state.row == old(self).state.row,
            final(out)@ == old(out)@ + element::<T>(old(self).contents@, old(self).pos as int).0,
    {
        let ghost o = *self;
        let ghost i = self.pos as int;
        let ghost cs = self.contents@;
        let ch = self.contents[self.pos];
        if ch != '\\' {
            out.push(ch);
            self.bump(ch);
            assert(out@ =~= old(out)@ + seq![ch]);
            return;
        }
        self.bump(ch);
        if self.pos >= self.contents.len() {
            assert(out@ =~= old(out)@ + Seq::<char>::empty());
            return;
        }
        let e = self.contents[self.pos];
        let uni = if e == 'u' || e == 'U' {
            T::allowed_unicode_char(&e)
        } else {
            None
        };
        if let Some(n) = uni {
            self.bump(e);
            let ghost j = i + 2;
            let mut body: Vec<char> = Vec::new();
            if self.pos < self.contents.len() && self.contents[self.pos] == '{' {
                self.bump('{');
                while self.pos < self.contents.len() && self.contents[self.pos] != '}'
                    invariant
                        0 <= j,
                        j + 1 <= self.pos <= cs.len(),
                        cs == o.contents@,
                        self.moved(o, self.pos as int),
                        o.state.in_str || o.state.in_char ==> self.state.row == o.state.row,
                        close_brace(cs, j + 1) == close_brace(cs, self.pos as int),
                        body@ == cs.subrange(j + 1, self.pos as int),
                    decreases cs.len() - self.pos,
                {
                    let c = self.contents[self.pos];
                    body.push(c);
                    self.bump(c);
                    assert(body@ =~= cs.subrange(j + 1, self.pos as int));
                }
                if self.pos < self.contents.len() {
                    self.bump('}');
                }
            } else {
                let mut t: usize = n;
                while self.pos < self.contents.len() && t > 0 && !is_white_space(
                    self.contents[self.pos],
                )
                    invariant
                        0 <= j,
                        j <= self.pos <= cs.len(),
                        cs == o.contents@,
                        self.moved(o, self.pos as int),
                        o.state.in_str || o.state.in_char ==> self.state.row == o.state.row,
                        legacy_end(cs, j, n as int) == legacy_end(cs, self.pos as int, t as int),
                        body@ == cs.subrange(j, self.pos as int),
                    decreases cs.len() - self.pos,
                {
                    let c = self.contents[self.pos];
                    body.push(c);
                    self.bump(c);
                    t = t - 1;
                    assert(body@ =~= cs.subrange(j, self.pos as int));
                }
            }
            push_decoded(out, &body);
        } else if let Some(d) = T::is_scape(&e) {
            out.push(d);
            self.bump(e);
            assert(out@ =~= old(out)@ + seq![d]);
        } else {
            out.push(e);
            self.bump(e);
            assert(out@ =~= old(out)@ + seq![e]);
        }
    }

    /// The string eater: consumes a string literal, its quotes included, and
    /// emits it with its escapes decoded. At the end of the input the literal
    /// closes silently.
    pub fn eat_str(&mut self)
        requires
            old(self).wf_core(),
            old(self).pos < old(self).contents@.len(),
            old(self).contents@[old(self).pos as int] == '"',
        ensures
            final(self).wf_core(),
            final(self).pos == (if string_body::<T>(old(self).contents@, old(self).pos + 1).1 < old(self).contents@.len() {
                string_body::<T>(old(self).contents@, old(self).pos + 1).1 + 1
            } else {
                old(self).contents@.len() as int
            }),
            final(self).contents == old(self).contents,
            final(self).closed == old(self).closed,
            final(self).handed == old(self).handed,
            final(self).emitted@ == old(self).emitted@ + token_seq(
                T::spec_infer(string_body::<T>(old(self).contents@, old(self).pos + 1).0, old(self).state.brace_level, true, false),
            ),
            final(self).tokens@.len() <= old(self).tokens@.len() + 1,
            final(self).state.brace_level == old(self).state.brace_level,
            final(self).state.paren_level == old(self).state.paren_level,
            final(self).state.read_include == old(self).state.read_include,
            final(self).state.row == old(self).state.row,
    {
        let ghost o = *self;
        let ghost start = self.pos as int;
        let ghost cs = self.contents@;
        self.state.in_str = true;
        let ghost o2 = *self;
        self.bump('"');
        let mut s: Vec<char> = Vec::new();
        while self.pos < self.contents.len() && self.contents[self.pos] != '"'
            invariant
                start < self.pos <= cs.len(),
                cs == o.contents@,
                o.wf_core(),
                o2 == (Lexer { state: State { in_str: true, ..o.state }, ..o }),
                self.moved(o2, self.pos as int),
                self.state.row == o.state.row,
                s@ + string_body::<T>(cs, self.pos as int).0 == string_body::<T>(cs, start + 1).0,
                string_body::<T>(cs, self.pos as int).1 == string_body::<T>(cs, start + 1).1,
            decreases cs.len() - self.pos,
        {
            let ghost p = self.pos as int;
            let ghost s0 = s@;
            proof {
                lemma_element_advances::<T>(cs, p);
            }
            self.eat_element(&mut s);
            proof {
                let (piece, next) = element::<T>(cs, p);
                assert(string_body::<T>(cs, p) == (piece + string_body::<T>(cs, next).0, string_body::<T>(
                    cs,
                    next,
                ).1));
                assert(s@ + string_body::<T>(cs, next).0 =~= s0 + (piece + string_body::<T>(cs, next).0));
            }
        }
        assert(string_body::<T>(cs, self.pos as int).0 =~= Seq::<char>::empty());
        assert(s@ =~= string_body::<T>(cs, start + 1).0);
        if self.pos < self.contents.len() {
            self.bump('"');
        }
        let lexeme = string_of(&s);
        proof {
            Self::lemma_moved_wf(o, Lexer { state: State { in_str: false, ..self.state }, ..*self });
        }
        let ghost st = self.state;
        self.emit(lexeme, Ghost(start));
        proof {
            lemma_extend_concat::<T>(o.emitted@, s@, st);
        }
        self.state.in_str = false;
    }

    /// The char eater: consumes a char literal of at most one element and its
    /// closing quote when present, and emits it with its escape decoded.
    pub fn eat_char(&mut self)
        requires
            old(self).wf_core(),
            old(self).pos < old(self).contents@.len(),
            old(self).contents@[old(self).pos as int] == '\'',
        ensures
            final(self).wf_core(),
            final(self).pos == (if char_body::<T>(old(self).contents@, old(self).pos + 1).1 < old(self).contents@.len() && old(self).contents@[char_body::<T>(
                old(self).contents@,
                old(self).pos + 1,
            ).1] == '\'' {
                char_body::<T>(old(self).contents@, old(self).pos + 1).1 + 1
            } else {
                char_body::<T>(old(self).contents@, old(self).pos + 1).1
            }),
            final(self).contents == old(self).contents,
            final(self).closed == old(self).closed,
            final(self).handed == old(self).handed,
            final(self).emitted@ == old(self).emitted@ + token_seq(
                T::spec_infer(char_body::<T>(old(self).contents@, old(self).pos + 1).0, old(self).state.brace_level, false, true),
            ),
            final(self).tokens@.len() <= old(self).tokens@.len() + 1,
            final(self).state.brace_level == old(self).state.brace_level,
            final(self).state.paren_level == old(self).state.paren_level,
            final(self).state.read_include == old(self).state.read_include,
            final(self).state.row == old(self).state.row,
    {
        let ghost o = *self;
        let ghost start = self.pos as int;
        let ghost cs = self.contents@;
        self.state.in_char = true;
        self.bump('\'');
        let mut s: Vec<char> = Vec::new();
        if self.pos < self.contents.len() && self.contents[self.pos] != '\'' {
            proof {
                lemma_element_advances::<T>(cs, start + 1);
            }
            self.eat_element(&mut s);
            assert(s@ =~= char_body::<T>(cs, start + 1).0);
        } else {
            assert(s@ =~= char_body::<T>(cs, start + 1).0);
        }
        if self.pos < self.contents.len() && self.contents[self.pos] == '\'' {
            self.bump('\'');
        }
        let lexeme = string_of(&s);
        proof {
            Self::lemma_moved_wf(o, Lexer { state: State { in_char: false, ..self.state }, ..*self });
        }
        let ghost st = self.state;
        self.emit(lexeme, Ghost(start));
        proof {
            lemma_extend_concat::<T>(o.emitted@, s@, st);
        }
        self.state.in_char = false;
    }

    /// The next `n` characters from the cursor, at most four, fewer at the end.
    fn lookahead(&self, n: usize) -> (r: Vec<char>)
        requires
            self.pos <= self.contents@.len(),
        ensures
            r@ == self.contents@.subrange(
                self.pos as int,
                min_int(self.pos + min_int(n as int, 4), self.contents@.len() as int),
            ),
    {
        let mut r: Vec<char> = Vec::new();
        let m: usize = if n < 4 {
            n
        } else {
            4
        };
        let mut k: usize = 0;
        while k < m && k < self.contents.len() - self.pos
            invariant
                k <= m,
                m == min_int(n as int, 4),
                self.pos <= self.contents@.len(),
                self.pos + k <= self.contents@.len(),
                r@ == self.contents@.subrange(self.pos as int, self.pos + k),
            decreases m - k,
        {
            r.push(self.contents[self.pos + k]);
            k = k + 1;
            assert(r@ =~= self.contents@.subrange(self.pos as int, self.pos + k));
        }
        r
    }

    /// A brace or parenthesis: adjusts its depth (never below zero) and emits
    /// its token.
    fn eat_structural(&mut self, ch: char)
        requires
            old(self).wf_core(),
            old(self).pos < old(self).contents@.len(),
            ch == old(self).contents@[old(self).pos as int],
            ch == '{' || ch == '}' || ch == '(' || ch == ')',
        ensures
            final(self).wf_core(),
            final(self).pos == old(self).pos + 1,
            final(self).contents == old(self).contents,
            final(self).closed == old(self).closed,
            final(self).handed == old(self).handed,
            final(self).state.brace_level == brace_after(old(self).state.brace_level, ch),
            final(self).state.paren_level == paren_after(old(self).state.paren_level, ch),
            final(self).emitted@ == old(self).emitted@ + token_seq(
                T::spec_infer(seq![ch], brace_after(old(self).state.brace_level, ch), false, false),
            ),
            final(self).state.read_include == (old(self).state.read_include
                || T::spec_import_keyword(seq![ch])),
            final(self).tokens@.len() <= old(self).tokens@.len() + 1,
    {
        let ghost o = *self;
        let ghost start = self.pos as int;
        assert(self.state.brace_level < self.contents.len());
        assert(self.state.paren_level < self.contents.len());
        if ch == '{' {
            self.state.brace_level = self.state.brace_level + 1;
            self.state.in_brace = true;
        } else if ch == '}' {
            if self.state.brace_level > 0 {
                self.state.brace_level = self.state.brace_level - 1;
            }
            self.state.in_brace = self.state.brace_level > 0;
        } else if ch == '(' {
            self.state.paren_level = self.state.paren_level + 1;
            self.state.in_paren = true;
        } else {
            if self.state.paren_level > 0 {
                self.state.paren_level = self.state.paren_level - 1;
            }
            self.state.in_paren = self.state.paren_level > 0;
        }
        let mut v: Vec<char> = Vec::new();
        v.push(ch);
        let lexeme = string_of(&v);
        assert(lexeme@ =~= seq![ch]);
        self.emit_raw(lexeme, Ghost(start));
        self.bump(ch);
        proof {
            match T::spec_infer(seq![ch], brace_after(o.state.brace_level, ch), false, false) {
                Some(t) => {
                    lemma_stream_push(o, *self, t, start);
                    assert(o.emitted@.push(t) =~= o.emitted@ + seq![t]);
                },
                None => {
                    assert(o.emitted@ =~= o.emitted@ + Seq::<T::TokenView>::empty());
                },
            }
        }
    }

    /// Comment detection: when `ch` may start a comment and the lookahead
    /// spells the language's line or block comment start, consumes the comment.
    fn eat_comment(&mut self, ch: char) -> (r: bool)
        requires
            old(self).wf(),
            old(self).pos < old(self).contents@.len(),
            ch == old(self).contents@[old(self).pos as int],
        ensures
            r == (line_comment_at::<T>(old(self).contents@, old(self).pos as int) || block_comment_at::<T>(
                old(self).contents@,
                old(self).pos as int,
            )),
            r ==> final(self).wf_core() && final(self).pos > old(self).pos && final(self).moved(
                *old(self),
                if line_comment_at::<T>(old(self).contents@, old(self).pos as int) {
                    line_comment_end(old(self).contents@, old(self).pos as int)
                } else {
                    block_comment_end::<T>(old(self).contents@, old(self).pos as int)
                },
            ),
            !r ==> *final(self) == *old(self),
    {
        let ghost o = *self;
        proof {
            lemma_run_bounds::<T>(self.contents@, self.pos as int);
        }
        if let Some(n) = T::may_trigger_line_comment(ch) {
            let buf = self.lookahead(n);
            if T::trigger_comment_line(buf.as_slice()) {
                self.eat_comment_line();
                return true;
            }
        }
        if let Some((end_seq, n)) = T::may_trigger_block_comment(ch) {
            let buf = self.lookahead(n);
            if n > 0 && T::trigger_comment_block(buf.as_slice()) {
                proof {
                    lemma_block_end_bounds(self.contents@, self.pos + buf@.len(), end_seq@);
                }
                self.eat_comment_block(end_seq.as_slice(), buf.len());
                return true;
            }
        }
        false
    }

    /// A delimiter that is not an operator: emits its token unless it is white
    /// space, then skips the white space that follows.
    fn eat_punctuation(&mut self, ch: char)
        requires
            old(self).wf(),
            old(self).pos < old(self).contents@.len(),
            ch == old(self).contents@[old(self).pos as int],
            !(ch == '{' || ch == '}' || ch == '(' || ch == ')'),
            delim_char::<T>(ch),
        ensures
            final(self).wf_core(),
            final(self).pos == ws_end(old(self).contents@, old(self).pos + 1),
            final(self).contents == old(self).contents,
            final(self).closed == old(self).closed,
            final(self).handed == old(self).handed,
            final(self).emitted@ == (if white_space(ch) {
                old(self).emitted@
            } else {
                extend::<T>(old(self).emitted@, seq![ch], old(self).state)
            }),
            final(self).tokens@.len() <= old(self).tokens@.len() + 1,
            final(self).state.read_include == (if white_space(ch) {
                old(self).state.read_include
            } else {
                old(self).state.read_include || T::spec_import_keyword(seq![ch])
            }),
            final(self).state.brace_level == old(self).state.brace_level,
            final(self).state.paren_level == old(self).state.paren_level,
    {
        let ghost o = *self;
        proof {
            lemma_run_bounds::<T>(self.contents@, self.pos + 1);
        }
        if !is_white_space(ch) {
            let mut v: Vec<char> = Vec::new();
            v.push(ch);
            let lexeme = string_of(&v);
            assert(lexeme@ =~= seq![ch]);
            proof {
            }
            self.bump(ch);
            proof {
                Self::lemma_moved_wf(o, *self);
            }
            self.emit(lexeme, Ghost(o.pos as int));
            let ghost mid = *self;
            while self.pos < self.contents.len() && is_white_space(self.contents[self.pos])
                invariant
                    mid.wf_core(),
                    mid.pos <= self.pos <= self.contents@.len(),
                    mid.pos == o.pos + 1,
                    mid.contents == o.contents,
                    self.moved(mid, self.pos as int),
                    ws_end(o.contents@, o.pos + 1) == ws_end(o.contents@, self.pos as int),
                decreases self.contents@.len() - self.pos,
            {
                let c = self.contents[self.pos];
                self.bump(c);
            }
            proof {
                Self::lemma_moved_wf(mid, *self);
            }
        } else {
            self.goto_next_sequence(ch);
            assert(self.emitted@ =~= o.emitted@);
        }
    }

    /// One step of the main loop: looks at the character under the cursor and
    /// runs the eater that it selects, in the engine's priority order. Returns
    /// the argument of an import directive when one was read.
    fn dispatch(&mut self) -> (r: Option<String>)
        requires
            old(self).wf(),
            old(self).pos < old(self).contents@.len(),
        ensures
            final(self).wf_core(),
            final(self).pos > old(self).pos,
            final(self).contents == old(self).contents,
            final(self).closed == old(self).closed,
            final(self).handed == old(self).handed,
            old(self).emitted@.is_prefix_of(final(self).emitted@),
            final(self).tokens@.len() <= old(self).tokens@.len() + 1,
            final(self).emitted@ == old(self).emitted@ + token_seq(
                next::<T>(old(self).contents@, old(self).cursor()).token,
            ),
            final(self).cursor() == advance(
                old(self).cursor(),
                next::<T>(old(self).contents@, old(self).cursor()),
            ),
            r matches Some(name) ==> next::<T>(old(self).contents@, old(self).cursor()).import == Some(
                name@,
            ),
            r is None ==> next::<T>(old(self).contents@, old(self).cursor()).import is None,
    {
        let ghost o = *self;
        let ghost g = self.cursor();
        let ch = self.contents[self.pos];
        proof {
            let cs = self.contents@;
            let p = self.pos as int;
            lemma_run_bounds::<T>(cs, p);
            lemma_run_bounds::<T>(cs, p + 1);
            lemma_munch_bounds::<T>(cs, p, p + 1);
            lemma_string_body_bounds::<T>(cs, p + 1);
            if p + 1 < cs.len() {
                lemma_element_advances::<T>(cs, p + 1);
            }
        }
        if self.eat_comment(ch) {
            proof {
                lemma_step(o, *self, next::<T>(o.contents@, g));
            }
            return None;
        }
        if ch == '\n' {
            self.bump(ch);
            proof {
                Self::lemma_moved_wf(o, *self);
                lemma_step(o, *self, next::<T>(o.contents@, g));
            }
            return None;
        }
        if ch == '"' {
            self.eat_str();
            proof {
                lemma_step(o, *self, next::<T>(o.contents@, g));
            }
            return None;
        }
        if ch == '\'' {
            self.eat_char();
            proof {
                lemma_step(o, *self, next::<T>(o.contents@, g));
            }
            return None;
        }
        if ch == '{' || ch == '}' || ch == '(' || ch == ')' {
            self.eat_structural(ch);
            proof {
                lemma_step(o, *self, next::<T>(o.contents@, g));
            }
            return None;
        }
        if (ch as u32) < 128 {
            let mut one: Vec<u8> = Vec::new();
            one.push(ch as u8);
            assert(one@ =~= seq![ch as u8]);
            if T::is_operator(one.as_slice()) {
                self.eat_delimeter(ch);
                proof {
                    lemma_step(o, *self, next::<T>(o.contents@, g));
                }
                return None;
            }
        }
        if is_delimiter_char::<T>(ch) {
            self.eat_punctuation(ch);
            proof {
                lemma_step(o, *self, next::<T>(o.contents@, g));
            }
            return None;
        }
        if self.state.read_include && is_alphabetic(ch) {
            let name = self.eat_to_newl();
            self.state.read_include = false;
            proof {
                lemma_step(o, *self, next::<T>(o.contents@, g));
            }
            return Some(name);
        }
        if is_alphabetic(ch) {
            self.eat_literal();
            proof {
                lemma_step(o, *self, next::<T>(o.contents@, g));
            }
            return None;
        }
        if is_numeric(ch) {
            self.eat_number(ch);
            proof {
                lemma_step(o, *self, next::<T>(o.contents@, g));
            }
            return None;
        }
        self.bump(ch);
        proof {
            Self::lemma_moved_wf(o, *self);
            lemma_step(o, *self, next::<T>(o.contents@, g));
        }
        None
    }

    /// Runs the main loop until a batch is full, an import directive has been
    /// read, or the input is exhausted, and says what the driver does next.
    #[verifier::rlimit(60)]
    pub fn tokenize(&mut self) -> (r: Step<T::Token>)
        requires
            old(self).wf(),
            !old(self).closed,
        ensures
            final(self).wf(),
            final(self).contents == old(self).contents,
            old(self).emitted@.is_prefix_of(final(self).emitted@),
            final(self).handed@ == old(self).handed@ + views::<T>(batch_of(r)),
            (r is Close) == final(self).closed,
            r is Close ==> final(self).pos == final(self).contents@.len() && final(self).handed@
                == final(self).emitted@,
            !(r is Close) ==> final(self).pos > old(self).pos,
            r is Send ==> batch_of(r).len() == BATCH_SIZE,
            batch_of(r).len() <= BATCH_SIZE,
            old(self).emitted@ + lex_from::<T>(old(self).contents@, old(self).cursor()) == final(self).emitted@ + lex_from::<T>(final(self).contents@, final(self).cursor()),
            r matches Step::Import(_, name) ==> imports_from::<T>(old(self).contents@, old(self).cursor())
                == seq![name@] + imports_from::<T>(final(self).contents@, final(self).cursor()),
            end_cursor::<T>(old(self).contents@, old(self).cursor()) == end_cursor::<T>(
                final(self).contents@,
                final(self).cursor(),
            ),
            !(r is Import) ==> imports_from::<T>(old(self).contents@, old(self).cursor()) == imports_from::<T>(
                final(self).contents@,
                final(self).cursor(),
            ),
    {
        let ghost o = *self;
        while self.pos < self.contents.len()
            invariant
                o == *old(self),
                self.wf(),
                !self.closed,
                self.contents == o.contents,
                self.handed == o.handed,
                o.pos <= self.pos,
                o.emitted@.is_prefix_of(self.emitted@),
                o.emitted@ + lex_from::<T>(o.contents@, o.cursor()) == self.emitted@ + lex_from::<T>(
                    self.contents@,
                    self.cursor(),
                ),
                imports_from::<T>(o.contents@, o.cursor()) == imports_from::<T>(self.contents@, self.cursor()),
                end_cursor::<T>(o.contents@, o.cursor()) == end_cursor::<T>(self.contents@, self.cursor()),
            decreases self.contents@.len() - self.pos,
        {
            let ghost p = self.pos as int;
            let ghost before = self.emitted@;
            let ghost g = self.cursor();
            let name = self.dispatch();
            proof {
                let cs = o.contents@;
                let ts = token_seq(next::<T>(cs, g).token);
                assert(lex_from::<T>(cs, g) == ts + lex_from::<T>(cs, advance(g, next::<T>(cs, g))));
                assert(before + (ts + lex_from::<T>(cs, self.cursor())) =~= (before + ts) + lex_from::<T>(
                    cs,
                    self.cursor(),
                ));
            }
            assert(o.emitted@.is_prefix_of(self.emitted@)) by {
                assert forall|i: int| 0 <= i < o.emitted@.len() implies o.emitted@[i]
                    == self.emitted@[i] by {
                    assert(before[i] == o.emitted@[i]);
                }
            }
            proof {
                let cs = o.contents@;
                let out = next::<T>(cs, g);
                assert(end_cursor::<T>(cs, g) == end_cursor::<T>(cs, advance(g, out)));
                match out.import {
                    Some(m) => {
                        assert(imports_from::<T>(cs, g) == seq![m] + imports_from::<T>(cs, advance(g, out)));
                    },
                    None => {
                        assert(imports_from::<T>(cs, g) == imports_from::<T>(cs, advance(g, out)));
                    },
                }
            }
            if let Some(n) = name {
                let batch = self.take_batch();
                return Step::Import(batch, n);
            }
            if self.tokens.len() >= BATCH_SIZE {
                let batch = self.take_batch();
                return Step::Send(batch);
            }
        }
        let batch = self.take_batch();
        self.closed = true;
        Step::Close(batch)
    }

    /// Runs the lexer to the end of its input and returns every step in order:
    /// the last step, and only it, closes the stream, and the batches hand out
    /// every emitted token in emission order.
    pub fn run(&mut self) -> (steps: Vec<Step<T::Token>>)
        requires
            old(self).wf(),
            !old(self).closed,
        ensures
            final(self).wf(),
            final(self).closed,
            final(self).pos == final(self).contents@.len(),
            final(self).contents == old(self).contents,
            steps@.len() >= 1,
            steps@.last() is Close,
            forall|i: int| 0 <= i < steps@.len() - 1 ==> !(#[trigger] steps@[i] is Close),
            old(self).handed@ + flatten::<T>(steps@) == final(self).emitted@,
            old(self).emitted@.is_prefix_of(final(self).emitted@),
            final(self).emitted@ == old(self).emitted@ + lex_from::<T>(
                old(self).contents@,
                old(self).cursor(),
            ),
            step_imports(steps@) == imports_from::<T>(old(self).contents@, old(self).cursor()),
            final(self).cursor() == end_cursor::<T>(old(self).contents@, old(self).cursor()),
    {
        let ghost o = *self;
        let mut steps: Vec<Step<T::Token>> = Vec::new();
        loop
            invariant_except_break
                self.wf(),
                !self.closed,
                self.contents == o.contents,
                o.handed@ + flatten::<T>(steps@) == self.handed@,
                o.emitted@.is_prefix_of(self.emitted@),
                forall|i: int| 0 <= i < steps@.len() ==> !(#[trigger] steps@[i] is Close),
                o.emitted@ + lex_from::<T>(o.contents@, o.cursor()) == self.emitted@ + lex_from::<T>(
                    self.contents@,
                    self.cursor(),
                ),
                step_imports(steps@) + imports_from::<T>(self.contents@, self.cursor()) == imports_from::<T>(
                    o.contents@,
                    o.cursor(),
                ),
                end_cursor::<T>(o.contents@, o.cursor()) == end_cursor::<T>(self.contents@, self.cursor()),
            ensures
                self.wf(),
                self.closed,
                self.pos == self.contents@.len(),
                self.contents == o.contents,
                steps@.len() >= 1,
                steps@.last() is Close,
                forall|i: int| 0 <= i < steps@.len() - 1 ==> !(#[trigger] steps@[i] is Close),
                o.handed@ + flatten::<T>(steps@) == self.emitted@,
                o.emitted@.is_prefix_of(self.emitted@),
                o.emitted@ + lex_from::<T>(o.contents@, o.cursor()) == self.emitted@ + lex_from::<T>(
                    self.contents@,
                    self.cursor(),
                ),
                step_imports(steps@) + imports_from::<T>(self.contents@, self.cursor()) == imports_from::<T>(
                    o.contents@,
                    o.cursor(),
                ),
                end_cursor::<T>(o.contents@, o.cursor()) == end_cursor::<T>(self.contents@, self.cursor()),
            decreases self.contents@.len() - self.pos,
        {
            let ghost before = self.emitted@;
            let ghost prev = steps@;
            let ghost g0 = self.cursor();
            let step = self.tokenize();
            let done = match &step {
                Step::Close(_) => true,
                _ => false,
            };
            steps.push(step);
            proof {
                assert(steps@.drop_last() =~= prev);
                let cs = o.contents@;
                match steps@.last() {
                    Step::Import(_, n) => {
                        assert(step_imports(steps@) == step_imports(prev) + seq![n@]);
                        assert(step_imports(steps@) + imports_from::<T>(cs, self.cursor()) =~= step_imports(
                            prev,
                        ) + imports_from::<T>(cs, g0));
                    },
                    _ => {
                        assert(step_imports(steps@) =~= step_imports(prev));
                    },
                }
                assert(o.handed@ + flatten::<T>(steps@) =~= (o.handed@ + flatten::<T>(prev)) + views::<T>(
                    batch_of(steps@.last()),
                ));
                assert forall|i: int| 0 <= i < o.emitted@.len() implies o.emitted@[i]
                    == self.emitted@[i] by {
                    assert(before[i] == o.emitted@[i]);
                }
                assert forall|i: int| 0 <= i < steps@.len() - 1 implies !(
                #[trigger] steps@[i] is Close) by {
                    assert(steps@[i] == prev[i]);
                }
            }
            if done {
                break;
            }
        }
        assert(self.emitted@ + lex_from::<T>(self.contents@, self.cursor()) =~= self.emitted@);
        assert(end_cursor::<T>(self.contents@, self.cursor()) == self.cursor());
        assert(step_imports(steps@) + imports_from::<T>(self.contents@, self.cursor()) =~= step_imports(
            steps@,
        ));
        steps
    }

}

/// Appends the decoded text of a unicode escape's digits.
fn push_decoded(out: &mut Vec<char>, body: &Vec<char>)
    ensures
        final(out)@ == old(out)@ + decode_code(body@),
{
    if let Some(n) = parse_hex_u32(body.as_slice()) {
        if let Some(c) = char_from_u32(n) {
            out.push(c);
            assert(out@ =~= old(out)@ + decode_code(body@));
            return;
        }
    }
    out.extend_from_slice(body.as_slice());
    assert(out@ =~= old(out)@ + decode_code(body@));
}


/// The smaller of two integers.
pub open spec fn min_int(a: int, b: int) -> int {
    if a < b {
        a
    } else {
        b
    }
}

/// Whether a character's byte is a delimiter.
pub fn is_delimiter_char<T: Delimeted>(c: char) -> (r: bool)
    ensures
        r == delim_char::<T>(c),
{
    (c as u32) < 128 && T::is_delimeter(&(c as u8))
}

/// The emitted stream after an inference, as a concatenation.
pub proof fn lemma_extend_concat<T: Lexable>(ts: Seq<T::TokenView>, lexeme: Seq<char>, st: State)
    ensures
        extend::<T>(ts, lexeme, st) == ts + token_seq(
            T::spec_infer(lexeme, st.brace_level, st.in_str, st.in_char),
        ),
{
    match T::spec_infer(lexeme, st.brace_level, st.in_str, st.in_char) {
        Some(t) => {
            assert(ts.push(t) =~= ts + seq![t]);
        },
        None => {
            assert(ts =~= ts + Seq::<T::TokenView>::empty());
        },
    }
}

/// Appending a token that began at `origin` keeps the order of origins.
pub proof fn lemma_stream_push<T: Delimeted + Lexable>(
    o: Lexer<T>,
    n: Lexer<T>,
    t: T::TokenView,
    origin: int,
)
    requires
        o.wf_stream(),
        n.emitted@ == o.emitted@.push(t),
        n.origins@ == o.origins@.push(origin),
        forall|i: int| 0 <= i < o.origins@.len() ==> #[trigger] o.origins@[i] < origin,
        0 <= origin < n.pos,
        o.pos <= n.pos,
    ensures
        forall|i: int, j: int| 0 <= i < j < n.origins@.len() ==> n.origins@[i] < n.origins@[j],
        forall|i: int| 0 <= i < n.origins@.len() ==> 0 <= #[trigger] n.origins@[i] < n.pos,
{
    assert forall|i: int, j: int| 0 <= i < j < n.origins@.len() implies n.origins@[i]
        < n.origins@[j] by {
        assert(n.origins@[i] == o.origins@[i]);
        if j < o.origins@.len() {
            assert(n.origins@[j] == o.origins@[j]);
        }
    }
    assert forall|i: int| 0 <= i < n.origins@.len() implies 0 <= #[trigger] n.origins@[i]
        < n.pos by {
        if i < o.origins@.len() {
            assert(n.origins@[i] == o.origins@[i]);
        }
    }
}

/// After a step whose outcome is `out`, the emitted stream and the cursor are
/// what `out` says.
pub proof fn lemma_step<T: Delimeted + Lexable>(o: Lexer<T>, n: Lexer<T>, out: Outcome<T::TokenView>)
    requires
        o.wf_stream(),
        n.wf_stream(),
        n.pos == out.pos,
        n.state.brace_level == out.brace,
        n.state.paren_level == out.paren,
        n.state.read_include == out.pending_import,
        n.emitted@ == o.emitted@ + token_seq(out.token) || n.emitted@ == (match out.token {
            Some(t) => o.emitted@.push(t),
            None => o.emitted@,
        }),
    ensures
        n.emitted@ == o.emitted@ + token_seq(out.token),
        n.cursor() == advance(o.cursor(), out),
{
    match out.token {
        Some(t) => {
            assert(o.emitted@.push(t) =~= o.emitted@ + seq![t]);
        },
        None => {
            assert(o.emitted@ =~= o.emitted@ + Seq::<T::TokenView>::empty());
        },
    }
}




} // verus!
