//! The reader of the declarative language-description format: an INI-like
//! file of bracketed sections with one entry per line.
use crate::strs::{
    same_chars, split_once, split_once_at, trim, trim_bracket_chars, trim_brackets,
    trim_by, trim_char, trim_end_by, trim_end_char, trim_start_by, trim_start_char,
    trim_start_ws, trim_ws,
};
use crate::syntx::{empty_view, pairs_view, texts_view, CurrentState, Syntx, SyntxView};
use crate::text::{chars_of, is_white_space, lemma_split_nonempty, split_fields, string_of};
use vstd::prelude::*;

verus! {

/// The upper-case mapping of a character (one or more characters).
pub uninterp spec fn upper_of(c: char) -> Seq<char>;

/// Relies on char::to_uppercase: the mapping depends on the character alone.
#[verifier::external_body]
fn char_to_uppercase(c: char) -> (r: String)
    ensures
        r@ == upper_of(c),
{
    c.to_uppercase().collect()
}

/// A text with its first character upper-cased.
pub open spec fn capitalized(s: Seq<char>) -> Seq<char> {
    if s.len() == 0 {
        s
    } else {
        upper_of(s[0]) + s.drop_first()
    }
}

/// Upper-cases the first character of `s`.
pub fn capitalize(s: &str) -> (r: String)
    ensures
        r@ == capitalized(s@),
{
    let cs = chars_of(s);
    if cs.len() == 0 {
        return string_of(&cs);
    }
    let first = char_to_uppercase(cs[0]);
    let mut out = chars_of(first.as_str());
    let mut i: usize = 1;
    while i < cs.len()
        invariant
            1 <= i <= cs@.len(),
            out@ == upper_of(cs@[0]) + cs@.subrange(1, i as int),
        decreases cs@.len() - i,
    {
        out.push(cs[i]);
        i = i + 1;
        assert(out@ =~= upper_of(cs@[0]) + cs@.subrange(1, i as int));
    }
    assert(cs@.subrange(1, cs@.len() as int) =~= cs@.drop_first());
    string_of(&out)
}

/// An escape entry's value: leading white space, one trailing `;`, one
/// leading and one trailing `"` removed.
pub open spec fn quotes_trimmed(s: Seq<char>) -> Seq<char> {
    let s1 = trim_start_ws(s);
    let s2 = if s1.len() > 0 && s1.last() == ';' {
        s1.drop_last()
    } else {
        s1
    };
    let s3 = if s2.len() > 0 && s2[0] == '"' {
        s2.drop_first()
    } else {
        s2
    };
    if s3.len() > 0 && s3.last() == '"' {
        s3.drop_last()
    } else {
        s3
    }
}

/// Trims an escape entry's value.
pub fn trim_quotes(s: &str) -> (r: &str)
    ensures
        r@ == quotes_trimmed(s@),
{
    let cs = chars_of(s);
    let mut a: usize = 0;
    assert(cs@.subrange(0, cs@.len() as int) =~= cs@);
    while a < cs.len() && is_white_space(cs[a])
        invariant
            a <= cs@.len(),
            trim_start_ws(cs@) == trim_start_ws(cs@.subrange(a as int, cs@.len() as int)),
        decreases cs@.len() - a,
    {
        assert(cs@.subrange(a as int, cs@.len() as int).drop_first() =~= cs@.subrange(
            a + 1,
            cs@.len() as int,
        ));
        a = a + 1;
    }
    let mut b: usize = cs.len();
    assert(trim_start_ws(cs@) =~= cs@.subrange(a as int, b as int));
    if b > a && cs[b - 1] == ';' {
        b = b - 1;
    }
    if b > a && cs[a] == '"' {
        a = a + 1;
    }
    if b > a && cs[b - 1] == '"' {
        b = b - 1;
    }
    proof {
        let s1 = trim_start_ws(s@);
        let s2 = if s1.len() > 0 && s1.last() == ';' {
            s1.drop_last()
        } else {
            s1
        };
        let s3 = if s2.len() > 0 && s2[0] == '"' {
            s2.drop_first()
        } else {
            s2
        };
        assert(cs@.subrange(a as int, b as int) =~= if s3.len() > 0 && s3.last() == '"' {
            s3.drop_last()
        } else {
            s3
        });
    }
    s.substring_char(a, b)
}

/// The section that a header line opens.
pub open spec fn header(l: Seq<char>) -> Option<CurrentState> {
    if l == seq!['[', 'i', 'n', 'f', 'o', ']'] {
        Some(CurrentState::Info)
    } else if l == seq!['[', 't', 'o', 'k', 'e', 'n', 's', ']'] {
        Some(CurrentState::Tokens)
    } else if l == seq!['[', 'd', 'e', 'l', 'i', 'm', 'e', 't', 'e', 'r', 's', ']'] {
        Some(CurrentState::Delimeters)
    } else if l == seq!['[', 'o', 'p', 'e', 'r', 'a', 't', 'o', 'r', 's', ']'] {
        Some(CurrentState::Operators)
    } else if l == seq!['[', 'c', 'o', 'm', 'm', 'e', 'n', 't', 's', ']'] {
        Some(CurrentState::Comments)
    } else if l == seq!['[', 'k', 'e', 'y', 'w', 'o', 'r', 'd', 's', ']'] {
        Some(CurrentState::Keywords)
    } else if l == seq!['[', 's', 'c', 'a', 'p', 'e', 's', ']'] {
        Some(CurrentState::Scapes)
    } else if l == seq!['[', 'n', 'u', 'm', 'b', 'e', 'r', 's', ']'] {
        Some(CurrentState::Numbers)
    } else {
        None
    }
}

/// The first position at or after `i` whose key is `k`, or -1.
pub open spec fn key_index(m: Seq<(Seq<char>, Seq<char>)>, k: Seq<char>, i: int) -> int
    decreases m.len() - i,
{
    if i < 0 || i >= m.len() {
        -1
    } else if m[i].0 == k {
        i
    } else {
        key_index(m, k, i + 1)
    }
}

/// The map `m` with `k` bound to `v`: in place when `k` is bound, else at the end.
pub open spec fn map_insert(m: Seq<(Seq<char>, Seq<char>)>, k: Seq<char>, v: Seq<char>) -> Seq<
    (Seq<char>, Seq<char>),
> {
    let i = key_index(m, k, 0);
    if i >= 0 {
        m.update(i, (k, v))
    } else {
        m.push((k, v))
    }
}

/// The parts of a block comment entry: between commas, trimmed of white space
/// and quotes.
pub open spec fn block_parts(val: Seq<char>) -> Seq<Seq<char>> {
    split_fields(trim_brackets(val), ',').map_values(|p: Seq<char>| trim_by(trim_ws(p), '"'))
}

/// An entry of the `[comments]` section.
pub open spec fn comments_line(v: SyntxView, l: Seq<char>) -> SyntxView {
    match split_once(l, '=') {
        Some((k, value)) => {
            let key = trim_ws(k);
            let val = trim_end_by(trim_ws(value), ';');
            if key == seq!['l', 'i', 'n', 'e'] {
                SyntxView { line_comment: trim_by(val, '"'), ..v }
            } else if key == seq!['b', 'l', 'o', 'c', 'k'] {
                let parts = block_parts(val);
                if parts.len() == 2 {
                    SyntxView { block_comment: (parts[0], parts[1]), ..v }
                } else {
                    v
                }
            } else {
                v
            }
        },
        None => v,
    }
}

/// The list of the `[numbers]` section.
pub open spec fn number_list(l: Seq<char>) -> Seq<Seq<char>> {
    split_fields(trim_end_by(trim_start_by(trim_end_by(l, ';'), '['), ']'), ',').map_values(
        |x: Seq<char>| trim_end_by(trim_start_by(trim_ws(x), '"'), '"'),
    )
}

/// The value of a `[tokens]` entry.
pub open spec fn token_value(value: Seq<char>) -> Seq<char> {
    trim_end_by(trim_by(trim_end_by(trim_ws(value), ';'), '"'), '"')
}

/// The value of the `[info]` name entry.
pub open spec fn name_value(value: Seq<char>) -> Seq<char> {
    trim_start_by(trim_end_by(trim_end_by(trim_ws(value), ';'), '"'), '"')
}

/// The description after reading one more line.
pub open spec fn apply_line(v: SyntxView, raw: Seq<char>) -> SyntxView {
    let l = trim_ws(raw);
    if l.len() == 0 || l[0] == '#' {
        v
    } else if header(l) is Some {
        SyntxView { state: header(l), ..v }
    } else {
        match v.state {
            None => v,
            Some(CurrentState::Info) => match split_once(l, '=') {
                Some((_, value)) => SyntxView { name: name_value(value), ..v },
                None => v,
            },
            Some(CurrentState::Tokens) => match split_once(l, '=') {
                Some((k, value)) => SyntxView {
                    tokens: map_insert(v.tokens, trim_ws(k), token_value(value)),
                    ..v
                },
                None => v,
            },
            Some(CurrentState::Delimeters) => SyntxView {
                delimiters: v.delimiters.push(trim_end_by(l, ';')),
                ..v
            },
            Some(CurrentState::Operators) => SyntxView {
                operators: v.operators.push(trim_end_by(l, ';')),
                ..v
            },
            Some(CurrentState::Comments) => comments_line(v, l),
            Some(CurrentState::Keywords) => SyntxView {
                keywords: map_insert(
                    v.keywords,
                    capitalized(trim_end_by(l, ';')),
                    trim_end_by(l, ';'),
                ),
                ..v
            },
            Some(CurrentState::Scapes) => match split_once(l, '=') {
                Some((k, value)) => SyntxView {
                    scapes: map_insert(v.scapes, trim_ws(k), quotes_trimmed(value)),
                    ..v
                },
                None => v,
            },
            Some(CurrentState::Numbers) => SyntxView { numbers: number_list(l), ..v },
        }
    }
}

/// The description after reading a sequence of lines.
pub open spec fn apply_lines(lines: Seq<Seq<char>>) -> SyntxView
    decreases lines.len(),
{
    if lines.len() == 0 {
        empty_view()
    } else {
        apply_line(apply_lines(lines.drop_last()), lines.last())
    }
}

/// The description that a specification file's text gives.
pub open spec fn parsed(src: Seq<char>) -> SyntxView {
    apply_lines(split_fields(src, '\n'))
}

} // verus!

verus! {

/// Splits `s` at every `sep`.
pub fn split_chars(s: &[char], sep: char) -> (r: Vec<Vec<char>>)
    ensures
        r@.len() == split_fields(s@, sep).len(),
        forall|k: int| 0 <= k < r@.len() ==> #[trigger] r@[k]@ == split_fields(s@, sep)[k],
{
    let mut fields: Vec<Vec<char>> = Vec::new();
    fields.push(Vec::new());
    let mut i: usize = 0;
    assert(s@.subrange(0, 0) =~= Seq::<char>::empty());
    while i < s.len()
        invariant
            i <= s@.len(),
            fields@.len() == split_fields(s@.subrange(0, i as int), sep).len(),
            forall|k: int| 0 <= k < fields@.len() ==> #[trigger] fields@[k]@ == split_fields(
                s@.subrange(0, i as int),
                sep,
            )[k],
        decreases s@.len() - i,
    {
        let ghost pre = s@.subrange(0, i as int);
        let c = s[i];
        proof {
            lemma_split_nonempty(pre, sep);
            assert(s@.subrange(0, i + 1).drop_last() =~= pre);
        }
        if c == sep {
            fields.push(Vec::new());
        } else {
            let last = fields.len() - 1;
            let mut f = fields.remove(last);
            f.push(c);
            fields.push(f);
        }
        i = i + 1;
        proof {
            let post = split_fields(s@.subrange(0, i as int), sep);
            assert forall|k: int| 0 <= k < fields@.len() implies #[trigger] fields@[k]@ == post[k] by {
            }
        }
    }
    assert(s@.subrange(0, s@.len() as int) =~= s@);
    fields
}

/// The section that a header line opens.
fn header_of(l: &[char]) -> (r: Option<CurrentState>)
    ensures
        r == header(l@),
{
    let info = ['[', 'i', 'n', 'f', 'o', ']'];
    let tokens = ['[', 't', 'o', 'k', 'e', 'n', 's', ']'];
    let delimeters = ['[', 'd', 'e', 'l', 'i', 'm', 'e', 't', 'e', 'r', 's', ']'];
    let operators = ['[', 'o', 'p', 'e', 'r', 'a', 't', 'o', 'r', 's', ']'];
    let comments = ['[', 'c', 'o', 'm', 'm', 'e', 'n', 't', 's', ']'];
    let keywords = ['[', 'k', 'e', 'y', 'w', 'o', 'r', 'd', 's', ']'];
    let scapes = ['[', 's', 'c', 'a', 'p', 'e', 's', ']'];
    let numbers = ['[', 'n', 'u', 'm', 'b', 'e', 'r', 's', ']'];
    assert(info@ =~= seq!['[', 'i', 'n', 'f', 'o', ']']);
    assert(tokens@ =~= seq!['[', 't', 'o', 'k', 'e', 'n', 's', ']']);
    assert(delimeters@ =~= seq!['[', 'd', 'e', 'l', 'i', 'm', 'e', 't', 'e', 'r', 's', ']']);
    assert(operators@ =~= seq!['[', 'o', 'p', 'e', 'r', 'a', 't', 'o', 'r', 's', ']']);
    assert(comments@ =~= seq!['[', 'c', 'o', 'm', 'm', 'e', 'n', 't', 's', ']']);
    assert(keywords@ =~= seq!['[', 'k', 'e', 'y', 'w', 'o', 'r', 'd', 's', ']']);
    assert(scapes@ =~= seq!['[', 's', 'c', 'a', 'p', 'e', 's', ']']);
    assert(numbers@ =~= seq!['[', 'n', 'u', 'm', 'b', 'e', 'r', 's', ']']);
    if same_chars(l, &info) {
        Some(CurrentState::Info)
    } else if same_chars(l, &tokens) {
        Some(CurrentState::Tokens)
    } else if same_chars(l, &delimeters) {
        Some(CurrentState::Delimeters)
    } else if same_chars(l, &operators) {
        Some(CurrentState::Operators)
    } else if same_chars(l, &comments) {
        Some(CurrentState::Comments)
    } else if same_chars(l, &keywords) {
        Some(CurrentState::Keywords)
    } else if same_chars(l, &scapes) {
        Some(CurrentState::Scapes)
    } else if same_chars(l, &numbers) {
        Some(CurrentState::Numbers)
    } else {
        None
    }
}

/// Binds `k` to `v` in the map `m`: in place when `k` is bound, else at the end.
fn insert_pair(m: &mut Vec<(String, String)>, k: String, v: String)
    ensures
        pairs_view(final(m)@) == map_insert(pairs_view(old(m)@), k@, v@),
{
    let ghost mv = pairs_view(m@);
    let mut i: usize = 0;
    while i < m.len()
        invariant
            i <= m@.len(),
            m@ == old(m)@,
            mv == pairs_view(m@),
            key_index(mv, k@, 0) == key_index(mv, k@, i as int),
        decreases m@.len() - i,
    {
        if m[i].0 == k {
            m[i] = (k, v);
            assert(pairs_view(m@) =~= mv.update(i as int, (k@, v@)));
            return;
        }
        i = i + 1;
    }
    m.push((k, v));
    assert(pairs_view(m@) =~= mv.push((k@, v@)));
}

/// Appends a text to a list of texts.
fn push_text(list: &mut Vec<String>, t: &Vec<char>)
    ensures
        texts_view(final(list)@) == texts_view(old(list)@).push(t@),
{
    list.push(string_of(t));
    assert(texts_view(list@) =~= texts_view(old(list)@).push(t@));
}

/// Reads one entry of the `[comments]` section.
fn comments_entry(stx: &mut Syntx, l: &Vec<char>)
    ensures
        final(stx)@ == comments_line(old(stx)@, l@),
{
    if let Some((k, value)) = split_once_at(l.as_slice(), '=') {
        let key = trim(k.as_slice());
        let tv = trim(value.as_slice());
        let val = trim_end_char(tv.as_slice(), ';');
        let line = ['l', 'i', 'n', 'e'];
        let block = ['b', 'l', 'o', 'c', 'k'];
        assert(line@ =~= seq!['l', 'i', 'n', 'e']);
        assert(block@ =~= seq!['b', 'l', 'o', 'c', 'k']);
        if same_chars(key.as_slice(), &line) {
            let lc = trim_char(val.as_slice(), '"');
            stx.line_comment = string_of(&lc);
        } else if same_chars(key.as_slice(), &block) {
            let inner = trim_bracket_chars(val.as_slice());
            let fields = split_chars(inner.as_slice(), ',');
            if fields.len() == 2 {
                let p0 = trim_char(trim(fields[0].as_slice()).as_slice(), '"');
                let p1 = trim_char(trim(fields[1].as_slice()).as_slice(), '"');
                proof {
                    let parts = block_parts(val@);
                    assert(parts[0] == p0@);
                    assert(parts[1] == p1@);
                }
                stx.block_start = string_of(&p0);
                stx.block_end = string_of(&p1);
            }
        }
    }
}

/// The list of the `[numbers]` section.
fn numbers_entry(l: &Vec<char>) -> (r: Vec<String>)
    ensures
        texts_view(r@) == number_list(l@),
{
    let a = trim_end_char(l.as_slice(), ';');
    let b = trim_start_char(a.as_slice(), '[');
    let c = trim_end_char(b.as_slice(), ']');
    let fields = split_chars(c.as_slice(), ',');
    let ghost want = number_list(l@);
    let mut r: Vec<String> = Vec::new();
    let mut i: usize = 0;
    while i < fields.len()
        invariant
            i <= fields@.len(),
            fields@.len() == want.len(),
            forall|k: int| 0 <= k < fields@.len() ==> #[trigger] fields@[k]@ == split_fields(c@, ',')[k],
            c@ == trim_end_by(trim_start_by(trim_end_by(l@, ';'), '['), ']'),
            want == number_list(l@),
            texts_view(r@) == want.subrange(0, i as int),
        decreases fields@.len() - i,
    {
        let t = trim(fields[i].as_slice());
        let u = trim_start_char(t.as_slice(), '"');
        let w = trim_end_char(u.as_slice(), '"');
        let ghost before = r@;
        assert(want[i as int] == w@);
        r.push(string_of(&w));
        assert(texts_view(r@) =~= texts_view(before).push(w@));
        assert(want.subrange(0, i + 1) =~= want.subrange(0, i as int).push(want[i as int]));
        i = i + 1;
    }
    assert(want.subrange(0, want.len() as int) =~= want);
    r
}

/// Reads one line of a specification file.
fn apply(stx: &mut Syntx, raw: &Vec<char>)
    ensures
        final(stx)@ == apply_line(old(stx)@, raw@),
{
    let l = trim(raw.as_slice());
    if l.len() == 0 || l[0] == '#' {
        return;
    }
    if let Some(h) = header_of(l.as_slice()) {
        stx.state = Some(h);
        return;
    }
    match stx.state {
        None => {},
        Some(CurrentState::Info) => {
            if let Some((_, value)) = split_once_at(l.as_slice(), '=') {
                let a = trim(value.as_slice());
                let b = trim_end_char(a.as_slice(), ';');
                let c = trim_end_char(b.as_slice(), '"');
                let d = trim_start_char(c.as_slice(), '"');
                stx.name = string_of(&d);
            }
        },
        Some(CurrentState::Tokens) => {
            if let Some((k, value)) = split_once_at(l.as_slice(), '=') {
                let key = trim(k.as_slice());
                let a = trim(value.as_slice());
                let b = trim_end_char(a.as_slice(), ';');
                let c = trim_char(b.as_slice(), '"');
                let d = trim_end_char(c.as_slice(), '"');
                insert_pair(&mut stx.tokens, string_of(&key), string_of(&d));
            }
        },
        Some(CurrentState::Delimeters) => {
            let t = trim_end_char(l.as_slice(), ';');
            push_text(&mut stx.delimiters, &t);
        },
        Some(CurrentState::Operators) => {
            let t = trim_end_char(l.as_slice(), ';');
            push_text(&mut stx.operators, &t);
        },
        Some(CurrentState::Comments) => {
            comments_entry(stx, &l);
        },
        Some(CurrentState::Keywords) => {
            let t = trim_end_char(l.as_slice(), ';');
            let kw = string_of(&t);
            let cap = capitalize(kw.as_str());
            insert_pair(&mut stx.keywords, cap, kw);
        },
        Some(CurrentState::Scapes) => {
            if let Some((k, value)) = split_once_at(l.as_slice(), '=') {
                let key = trim(k.as_slice());
                let vs = string_of(&value);
                let tq = trim_quotes(vs.as_str());
                let tv = chars_of(tq);
                insert_pair(&mut stx.scapes, string_of(&key), string_of(&tv));
            }
        },
        Some(CurrentState::Numbers) => {
            stx.numbers = numbers_entry(&l);
        },
    }
}

/// Reads a language's specification file.
pub fn codegen(src: &str) -> (r: Syntx)
    ensures
        r@ == parsed(src@),
{
    let mut stx = Syntx::default();
    let cs = chars_of(src);
    let lines = split_chars(cs.as_slice(), '\n');
    let ghost all = split_fields(src@, '\n');
    let mut i: usize = 0;
    assert(all.subrange(0, 0) =~= Seq::<Seq<char>>::empty());
    while i < lines.len()
        invariant
            i <= lines@.len(),
            lines@.len() == all.len(),
            all == split_fields(src@, '\n'),
            cs@ == src@,
            forall|k: int| 0 <= k < lines@.len() ==> #[trigger] lines@[k]@ == all[k],
            stx@ == apply_lines(all.subrange(0, i as int)),
        decreases lines@.len() - i,
    {
        apply(&mut stx, &lines[i]);
        proof {
            assert(all.subrange(0, i + 1).drop_last() =~= all.subrange(0, i as int));
        }
        i = i + 1;
    }
    assert(all.subrange(0, all.len() as int) =~= all);
    stx
}

} // verus!

verus! {

impl Syntx {
    /// The literal text bound to a token name in the `[tokens]` section.
    pub fn token_literal(&self, name: &String) -> (r: Option<String>)
        ensures
            r is Some <==> key_index(pairs_view(self.tokens@), name@, 0) >= 0,
            r matches Some(v) ==> v@ == pairs_view(self.tokens@)[key_index(
                pairs_view(self.tokens@),
                name@,
                0,
            )].1,
    {
        let ghost m = pairs_view(self.tokens@);
        let mut i: usize = 0;
        while i < self.tokens.len()
            invariant
                i <= self.tokens@.len(),
                m == pairs_view(self.tokens@),
                key_index(m, name@, 0) == key_index(m, name@, i as int),
            decreases self.tokens@.len() - i,
        {
            if self.tokens[i].0 == *name {
                return Some(self.tokens[i].1.clone());
            }
            i = i + 1;
        }
        None
    }
}

} // verus!
