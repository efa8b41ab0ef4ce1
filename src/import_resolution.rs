//! The computing half of the import resolver: which imports are resolved, the
//! relative path that a dotted name maps to, and the search path. Reading
//! directories and files is left to the caller.
use crate::text::{lemma_split_nonempty, split_fields, string_of};
use vstd::prelude::*;

verus! {

/// Where an import's sources are found.
pub enum ImportTarget {
    /// Every source file in this directory.
    Wildcard(String),
    /// This file, relative to each search-path root in turn.
    File(String),
}

/// The system namespace, whose imports are never resolved.
pub open spec fn system_name(s: Seq<char>) -> bool {
    s.len() >= 4 && s[0] == 'j' && s[1] == 'a' && s[2] == 'v' && s[3] == 'a'
}

/// The source extension.
pub open spec fn extension() -> Seq<char> {
    seq!['.', 'j', 'a', 'v', 'a']
}

/// A dotted name with each `.` turned into a path separator.
pub open spec fn dots_to_slashes(s: Seq<char>) -> Seq<char> {
    s.map_values(|c: char| if c == '.' {
        '/'
    } else {
        c
    })
}

/// The relative path of a dotted name: separators for dots, then the extension.
pub open spec fn import_path(s: Seq<char>) -> Seq<char> {
    dots_to_slashes(s) + extension()
}

/// A wildcard path ends in `*` and the extension.
pub open spec fn wildcard(p: Seq<char>) -> bool {
    p.len() >= 6 && p[p.len() - 6] == '*' && p.subrange(p.len() - 5, p.len() as int) == extension()
}

/// The target of an import of `name`, or `None` for the system namespace.
pub open spec fn target_of(name: Seq<char>) -> Option<(bool, Seq<char>)> {
    if system_name(name) {
        None
    } else if wildcard(import_path(name)) {
        Some((true, import_path(name).subrange(0, import_path(name).len() - 6)))
    } else {
        Some((false, import_path(name)))
    }
}

/// The mathematical value of a target: whether it is a wildcard, and its path.
pub open spec fn target_view(t: ImportTarget) -> (bool, Seq<char>) {
    match t {
        ImportTarget::Wildcard(d) => (true, d@),
        ImportTarget::File(f) => (false, f@),
    }
}

/// Plans the resolution of an import directive's argument.
pub fn import_target(name: &str) -> (r: Option<ImportTarget>)
    ensures
        r is Some <==> target_of(name@) is Some,
        r matches Some(t) ==> target_view(t) == target_of(name@)->0,
{
    let cs = crate::text::chars_of(name);
    if cs.len() >= 4 && cs[0] == 'j' && cs[1] == 'a' && cs[2] == 'v' && cs[3] == 'a' {
        return None;
    }
    let mut p: Vec<char> = Vec::new();
    let mut i: usize = 0;
    while i < cs.len()
        invariant
            i <= cs@.len(),
            p@ == dots_to_slashes(cs@.subrange(0, i as int)),
        decreases cs@.len() - i,
    {
        let c = cs[i];
        p.push(if c == '.' {
            '/'
        } else {
            c
        });
        i = i + 1;
        assert(p@ =~= dots_to_slashes(cs@.subrange(0, i as int)));
    }
    assert(cs@.subrange(0, cs@.len() as int) =~= cs@);
    p.push('.');
    p.push('j');
    p.push('a');
    p.push('v');
    p.push('a');
    assert(p@ =~= import_path(name@));
    let n = p.len();
    if n >= 6 && p[n - 6] == '*' && p[n - 5] == '.' && p[n - 4] == 'j' && p[n - 3] == 'a' && p[n
        - 2] == 'v' && p[n - 1] == 'a' {
        assert(p@.subrange(n - 5, n as int) =~= extension());
        let mut d: Vec<char> = Vec::new();
        let mut k: usize = 0;
        while k < n - 6
            invariant
                n == p@.len(),
                n >= 6,
                k <= n - 6,
                d@ == p@.subrange(0, k as int),
            decreases n - 6 - k,
        {
            d.push(p[k]);
            k = k + 1;
            assert(d@ =~= p@.subrange(0, k as int));
        }
        Some(ImportTarget::Wildcard(string_of(&d)))
    } else {
        assert(!wildcard(p@)) by {
            if wildcard(p@) {
                assert(p@.subrange(n - 5, n as int)[0] == '.');
                assert(p@.subrange(n - 5, n as int)[1] == 'j');
                assert(p@.subrange(n - 5, n as int)[2] == 'a');
                assert(p@.subrange(n - 5, n as int)[3] == 'v');
                assert(p@.subrange(n - 5, n as int)[4] == 'a');
            }
        }
        Some(ImportTarget::File(string_of(&p)))
    }
}

/// The search-path roots of a class path: its fields between separators, or
/// the current directory when the class path is empty.
pub open spec fn search_roots(classpath: Seq<char>, sep: char) -> Seq<Seq<char>> {
    if classpath.len() == 0 {
        seq![seq!['.']]
    } else {
        split_fields(classpath, sep)
    }
}

/// Splits a class path into its search-path roots.
pub fn search_path(classpath: &str, separator: char) -> (r: Vec<String>)
    ensures
        r@.len() == search_roots(classpath@, separator).len(),
        forall|i: int| 0 <= i < r@.len() ==> #[trigger] r@[i]@ == search_roots(classpath@, separator)[i],
{
    let cs = crate::text::chars_of(classpath);
    if cs.len() == 0 {
        let mut dot: Vec<char> = Vec::new();
        dot.push('.');
        let mut r: Vec<String> = Vec::new();
        r.push(string_of(&dot));
        assert(dot@ =~= seq!['.']);
        return r;
    }
    let mut fields: Vec<Vec<char>> = Vec::new();
    fields.push(Vec::new());
    let mut i: usize = 0;
    assert(cs@.subrange(0, 0) =~= Seq::<char>::empty());
    while i < cs.len()
        invariant
            i <= cs@.len(),
            fields@.len() == split_fields(cs@.subrange(0, i as int), separator).len(),
            forall|k: int| 0 <= k < fields@.len() ==> #[trigger] fields@[k]@ == split_fields(
                cs@.subrange(0, i as int),
                separator,
            )[k],
        decreases cs@.len() - i,
    {
        let ghost pre = cs@.subrange(0, i as int);
        let c = cs[i];
        proof {
            lemma_split_nonempty(pre, separator);
            assert(cs@.subrange(0, i + 1).drop_last() =~= pre);
        }
        if c == separator {
            fields.push(Vec::new());
        } else {
            let last = fields.len() - 1;
            let mut f = fields.remove(last);
            f.push(c);
            fields.push(f);
        }
        i = i + 1;
        proof {
            let post = split_fields(cs@.subrange(0, i as int), separator);
            assert forall|k: int| 0 <= k < fields@.len() implies #[trigger] fields@[k]@ == post[k] by {
            }
        }
    }
    assert(cs@.subrange(0, cs@.len() as int) =~= cs@);
    let mut r: Vec<String> = Vec::new();
    let mut k: usize = 0;
    while k < fields.len()
        invariant
            k <= fields@.len(),
            r@.len() == k,
            fields@.len() == search_roots(cs@, separator).len(),
            forall|m: int| 0 <= m < fields@.len() ==> #[trigger] fields@[m]@ == search_roots(cs@, separator)[m],
            forall|m: int| 0 <= m < k ==> #[trigger] r@[m]@ == search_roots(cs@, separator)[m],
        decreases fields@.len() - k,
    {
        r.push(string_of(&fields[k]));
        k = k + 1;
    }
    r
}

} // verus!
