use vstd::prelude::*;

use crate::text::char_seqs;

verus! {

/// Whether glob `p` matches all of `s`.
///
/// `**` matches any run of characters, separators included, and `**/` may also
/// match nothing at all; `*` matches any run inside one path segment; `?`
/// matches one character other than `/`; every other character matches itself.
pub open spec fn glob_match(p: Seq<char>, s: Seq<char>) -> bool
    decreases p.len() + s.len(),
{
    if p.len() == 0 {
        s.len() == 0
    } else if p.len() >= 2 && p[0] == '*' && p[1] == '*' {
        glob_match(p.subrange(2, p.len() as int), s)
            || (p.len() >= 3 && p[2] == '/' && glob_match(p.subrange(3, p.len() as int), s))
            || (s.len() > 0 && glob_match(p, s.drop_first()))
    } else if p[0] == '*' {
        glob_match(p.drop_first(), s)
            || (s.len() > 0 && s[0] != '/' && glob_match(p, s.drop_first()))
    } else if p[0] == '?' {
        s.len() > 0 && s[0] != '/' && glob_match(p.drop_first(), s.drop_first())
    } else {
        s.len() > 0 && s[0] == p[0] && glob_match(p.drop_first(), s.drop_first())
    }
}

pub open spec fn has_slash(p: Seq<char>) -> bool {
    exists|k: int| 0 <= k < p.len() && p[k] == '/'
}

/// A pattern matches an entry when it matches the entry's root-relative path,
/// or, for a pattern without a separator, when it matches the entry's own name.
pub open spec fn pattern_matches(p: Seq<char>, path: Seq<char>, name: Seq<char>) -> bool {
    glob_match(p, path) || (!has_slash(p) && glob_match(p, name))
}

/// Some pattern of `ps` matches the entry.
pub open spec fn any_matches(ps: Seq<Seq<char>>, path: Seq<char>, name: Seq<char>) -> bool {
    exists|k: int| 0 <= k < ps.len() && pattern_matches(ps[k], path, name)
}

fn glob_from(p: &Vec<char>, i: usize, s: &Vec<char>, j: usize) -> (r: bool)
    requires
        i <= p.len(),
        j <= s.len(),
    ensures
        r == glob_match(p@.subrange(i as int, p.len() as int), s@.subrange(j as int, s.len() as int)),
    decreases p.len() - i + s.len() - j,
{
    let ghost ps = p@.subrange(i as int, p.len() as int);
    let ghost ss = s@.subrange(j as int, s.len() as int);
    if i == p.len() {
        return j == s.len();
    }
    if j < s.len() {
        assert(ss.drop_first() =~= s@.subrange(j + 1, s.len() as int));
    }
    assert(ps.drop_first() =~= p@.subrange(i + 1, p.len() as int));
    if i + 1 < p.len() && p[i] == '*' && p[i + 1] == '*' {
        assert(ps.subrange(2, ps.len() as int) =~= p@.subrange(i + 2, p.len() as int));
        if glob_from(p, i + 2, s, j) {
            return true;
        }
        if i + 2 < p.len() && p[i + 2] == '/' {
            assert(ps.subrange(3, ps.len() as int) =~= p@.subrange(i + 3, p.len() as int));
            if glob_from(p, i + 3, s, j) {
                return true;
            }
        }
        j < s.len() && glob_from(p, i, s, j + 1)
    } else if p[i] == '*' {
        if glob_from(p, i + 1, s, j) {
            return true;
        }
        j < s.len() && s[j] != '/' && glob_from(p, i, s, j + 1)
    } else if p[i] == '?' {
        j < s.len() && s[j] != '/' && glob_from(p, i + 1, s, j + 1)
    } else {
        j < s.len() && s[j] == p[i] && glob_from(p, i + 1, s, j + 1)
    }
}

/// Whether glob `p` matches all of `s`.
pub fn glob_matches(p: &Vec<char>, s: &Vec<char>) -> (r: bool)
    ensures
        r == glob_match(p@, s@),
{
    assert(p@.subrange(0, p.len() as int) =~= p@);
    assert(s@.subrange(0, s.len() as int) =~= s@);
    glob_from(p, 0, s, 0)
}

pub(crate) fn contains_slash(p: &Vec<char>) -> (r: bool)
    ensures
        r == has_slash(p@),
{
    let mut k: usize = 0;
    while k < p.len()
        invariant
            k <= p.len(),
            forall|m: int| 0 <= m < k ==> p@[m] != '/',
        decreases p.len() - k,
    {
        if p[k] == '/' {
            return true;
        }
        k = k + 1;
    }
    false
}

/// Whether pattern `p` matches the entry at root-relative `path` named `name`.
pub fn matches_entry(p: &Vec<char>, path: &Vec<char>, name: &Vec<char>) -> (r: bool)
    ensures
        r == pattern_matches(p@, path@, name@),
{
    if glob_matches(p, path) {
        true
    } else {
        !contains_slash(p) && glob_matches(p, name)
    }
}

/// Whether some pattern of `ps` matches the entry.
pub fn matches_any(ps: &Vec<Vec<char>>, path: &Vec<char>, name: &Vec<char>) -> (r: bool)
    ensures
        r == any_matches(char_seqs(ps@), path@, name@),
{
    let mut k: usize = 0;
    while k < ps.len()
        invariant
            k <= ps.len(),
            forall|m: int| 0 <= m < k ==> !pattern_matches(#[trigger] char_seqs(ps@)[m], path@, name@),
        decreases ps.len() - k,
    {
        if matches_entry(&ps[k], path, name) {
            assert(pattern_matches(char_seqs(ps@)[k as int], path@, name@));
            return true;
        }
        k = k + 1;
    }
    false
}

} // verus!
