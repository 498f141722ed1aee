use vstd::prelude::*;

use crate::glob::{any_matches, matches_any};
use crate::text::{char_seqs, chars_of};

verus! {

/// Compiled inc_list and exc_list patterns.
pub struct PatternSet {
    pub includes: Vec<Vec<char>>,
    pub excludes: Vec<Vec<char>>,
}

/// What to do with one entry: whether it has a line in the tree, and whether
/// its content goes to the output.
#[derive(Clone, Copy, Debug, PartialEq, Eq, Structural)]
pub struct Decision {
    pub show_in_tree: bool,
    pub include_content: bool,
}

/// An empty inc_list list admits every entry.
pub open spec fn include_hit(incs: Seq<Seq<char>>, path: Seq<char>, name: Seq<char>) -> bool {
    incs.len() == 0 || any_matches(incs, path, name)
}

/// Whether an entry is selected: when both sides match, `include_priority`
/// settles it; otherwise the inc_list side alone decides.
pub open spec fn selected(inc: bool, exc: bool, include_priority: bool) -> bool {
    if inc && exc {
        include_priority
    } else {
        inc
    }
}

pub open spec fn decision_of(
    incs: Seq<Seq<char>>,
    excs: Seq<Seq<char>>,
    path: Seq<char>,
    name: Seq<char>,
    is_dir: bool,
    ignored: bool,
    include_priority: bool,
    exclude_from_tree: bool,
) -> Decision {
    if ignored {
        Decision { show_in_tree: false, include_content: false }
    } else {
        let sel = selected(
            include_hit(incs, path, name),
            any_matches(excs, path, name),
            include_priority,
        );
        Decision { show_in_tree: sel || !exclude_from_tree, include_content: sel && !is_dir }
    }
}

pub(crate) fn to_char_vecs(v: &Vec<String>) -> (r: Vec<Vec<char>>)
    ensures
        char_seqs(r@) == crate::text::string_seqs(v@),
{
    let mut r: Vec<Vec<char>> = Vec::new();
    let mut k: usize = 0;
    while k < v.len()
        invariant
            k <= v.len(),
            r.len() == k,
            char_seqs(r@) == crate::text::string_seqs(v@).subrange(0, k as int),
        decreases v.len() - k,
    {
        let c = chars_of(v[k].as_str());
        assert(c@ == v@[k as int]@);
        r.push(c);
        k = k + 1;
        assert(char_seqs(r@) =~= crate::text::string_seqs(v@).subrange(0, k as int));
    }
    assert(crate::text::string_seqs(v@).subrange(0, k as int) =~= crate::text::string_seqs(v@));
    r
}

impl PatternSet {
    pub open spec fn incs(&self) -> Seq<Seq<char>> {
        char_seqs(self.includes@)
    }

    pub open spec fn excs(&self) -> Seq<Seq<char>> {
        char_seqs(self.excludes@)
    }

    /// Compiles two comma-separated pattern lists.
    pub fn compile(inc_list: &Option<String>, exc_list: &Option<String>) -> (r: PatternSet)
        ensures
            r.incs() == (match inc_list {
                Some(s) => crate::text::pattern_list(s@),
                None => Seq::<Seq<char>>::empty(),
            }),
            r.excs() == (match exc_list {
                Some(s) => crate::text::pattern_list(s@),
                None => Seq::<Seq<char>>::empty(),
            }),
    {
        let i = crate::parse_patterns(inc_list);
        let e = crate::parse_patterns(exc_list);
        let r = PatternSet { includes: to_char_vecs(&i), excludes: to_char_vecs(&e) };
        assert(inc_list is None ==> r.incs() =~= Seq::<Seq<char>>::empty());
        assert(exc_list is None ==> r.excs() =~= Seq::<Seq<char>>::empty());
        r
    }

    /// True when the inc_list list is empty or one of its patterns matches.
    pub fn matches_include(&self, path: &Vec<char>, name: &Vec<char>) -> (r: bool)
        ensures
            r == include_hit(self.incs(), path@, name@),
    {
        self.includes.len() == 0 || matches_any(&self.includes, path, name)
    }

    /// True when one of the exc_list patterns matches.
    pub fn matches_exclude(&self, path: &Vec<char>, name: &Vec<char>) -> (r: bool)
        ensures
            r == any_matches(self.excs(), path@, name@),
    {
        matches_any(&self.excludes, path, name)
    }
}

/// Decides whether an entry is shown in the tree and whether its content is taken.
pub fn decide(
    path: &Vec<char>,
    name: &Vec<char>,
    is_dir: bool,
    set: &PatternSet,
    ignored: bool,
    include_priority: bool,
    exclude_from_tree: bool,
) -> (d: Decision)
    ensures
        d == decision_of(
            set.incs(),
            set.excs(),
            path@,
            name@,
            is_dir,
            ignored,
            include_priority,
            exclude_from_tree,
        ),
{
    if ignored {
        return Decision { show_in_tree: false, include_content: false };
    }
    let inc = set.matches_include(path, name);
    let exc = set.matches_exclude(path, name);
    let sel = if inc && exc {
        include_priority
    } else {
        inc
    };
    Decision { show_in_tree: sel || !exclude_from_tree, include_content: sel && !is_dir }
}

/// An entry whose content is taken is also shown in the tree.
pub proof fn lemma_content_implies_shown(
    incs: Seq<Seq<char>>,
    excs: Seq<Seq<char>>,
    path: Seq<char>,
    name: Seq<char>,
    is_dir: bool,
    ignored: bool,
    include_priority: bool,
    exclude_from_tree: bool,
)
    ensures
        decision_of(
            incs,
            excs,
            path,
            name,
            is_dir,
            ignored,
            include_priority,
            exclude_from_tree,
        ).include_content ==> decision_of(
            incs,
            excs,
            path,
            name,
            is_dir,
            ignored,
            include_priority,
            exclude_from_tree,
        ).show_in_tree,
{
}

/// An ignored entry is neither shown nor taken, whatever the patterns say.
pub proof fn lemma_ignored_hidden(
    incs: Seq<Seq<char>>,
    excs: Seq<Seq<char>>,
    path: Seq<char>,
    name: Seq<char>,
    is_dir: bool,
    include_priority: bool,
    exclude_from_tree: bool,
)
    ensures
        decision_of(incs, excs, path, name, is_dir, true, include_priority, exclude_from_tree)
            == (Decision { show_in_tree: false, include_content: false }),
{
}

proof fn lemma_any_matches_same_members(
    a: Seq<Seq<char>>,
    b: Seq<Seq<char>>,
    path: Seq<char>,
    name: Seq<char>,
)
    requires
        forall|x: Seq<char>| a.contains(x) <==> b.contains(x),
    ensures
        any_matches(a, path, name) == any_matches(b, path, name),
        a.len() == 0 <==> b.len() == 0,
{
    if any_matches(a, path, name) {
        let k = choose|k: int| 0 <= k < a.len() && crate::glob::pattern_matches(a[k], path, name);
        assert(a.contains(a[k]));
        let m = choose|m: int| 0 <= m < b.len() && b[m] == a[k];
        assert(crate::glob::pattern_matches(b[m], path, name));
    }
    if any_matches(b, path, name) {
        let k = choose|k: int| 0 <= k < b.len() && crate::glob::pattern_matches(b[k], path, name);
        assert(b.contains(b[k]));
        let m = choose|m: int| 0 <= m < a.len() && a[m] == b[k];
        assert(crate::glob::pattern_matches(a[m], path, name));
    }
    if a.len() > 0 {
        assert(a.contains(a[0]));
    }
    if b.len() > 0 {
        assert(b.contains(b[0]));
    }
}

/// Decisions depend on which patterns the lists hold, not on their order:
/// lists with the same members give the same decision for every entry.
pub proof fn lemma_decision_order_free(
    incs1: Seq<Seq<char>>,
    excs1: Seq<Seq<char>>,
    incs2: Seq<Seq<char>>,
    excs2: Seq<Seq<char>>,
    path: Seq<char>,
    name: Seq<char>,
    is_dir: bool,
    ignored: bool,
    include_priority: bool,
    exclude_from_tree: bool,
)
    requires
        forall|x: Seq<char>| incs1.contains(x) <==> incs2.contains(x),
        forall|x: Seq<char>| excs1.contains(x) <==> excs2.contains(x),
    ensures
        decision_of(incs1, excs1, path, name, is_dir, ignored, include_priority, exclude_from_tree)
            == decision_of(
            incs2,
            excs2,
            path,
            name,
            is_dir,
            ignored,
            include_priority,
            exclude_from_tree,
        ),
{
    lemma_any_matches_same_members(incs1, incs2, path, name);
    lemma_any_matches_same_members(excs1, excs2, path, name);
}

} // verus!
