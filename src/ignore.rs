use vstd::prelude::*;

use crate::glob::{glob_match, glob_matches, has_slash};
use crate::text::{char_seqs, copy_range, split_chars, split_on, trim, trim_chars};

verus! {

/// One rule of an ignore file.
///
/// `base` is the root-relative directory of the file that holds the rule,
/// with a trailing `/` (empty for the root). An anchored rule matches the
/// path below `base`; any other rule matches the entry's name at any depth.
#[derive(Clone, Debug)]
pub struct IgnoreRule {
    pub base: Vec<char>,
    pub pattern: Vec<char>,
    pub negated: bool,
    pub dir_only: bool,
    pub anchored: bool,
}

pub ghost struct RuleView {
    pub base: Seq<char>,
    pub pattern: Seq<char>,
    pub negated: bool,
    pub dir_only: bool,
    pub anchored: bool,
}

impl IgnoreRule {
    pub open spec fn view(&self) -> RuleView {
        RuleView {
            base: self.base@,
            pattern: self.pattern@,
            negated: self.negated,
            dir_only: self.dir_only,
            anchored: self.anchored,
        }
    }
}

pub open spec fn rule_views(v: Seq<IgnoreRule>) -> Seq<RuleView> {
    Seq::new(v.len(), |k: int| v[k].view())
}

/// The rule that one line of an ignore file gives, if any: blank lines and
/// `#` comments give none; a leading `!` negates; a trailing `/` restricts the
/// rule to directories; a leading `/` or an inner `/` anchors it.
pub open spec fn parse_line(base: Seq<char>, line: Seq<char>) -> Option<RuleView> {
    let t = trim(line);
    if t.len() == 0 || t[0] == '#' {
        None
    } else {
        let negated = t[0] == '!';
        let t1 = if negated {
            t.drop_first()
        } else {
            t
        };
        let dir_only = t1.len() > 0 && t1.last() == '/';
        let t2 = if dir_only {
            t1.drop_last()
        } else {
            t1
        };
        let lead = t2.len() > 0 && t2[0] == '/';
        let t3 = if lead {
            t2.drop_first()
        } else {
            t2
        };
        if t3.len() == 0 {
            None
        } else {
            Some(
                RuleView {
                    base,
                    pattern: t3,
                    negated,
                    dir_only,
                    anchored: lead || has_slash(t3),
                },
            )
        }
    }
}

pub open spec fn parse_lines(base: Seq<char>, lines: Seq<Seq<char>>) -> Seq<RuleView>
    decreases lines.len(),
{
    if lines.len() == 0 {
        Seq::empty()
    } else {
        let r = parse_lines(base, lines.drop_last());
        match parse_line(base, lines.last()) {
            Some(rule) => r.push(rule),
            None => r,
        }
    }
}

/// The rules of an ignore file's text, in file order.
pub open spec fn parse_rules(base: Seq<char>, text: Seq<char>) -> Seq<RuleView> {
    parse_lines(base, split_on(text, '\n'))
}

pub open spec fn starts_with(s: Seq<char>, prefix: Seq<char>) -> bool {
    prefix.len() <= s.len() && s.subrange(0, prefix.len() as int) == prefix
}

pub open spec fn rule_matches(r: RuleView, path: Seq<char>, name: Seq<char>, is_dir: bool) -> bool {
    (!r.dir_only || is_dir) && if r.anchored {
        starts_with(path, r.base) && glob_match(
            r.pattern,
            path.subrange(r.base.len() as int, path.len() as int),
        )
    } else {
        glob_match(r.pattern, name)
    }
}

/// The verdict of a rule list: the last rule that matches decides, a negated
/// one un-ignoring; with no matching rule the entry is not ignored.
pub open spec fn ignored_by(rules: Seq<RuleView>, path: Seq<char>, name: Seq<char>, is_dir: bool) -> bool
    decreases rules.len(),
{
    if rules.len() == 0 {
        false
    } else if rule_matches(rules.last(), path, name, is_dir) {
        !rules.last().negated
    } else {
        ignored_by(rules.drop_last(), path, name, is_dir)
    }
}

fn parse_one(base: &Vec<char>, line: &Vec<char>) -> (r: Option<IgnoreRule>)
    ensures
        match r {
            Some(rule) => parse_line(base@, line@) == Some(rule.view()),
            None => parse_line(base@, line@) is None,
        },
{
    let t = trim_chars(line);
    if t.len() == 0 || t[0] == '#' {
        return None;
    }
    let negated = t[0] == '!';
    let mut a: usize = if negated {
        1
    } else {
        0
    };
    let mut b: usize = t.len();
    let dir_only = a < b && t[b - 1] == '/';
    if dir_only {
        b = b - 1;
    }
    let lead = a < b && t[a] == '/';
    if lead {
        a = a + 1;
    }
    let p = copy_range(&t, a, b);
    proof {
        let t1 = if negated {
            t@.drop_first()
        } else {
            t@
        };
        let t2 = if dir_only {
            t1.drop_last()
        } else {
            t1
        };
        let t3 = if lead {
            t2.drop_first()
        } else {
            t2
        };
        assert(t3 =~= p@);
    }
    if p.len() == 0 {
        return None;
    }
    let anchored = lead || crate::glob::contains_slash(&p);
    let base2 = copy_range(base, 0, base.len());
    assert(base2@ =~= base@);
    Some(IgnoreRule { base: base2, pattern: p, negated, dir_only, anchored })
}

/// Parses the text of the ignore file of the directory `base`, keeping the
/// well-formed lines in order and skipping the others.
pub fn parse_ignore_file(base: &Vec<char>, text: &Vec<char>) -> (r: Vec<IgnoreRule>)
    ensures
        rule_views(r@) == parse_rules(base@, text@),
{
    let lines = split_chars(text, '\n');
    let mut r: Vec<IgnoreRule> = Vec::new();
    let mut k: usize = 0;
    while k < lines.len()
        invariant
            k <= lines.len(),
            rule_views(r@) == parse_lines(base@, char_seqs(lines@).subrange(0, k as int)),
        decreases lines.len() - k,
    {
        assert(char_seqs(lines@).subrange(0, k + 1).drop_last() =~= char_seqs(lines@).subrange(
            0,
            k as int,
        ));
        assert(char_seqs(lines@).subrange(0, k + 1).last() == lines@[k as int]@);
        let ghost before = r@;
        match parse_one(base, &lines[k]) {
            Some(rule) => {
                r.push(rule);
                assert(rule_views(r@) =~= rule_views(before).push(rule.view()));
            },
            None => {},
        }
        k = k + 1;
    }
    assert(char_seqs(lines@).subrange(0, lines.len() as int) =~= char_seqs(lines@));
    r
}

fn has_prefix(s: &Vec<char>, prefix: &Vec<char>) -> (r: bool)
    ensures
        r == starts_with(s@, prefix@),
{
    if prefix.len() > s.len() {
        return false;
    }
    let mut k: usize = 0;
    while k < prefix.len()
        invariant
            k <= prefix.len() <= s.len(),
            forall|m: int| 0 <= m < k ==> s@[m] == prefix@[m],
        decreases prefix.len() - k,
    {
        if s[k] != prefix[k] {
            assert(s@.subrange(0, prefix.len() as int)[k as int] != prefix@[k as int]);
            return false;
        }
        k = k + 1;
    }
    assert(s@.subrange(0, prefix.len() as int) =~= prefix@);
    true
}

fn matches_rule(r: &IgnoreRule, path: &Vec<char>, name: &Vec<char>, is_dir: bool) -> (m: bool)
    ensures
        m == rule_matches(r.view(), path@, name@, is_dir),
{
    if r.dir_only && !is_dir {
        return false;
    }
    if r.anchored {
        if !has_prefix(path, &r.base) {
            return false;
        }
        let sub = copy_range(path, r.base.len(), path.len());
        glob_matches(&r.pattern, &sub)
    } else {
        glob_matches(&r.pattern, name)
    }
}

/// Whether the rules, in order, ignore the entry at `path` named `name`.
pub fn is_ignored(rules: &Vec<IgnoreRule>, path: &Vec<char>, name: &Vec<char>, is_dir: bool) -> (r:
    bool)
    ensures
        r == ignored_by(rule_views(rules@), path@, name@, is_dir),
{
    let mut k: usize = rules.len();
    assert(rule_views(rules@).subrange(0, k as int) =~= rule_views(rules@));
    while k > 0
        invariant
            k <= rules.len(),
            ignored_by(rule_views(rules@), path@, name@, is_dir) == ignored_by(
                rule_views(rules@).subrange(0, k as int),
                path@,
                name@,
                is_dir,
            ),
        decreases k,
    {
        let ghost pre = rule_views(rules@).subrange(0, k as int);
        assert(pre.last() == rules@[k - 1].view());
        assert(pre.drop_last() =~= rule_views(rules@).subrange(0, k - 1));
        if matches_rule(&rules[k - 1], path, name, is_dir) {
            return !rules[k - 1].negated;
        }
        k = k - 1;
    }
    false
}

} // verus!
