use vstd::prelude::*;

use crate::ignore::{ignored_by, is_ignored, parse_ignore_file, parse_rules, rule_views, IgnoreRule, RuleView};
use crate::policy::{decide, decision_of, PatternSet};
use crate::record::{extension, extension_of, format_content, formatted, FileRecord};
use crate::order::{sort_order, sorted_order, ints};
use crate::policy::to_char_vecs;
use crate::text::{char_seqs, chars_of, copy_range, string_of, string_seqs};

verus! {

/// A directory tree as read from disk, children in the order they are walked.
pub enum Node {
    /// A file; `content` is its text, or `None` where it could not be read as text.
    File { name: String, content: Option<String> },
    /// A directory, with the text of its own ignore file if it has one.
    Dir { name: String, ignore_file: Option<String>, children: Vec<Node> },
}

/// The settings of one walk.
pub struct Walker {
    pub patterns: PatternSet,
    pub include_priority: bool,
    pub line_number: bool,
    pub relative_paths: bool,
    pub exclude_from_tree: bool,
    pub no_codeblock: bool,
    /// The root's absolute path, used for displayed paths that are not relative.
    pub root_path: Vec<char>,
}

/// The settings of a walk, as values.
pub ghost struct WalkSpec {
    pub incs: Seq<Seq<char>>,
    pub excs: Seq<Seq<char>>,
    pub include_priority: bool,
    pub line_number: bool,
    pub relative_paths: bool,
    pub exclude_from_tree: bool,
    pub no_codeblock: bool,
    pub root_path: Seq<char>,
}

impl Walker {
    pub open spec fn view(&self) -> WalkSpec {
        WalkSpec {
            incs: self.patterns.incs(),
            excs: self.patterns.excs(),
            include_priority: self.include_priority,
            line_number: self.line_number,
            relative_paths: self.relative_paths,
            exclude_from_tree: self.exclude_from_tree,
            no_codeblock: self.no_codeblock,
            root_path: self.root_path@,
        }
    }
}

pub ghost struct RecordView {
    pub path: Seq<char>,
    pub display_path: Seq<char>,
    pub extension: Seq<char>,
    pub content: Seq<char>,
    pub char_count: nat,
    pub fenced: bool,
}

impl FileRecord {
    pub open spec fn view(&self) -> RecordView {
        RecordView {
            path: self.path@,
            display_path: self.display_path@,
            extension: self.extension@,
            content: self.content@,
            char_count: self.char_count as nat,
            fenced: self.fenced,
        }
    }
}

pub open spec fn record_views(v: Seq<FileRecord>) -> Seq<RecordView> {
    Seq::new(v.len(), |k: int| v[k].view())
}

/// What a subtree contributes: whether it has a line in the tree, its lines
/// (its own first, connectors of its descendants included), and its records.
pub ghost struct Out {
    pub visible: bool,
    pub lines: Seq<Seq<char>>,
    pub records: Seq<RecordView>,
}

pub open spec fn empty_out() -> Out {
    Out { visible: false, lines: Seq::empty(), records: Seq::empty() }
}

/// The root-relative path of entry `name` inside `parent`.
pub open spec fn child_path(parent: Seq<char>, name: Seq<char>) -> Seq<char> {
    if parent.len() == 0 {
        name
    } else {
        parent + seq!['/'] + name
    }
}

pub open spec fn node_name(n: Node) -> Seq<char> {
    match n {
        Node::File { name, .. } => name@,
        Node::Dir { name, .. } => name@,
    }
}

pub open spec fn record_of(w: WalkSpec, path: Seq<char>, name: Seq<char>, code: Seq<char>) -> RecordView {
    let ext = extension_of(name);
    let content = formatted(code, ext, w.line_number, w.no_codeblock);
    RecordView {
        path,
        display_path: if w.relative_paths {
            path
        } else {
            w.root_path + seq!['/'] + path
        },
        extension: ext,
        content,
        char_count: content.len(),
        fenced: !w.no_codeblock,
    }
}

pub open spec fn tee() -> Seq<char> {
    seq!['├', '─', '─', ' ']
}

pub open spec fn corner() -> Seq<char> {
    seq!['└', '─', '─', ' ']
}

pub open spec fn bar() -> Seq<char> {
    seq!['│', ' ', ' ', ' ']
}

pub open spec fn blank() -> Seq<char> {
    seq![' ', ' ', ' ', ' ']
}

/// The lines of a visible child under its parent: its own line gets a
/// connector, the lines below it the matching indentation; `last` tells
/// whether no visible sibling follows.
pub open spec fn attach(lines: Seq<Seq<char>>, last: bool) -> Seq<Seq<char>> {
    Seq::new(
        lines.len(),
        |i: int|
            if i == 0 {
                (if last {
                    corner()
                } else {
                    tee()
                }) + lines[i]
            } else {
                (if last {
                    blank()
                } else {
                    bar()
                }) + lines[i]
            },
    )
}

pub open spec fn render_node(w: WalkSpec, n: Node, parent: Seq<char>, rules: Seq<RuleView>) -> Out
    decreases n,
{
    match n {
        Node::File { name, content } => {
            let path = child_path(parent, name@);
            let d = decision_of(
                w.incs,
                w.excs,
                path,
                name@,
                false,
                ignored_by(rules, path, name@, false),
                w.include_priority,
                w.exclude_from_tree,
            );
            Out {
                visible: d.show_in_tree,
                lines: if d.show_in_tree {
                    seq![name@]
                } else {
                    Seq::empty()
                },
                records: match content {
                    Some(code) => if d.include_content {
                        seq![record_of(w, path, name@, code@)]
                    } else {
                        Seq::empty()
                    },
                    None => Seq::empty(),
                },
            }
        },
        Node::Dir { name, ignore_file, children } => {
            let path = child_path(parent, name@);
            if ignored_by(rules, path, name@, true) {
                empty_out()
            } else {
                let d = decision_of(
                    w.incs,
                    w.excs,
                    path,
                    name@,
                    true,
                    false,
                    w.include_priority,
                    w.exclude_from_tree,
                );
                let inner = rules + match ignore_file {
                    Some(t) => parse_rules(path + seq!['/'], t@),
                    None => Seq::empty(),
                };
                let o = render_list(w, children@, sorted_order(names_of(children@)), path, inner, 0);
                let vis = d.show_in_tree || o.visible;
                Out {
                    visible: vis,
                    lines: if vis {
                        seq![name@] + o.lines
                    } else {
                        Seq::empty()
                    },
                    records: o.records,
                }
            }
        },
    }
}

/// The names of a list of entries.
pub open spec fn names_of(ns: Seq<Node>) -> Seq<Seq<char>> {
    Seq::new(ns.len(), |i: int| node_name(ns[i]))
}

/// What the entries `ns[ord[k]]`, `ns[ord[k + 1]]`, ... contribute.
pub open spec fn render_list(
    w: WalkSpec,
    ns: Seq<Node>,
    ord: Seq<int>,
    parent: Seq<char>,
    rules: Seq<RuleView>,
    k: int,
) -> Out
    decreases ns, ord.len() - k,
{
    if k < 0 || k >= ord.len() || ord[k] < 0 || ord[k] >= ns.len() {
        empty_out()
    } else {
        let h = render_node(w, ns[ord[k]], parent, rules);
        let t = render_list(w, ns, ord, parent, rules, k + 1);
        Out {
            visible: h.visible || t.visible,
            lines: (if h.visible {
                attach(h.lines, !t.visible)
            } else {
                Seq::empty()
            }) + t.lines,
            records: h.records + t.records,
        }
    }
}

pub open spec fn out_view(r: (bool, Vec<Vec<char>>, Vec<FileRecord>)) -> Out {
    Out { visible: r.0, lines: char_seqs(r.1@), records: record_views(r.2@) }
}

fn copy_rule(r: &IgnoreRule) -> (c: IgnoreRule)
    ensures
        c.view() == r.view(),
{
    let base = copy_range(&r.base, 0, r.base.len());
    let pattern = copy_range(&r.pattern, 0, r.pattern.len());
    assert(base@ =~= r.base@);
    assert(pattern@ =~= r.pattern@);
    IgnoreRule { base, pattern, negated: r.negated, dir_only: r.dir_only, anchored: r.anchored }
}

/// The rules of `rules` followed by those of `more`.
fn extend_rules(rules: &Vec<IgnoreRule>, more: Vec<IgnoreRule>) -> (r: Vec<IgnoreRule>)
    ensures
        rule_views(r@) == rule_views(rules@) + rule_views(more@),
{
    let mut r: Vec<IgnoreRule> = Vec::new();
    let mut k: usize = 0;
    while k < rules.len()
        invariant
            k <= rules.len(),
            r.len() == k,
            rule_views(r@) == rule_views(rules@).subrange(0, k as int),
        decreases rules.len() - k,
    {
        r.push(copy_rule(&rules[k]));
        k = k + 1;
        assert(rule_views(r@) =~= rule_views(rules@).subrange(0, k as int));
    }
    let ghost before = r@;
    let mut more = more;
    let ghost m = more@;
    r.append(&mut more);
    assert(rule_views(r@) =~= rule_views(before) + rule_views(m));
    assert(rule_views(rules@).subrange(0, k as int) =~= rule_views(rules@));
    r
}

fn path_of(parent: &Vec<char>, name: &Vec<char>) -> (r: Vec<char>)
    ensures
        r@ == child_path(parent@, name@),
{
    let mut r = copy_range(parent, 0, parent.len());
    assert(r@ =~= parent@);
    if parent.len() > 0 {
        r.push('/');
    }
    let mut k: usize = 0;
    let ghost start = r@;
    while k < name.len()
        invariant
            k <= name.len(),
            r@ == start + name@.subrange(0, k as int),
        decreases name.len() - k,
    {
        r.push(name[k]);
        k = k + 1;
        assert(r@ =~= start + name@.subrange(0, k as int));
    }
    assert(name@.subrange(0, k as int) =~= name@);
    assert(r@ =~= child_path(parent@, name@));
    r
}

fn push_four(out: &mut Vec<char>, a: char, b: char, c: char, d: char)
    ensures
        final(out)@ == old(out)@ + seq![a, b, c, d],
{
    out.push(a);
    out.push(b);
    out.push(c);
    out.push(d);
    assert(final(out)@ =~= old(out)@ + seq![a, b, c, d]);
}

/// Appends the lines of a visible child, with connectors, to `out`.
fn attach_lines(lines: &Vec<Vec<char>>, last: bool, out: &mut Vec<Vec<char>>)
    ensures
        char_seqs(final(out)@) == char_seqs(old(out)@) + attach(char_seqs(lines@), last),
{
    let mut k: usize = 0;
    while k < lines.len()
        invariant
            k <= lines.len(),
            out.len() == old(out).len() + k,
            char_seqs(out@) == char_seqs(old(out)@) + attach(char_seqs(lines@), last).subrange(
                0,
                k as int,
            ),
        decreases lines.len() - k,
    {
        let mut line: Vec<char> = Vec::new();
        if k == 0 {
            if last {
                push_four(&mut line, '└', '─', '─', ' ');
            } else {
                push_four(&mut line, '├', '─', '─', ' ');
            }
        } else {
            if last {
                push_four(&mut line, ' ', ' ', ' ', ' ');
            } else {
                push_four(&mut line, '│', ' ', ' ', ' ');
            }
        }
        let mut rest = copy_range(&lines[k], 0, lines[k].len());
        line.append(&mut rest);
        assert(line@ =~= attach(char_seqs(lines@), last)[k as int]);
        let ghost before = out@;
        let ghost lv = line@;
        out.push(line);
        assert(char_seqs(out@) =~= char_seqs(before).push(lv));
        k = k + 1;
        assert(char_seqs(out@) =~= char_seqs(old(out)@) + attach(char_seqs(lines@), last).subrange(
            0,
            k as int,
        ));
    }
    assert(attach(char_seqs(lines@), last).subrange(0, k as int) =~= attach(char_seqs(lines@), last));
}

impl Walker {
    fn make_record(&self, path: &Vec<char>, name: &Vec<char>, code: &String) -> (r: FileRecord)
        ensures
            r.view() == record_of(self.view(), path@, name@, code@),
    {
        let ext = extension(name);
        let cs = chars_of(code.as_str());
        let content = format_content(&cs, &ext, self.line_number, self.no_codeblock);
        let display = if self.relative_paths {
            copy_range(path, 0, path.len())
        } else {
            let mut d = copy_range(&self.root_path, 0, self.root_path.len());
            d.push('/');
            let mut p = copy_range(path, 0, path.len());
            d.append(&mut p);
            d
        };
        assert(path@.subrange(0, path.len() as int) =~= path@);
        assert(self.root_path@.subrange(0, self.root_path.len() as int) =~= self.root_path@);
        assert(display@ =~= record_of(self.view(), path@, name@, code@).display_path);
        FileRecord {
            path: string_of(path),
            display_path: string_of(&display),
            extension: string_of(&ext),
            content: string_of(&content),
            char_count: content.len(),
            fenced: !self.no_codeblock,
        }
    }

    /// What the entry `n` inside `parent` contributes, under `rules`.
    fn walk_node(&self, n: &Node, parent: &Vec<char>, rules: &Vec<IgnoreRule>) -> (r: (
        bool,
        Vec<Vec<char>>,
        Vec<FileRecord>,
    ))
        ensures
            out_view(r) == render_node(self.view(), *n, parent@, rule_views(rules@)),
        decreases n,
    {
        match n {
            Node::File { name, content } => {
                let nm = chars_of(name.as_str());
                let path = path_of(parent, &nm);
                let ign = is_ignored(rules, &path, &nm, false);
                let d = decide(
                    &path,
                    &nm,
                    false,
                    &self.patterns,
                    ign,
                    self.include_priority,
                    self.exclude_from_tree,
                );
                let nm2 = copy_range(&nm, 0, nm.len());
                assert(nm2@ =~= nm@);
                let mut lines: Vec<Vec<char>> = Vec::new();
                if d.show_in_tree {
                    lines.push(nm);
                }
                let mut records: Vec<FileRecord> = Vec::new();
                match content {
                    Some(code) => {
                        if d.include_content {
                            let rec = self.make_record(&path, &nm2, code);
                            records.push(rec);
                        }
                    },
                    None => {},
                }
                let r = (d.show_in_tree, lines, records);
                assert(char_seqs(r.1@) =~= render_node(self.view(), *n, parent@, rule_views(rules@)).lines);
                assert(record_views(r.2@) =~= render_node(self.view(), *n, parent@, rule_views(rules@)).records);
                r
            },
            Node::Dir { name, ignore_file, children } => {
                let nm = chars_of(name.as_str());
                let path = path_of(parent, &nm);
                if is_ignored(rules, &path, &nm, true) {
                    let r = (false, Vec::new(), Vec::new());
                    assert(char_seqs(r.1@) =~= render_node(self.view(), *n, parent@, rule_views(rules@)).lines);
                assert(record_views(r.2@) =~= render_node(self.view(), *n, parent@, rule_views(rules@)).records);
                    return r;
                }
                let d = decide(
                    &path,
                    &nm,
                    true,
                    &self.patterns,
                    false,
                    self.include_priority,
                    self.exclude_from_tree,
                );
                let more = match ignore_file {
                    Some(t) => {
                        let mut base = copy_range(&path, 0, path.len());
                        base.push('/');
                        assert(base@ =~= path@ + seq!['/']);
                        parse_ignore_file(&base, &chars_of(t.as_str()))
                    },
                    None => Vec::new(),
                };
                assert(ignore_file is None ==> rule_views(more@) =~= Seq::<RuleView>::empty());
                let inner = extend_rules(rules, more);
                let o = self.walk_list(children, &path, &inner);
                let vis = d.show_in_tree || o.0;
                let mut lines: Vec<Vec<char>> = Vec::new();
                if vis {
                    lines.push(nm);
                    let mut ol = o.1;
                    lines.append(&mut ol);
                }
                let r = (vis, lines, o.2);
                assert(char_seqs(r.1@) =~= render_node(self.view(), *n, parent@, rule_views(rules@)).lines);
                assert(record_views(r.2@) =~= render_node(self.view(), *n, parent@, rule_views(rules@)).records);
                r
            },
        }
    }

    /// What the entries `ns` inside `parent` contribute, in order, under `rules`.
    fn walk_list(&self, ns: &Vec<Node>, parent: &Vec<char>, rules: &Vec<IgnoreRule>) -> (r: (
        bool,
        Vec<Vec<char>>,
        Vec<FileRecord>,
    ))
        ensures
            out_view(r) == render_list(
                self.view(),
                ns@,
                sorted_order(names_of(ns@)),
                parent@,
                rule_views(rules@),
                0,
            ),
        decreases ns,
    {
        let mut names: Vec<Vec<char>> = Vec::new();
        let mut j: usize = 0;
        while j < ns.len()
            invariant
                j <= ns.len(),
                names.len() == j,
                forall|m: int| 0 <= m < j ==> #[trigger] names@[m]@ == node_name(ns@[m]),
            decreases ns.len() - j,
        {
            let nm = match &ns[j] {
                Node::File { name, .. } => chars_of(name.as_str()),
                Node::Dir { name, .. } => chars_of(name.as_str()),
            };
            names.push(nm);
            j = j + 1;
        }
        assert(char_seqs(names@) =~= names_of(ns@));
        let order = sort_order(&names);
        let ghost ord = sorted_order(names_of(ns@));
        let mut k: usize = order.len();
        let mut vis = false;
        let mut lines: Vec<Vec<char>> = Vec::new();
        let mut records: Vec<FileRecord> = Vec::new();
        assert(char_seqs(lines@) =~= Seq::<Seq<char>>::empty());
        assert(record_views(records@) =~= Seq::<RecordView>::empty());
        assert(out_view((vis, lines, records)) == render_list(
            self.view(),
            ns@,
            ord,
            parent@,
            rule_views(rules@),
            k as int,
        ));
        while k > 0
            invariant
                k <= order.len(),
                ord == ints(order@),
                forall|i: int| 0 <= i < order.len() ==> order@[i] < ns.len(),
                out_view((vis, lines, records)) == render_list(
                    self.view(),
                    ns@,
                    ord,
                    parent@,
                    rule_views(rules@),
                    k as int,
                ),
            decreases k,
        {
            let h = self.walk_node(&ns[order[k - 1]], parent, rules);
            let mut new_lines: Vec<Vec<char>> = Vec::new();
            if h.0 {
                attach_lines(&h.1, !vis, &mut new_lines);
            }
            let ghost hl = char_seqs(new_lines@);
            let ghost tl = char_seqs(lines@);
            new_lines.append(&mut lines);
            assert(char_seqs(new_lines@) =~= hl + tl);
            let mut new_records = h.2;
            let ghost hr = record_views(new_records@);
            let ghost tr = record_views(records@);
            new_records.append(&mut records);
            assert(record_views(new_records@) =~= hr + tr);
            vis = h.0 || vis;
            lines = new_lines;
            records = new_records;
            k = k - 1;
            let ghost want = render_list(self.view(), ns@, ord, parent@, rule_views(rules@), k as int);
            assert(char_seqs(lines@) =~= want.lines);
            assert(record_views(records@) =~= want.records);
        }
        (vis, lines, records)
    }
}

/// A directory to walk.
pub struct Root {
    /// The name shown on the tree's first line.
    pub label: String,
    /// The directory's absolute path.
    pub path: String,
    /// The text of the directory's own ignore file, if it has one.
    pub ignore_file: Option<String>,
    pub children: Vec<Node>,
}

pub open spec fn settings(
    root: Root,
    incs: Seq<Seq<char>>,
    excs: Seq<Seq<char>>,
    include_priority: bool,
    line_number: bool,
    relative_paths: bool,
    exclude_from_tree: bool,
    no_codeblock: bool,
) -> WalkSpec {
    WalkSpec {
        incs,
        excs,
        include_priority,
        line_number,
        relative_paths,
        exclude_from_tree,
        no_codeblock,
        root_path: root.path@,
    }
}

pub open spec fn root_rules(root: Root) -> Seq<RuleView> {
    match root.ignore_file {
        Some(t) => parse_rules(Seq::empty(), t@),
        None => Seq::empty(),
    }
}

/// What the whole walk contributes.
pub open spec fn walk_out(w: WalkSpec, root: Root) -> Out {
    render_list(w, root.children@, sorted_order(names_of(root.children@)), Seq::empty(), root_rules(root), 0)
}

/// Lines, each followed by `\n`.
pub open spec fn lines_text(lines: Seq<Seq<char>>) -> Seq<char>
    decreases lines.len(),
{
    if lines.len() == 0 {
        Seq::empty()
    } else {
        lines_text(lines.drop_last()) + lines.last() + seq!['\n']
    }
}

/// The rendered tree: the root's label, then one line per visible entry.
pub open spec fn tree_text(root: Root, out: Out) -> Seq<char> {
    root.label@ + seq!['\n'] + lines_text(out.lines)
}

fn join_lines(label: &String, lines: &Vec<Vec<char>>) -> (r: String)
    ensures
        r@ == label@ + seq!['\n'] + lines_text(char_seqs(lines@)),
{
    let mut t = chars_of(label.as_str());
    t.push('\n');
    let ghost start = t@;
    let mut k: usize = 0;
    while k < lines.len()
        invariant
            k <= lines.len(),
            t@ == start + lines_text(char_seqs(lines@).subrange(0, k as int)),
        decreases lines.len() - k,
    {
        let ghost pre = char_seqs(lines@).subrange(0, k + 1);
        assert(pre.drop_last() =~= char_seqs(lines@).subrange(0, k as int));
        assert(pre.last() == lines@[k as int]@);
        let mut l = copy_range(&lines[k], 0, lines[k].len());
        assert(l@ =~= lines@[k as int]@);
        t.append(&mut l);
        t.push('\n');
        k = k + 1;
        assert(t@ =~= start + lines_text(char_seqs(lines@).subrange(0, k as int)));
    }
    assert(char_seqs(lines@).subrange(0, k as int) =~= char_seqs(lines@));
    string_of(&t)
}

/// Walks the directory `root`: the rendered tree, and a record for each
/// taken file, in walk order.
pub fn traverse_directory(
    root: &Root,
    include_patterns: &Vec<String>,
    exclude_patterns: &Vec<String>,
    include_priority: bool,
    line_number: bool,
    relative_paths: bool,
    exclude_from_tree: bool,
    no_codeblock: bool,
) -> (r: (String, Vec<FileRecord>))
    ensures
        ({
            let w = settings(
                *root,
                string_seqs(include_patterns@),
                string_seqs(exclude_patterns@),
                include_priority,
                line_number,
                relative_paths,
                exclude_from_tree,
                no_codeblock,
            );
            &&& r.0@ == tree_text(*root, walk_out(w, *root))
            &&& record_views(r.1@) == walk_out(w, *root).records
        }),
{
    let w = Walker {
        patterns: PatternSet {
            includes: to_char_vecs(include_patterns),
            excludes: to_char_vecs(exclude_patterns),
        },
        include_priority,
        line_number,
        relative_paths,
        exclude_from_tree,
        no_codeblock,
        root_path: chars_of(root.path.as_str()),
    };
    let empty: Vec<char> = Vec::new();
    let rules = match &root.ignore_file {
        Some(t) => parse_ignore_file(&empty, &chars_of(t.as_str())),
        None => Vec::new(),
    };
    assert(empty@ =~= Seq::<char>::empty());
    assert(root.ignore_file is None ==> rule_views(rules@) =~= Seq::<RuleView>::empty());
    let o = w.walk_list(&root.children, &empty, &rules);
    let tree = join_lines(&root.label, &o.1);
    (tree, o.2)
}

/// Every entry that yields a record has a line in the tree.
pub proof fn lemma_node_records_shown(w: WalkSpec, n: Node, parent: Seq<char>, rules: Seq<RuleView>)
    ensures
        render_node(w, n, parent, rules).records.len() > 0 ==> render_node(
            w,
            n,
            parent,
            rules,
        ).visible,
    decreases n,
{
    match n {
        Node::File { .. } => {},
        Node::Dir { name, ignore_file, children } => {
            let path = child_path(parent, name@);
            let inner = rules + match ignore_file {
                Some(t) => parse_rules(path + seq!['/'], t@),
                None => Seq::empty(),
            };
            lemma_list_records_shown(w, children@, sorted_order(names_of(children@)), path, inner, 0);
        },
    }
}

/// A list of entries that yields a record has a visible entry.
pub proof fn lemma_list_records_shown(
    w: WalkSpec,
    ns: Seq<Node>,
    ord: Seq<int>,
    parent: Seq<char>,
    rules: Seq<RuleView>,
    k: int,
)
    ensures
        render_list(w, ns, ord, parent, rules, k).records.len() > 0 ==> render_list(
            w,
            ns,
            ord,
            parent,
            rules,
            k,
        ).visible,
    decreases ns, ord.len() - k,
{
    if 0 <= k < ord.len() && 0 <= ord[k] < ns.len() {
        lemma_node_records_shown(w, ns[ord[k]], parent, rules);
        lemma_list_records_shown(w, ns, ord, parent, rules, k + 1);
    }
}

/// A directory that is not ignored has a line in the tree whenever one of its
/// entries has; an ignored one contributes nothing at all.
pub proof fn lemma_dir_shown_with_children(
    w: WalkSpec,
    name: String,
    ignore_file: Option<String>,
    children: Vec<Node>,
    parent: Seq<char>,
    rules: Seq<RuleView>,
)
    ensures
        ({
            let n = Node::Dir { name, ignore_file, children };
            let path = child_path(parent, name@);
            let inner = rules + match ignore_file {
                Some(t) => parse_rules(path + seq!['/'], t@),
                None => Seq::empty(),
            };
            &&& ignored_by(rules, path, name@, true) ==> render_node(w, n, parent, rules)
                == empty_out()
            &&& !ignored_by(rules, path, name@, true) && render_list(
                w,
                children@,
                sorted_order(names_of(children@)),
                path,
                inner,
                0,
            ).visible ==> render_node(w, n, parent, rules).visible
        }),
{
}

} // verus!
