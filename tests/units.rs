use code2prompt::glob::{glob_matches, matches_entry};
use code2prompt::ignore::{is_ignored, parse_ignore_file};
use code2prompt::policy::{decide, Decision, PatternSet};
use code2prompt::order::{less_than, sort_order};
use code2prompt::record::{extension, format_content, lines_of, number_lines};
use code2prompt::{parse_branches, parse_patterns, ConfigError};

fn cs(s: &str) -> Vec<char> {
    s.chars().collect()
}

fn text(v: &[char]) -> String {
    v.iter().collect()
}

#[test]
fn patterns_are_trimmed_and_empty_ones_dropped() {
    assert_eq!(parse_patterns(&Some(" *.rs, src/** ,,\t".to_string())), vec!["*.rs", "src/**"]);
    assert!(parse_patterns(&None).is_empty());
    assert!(parse_patterns(&Some(String::new())).is_empty());
    assert_eq!(parse_patterns(&Some("a".to_string())), vec!["a"]);
    assert_eq!(parse_patterns(&Some("\u{3000}a\u{85}, \u{200b}b".to_string())), vec!["a", "\u{200b}b"]);
}

#[test]
fn glob_star_stays_in_segment() {
    assert!(glob_matches(&cs("*.txt"), &cs("c.txt")));
    assert!(!glob_matches(&cs("*.txt"), &cs("b/c.txt")));
    assert!(glob_matches(&cs("b/*"), &cs("b/c.txt")));
    assert!(!glob_matches(&cs("b/*"), &cs("b/x/c.txt")));
    assert!(glob_matches(&cs("**/x.rs"), &cs("x.rs")));
    assert!(glob_matches(&cs("**/x.rs"), &cs("a/b/x.rs")));
    assert!(glob_matches(&cs("src/**"), &cs("src/a/b")));
    assert!(glob_matches(&cs("?.md"), &cs("a.md")));
    assert!(!glob_matches(&cs("?.md"), &cs("ab.md")));
    assert!(!glob_matches(&cs("A.md"), &cs("a.md")));
}

#[test]
fn pattern_without_slash_matches_name() {
    assert!(matches_entry(&cs("*.txt"), &cs("b/c.txt"), &cs("c.txt")));
    assert!(!matches_entry(&cs("b/*.txt"), &cs("a/b/c.txt"), &cs("c.txt")));
}

#[test]
fn decide_resolves_conflicts() {
    let set = PatternSet::compile(&Some("*.txt".to_string()), &Some("b/*".to_string()));
    let p = cs("b/c.txt");
    let n = cs("c.txt");
    assert_eq!(
        decide(&p, &n, false, &set, false, true, false),
        Decision { show_in_tree: true, include_content: true }
    );
    assert_eq!(
        decide(&p, &n, false, &set, false, false, false),
        Decision { show_in_tree: true, include_content: false }
    );
    assert_eq!(
        decide(&p, &n, false, &set, false, false, true),
        Decision { show_in_tree: false, include_content: false }
    );
    assert_eq!(
        decide(&p, &n, false, &set, true, true, false),
        Decision { show_in_tree: false, include_content: false }
    );
    assert_eq!(
        decide(&cs("a.rs"), &cs("a.rs"), false, &set, false, true, false),
        Decision { show_in_tree: true, include_content: false }
    );
    assert_eq!(
        decide(&cs("b"), &cs("b"), true, &set, false, true, false),
        Decision { show_in_tree: true, include_content: false }
    );
}

#[test]
fn decisions_ignore_pattern_order() {
    let a = PatternSet::compile(&Some("*.rs,*.md".to_string()), &Some("b/*,c/*".to_string()));
    let b = PatternSet::compile(&Some("*.md,*.rs".to_string()), &Some("c/*,b/*".to_string()));
    for (p, n) in [("b/x.rs", "x.rs"), ("c/y.md", "y.md"), ("d.txt", "d.txt"), ("z.md", "z.md")] {
        for ip in [false, true] {
            for eft in [false, true] {
                assert_eq!(
                    decide(&cs(p), &cs(n), false, &a, false, ip, eft),
                    decide(&cs(p), &cs(n), false, &b, false, ip, eft)
                );
            }
        }
    }
}

#[test]
fn empty_include_list_admits_everything() {
    let set = PatternSet::compile(&None, &Some("*.lock".to_string()));
    assert!(set.matches_include(&cs("x"), &cs("x")));
    assert!(set.matches_exclude(&cs("Cargo.lock"), &cs("Cargo.lock")));
    assert!(!set.matches_exclude(&cs("Cargo.toml"), &cs("Cargo.toml")));
}

#[test]
fn ignore_rules_last_match_wins() {
    let rules = parse_ignore_file(&cs(""), &cs("# comment\n\n*.log\n!keep.log\ntarget/\n/build\n"));
    assert_eq!(rules.len(), 4);
    assert!(is_ignored(&rules, &cs("a/x.log"), &cs("x.log"), false));
    assert!(!is_ignored(&rules, &cs("keep.log"), &cs("keep.log"), false));
    assert!(is_ignored(&rules, &cs("x/target"), &cs("target"), true));
    assert!(!is_ignored(&rules, &cs("x/target"), &cs("target"), false));
    assert!(is_ignored(&rules, &cs("build"), &cs("build"), true));
    assert!(!is_ignored(&rules, &cs("x/build"), &cs("build"), true));
    assert!(!is_ignored(&vec![], &cs("a"), &cs("a"), false));
}

#[test]
fn numbered_lines_count_and_start() {
    for src in ["one\ntwo\nthree", "one\ntwo\nthree\n", "one\r\ntwo\r\nthree\r\n"] {
        let out = format_content(&cs(src), &cs("rs"), true, true);
        assert_eq!(text(&out), "   1 | one\n   2 | two\n   3 | three\n");
    }
    let lines = lines_of(&cs("a\n\nb"));
    assert_eq!(lines.len(), 3);
    assert!(lines_of(&cs("")).is_empty());
    let many: Vec<Vec<char>> = (0..12345).map(|_| cs("x")).collect();
    let t = text(&number_lines(&many));
    assert!(t.ends_with("12345 | x\n"));
    assert!(t.contains("  10 | x\n"));
}

#[test]
fn fences_strip_to_plain_content() {
    let code = cs("fn main() {}\n");
    let fenced = text(&format_content(&code, &cs("rs"), true, false));
    let plain = text(&format_content(&code, &cs("rs"), true, true));
    assert_eq!(fenced, format!("```rs\n{}\n```", plain));
    let inner = &fenced["```rs\n".len()..fenced.len() - "\n```".len()];
    assert_eq!(inner, plain);
    assert_eq!(text(&format_content(&code, &cs(""), false, true)), "fn main() {}\n");
}

#[test]
fn extensions() {
    assert_eq!(text(&extension(&cs("a.tar.gz"))), "gz");
    assert_eq!(text(&extension(&cs(".gitignore"))), "");
    assert_eq!(text(&extension(&cs("Makefile"))), "");
    assert_eq!(text(&extension(&cs("lib.rs"))), "rs");
}

#[test]
fn branch_pairs() {
    let ok = parse_branches(&"main, dev".to_string()).unwrap();
    assert_eq!(ok, ("main".to_string(), "dev".to_string()));
    assert_eq!(parse_branches(&"main".to_string()), Err(ConfigError::NotTwoBranches));
    assert_eq!(parse_branches(&"a,b,c".to_string()), Err(ConfigError::NotTwoBranches));
    assert_eq!(
        ConfigError::NotTwoBranches.message(),
        "Please provide exactly two branches separated by a comma."
    );
}

#[test]
fn names_order_by_code_point() {
    assert!(less_than(&cs("B"), &cs("a")));
    assert!(less_than(&cs("a"), &cs("ab")));
    assert!(!less_than(&cs("ab"), &cs("ab")));
    assert!(!less_than(&cs("b"), &cs("ab")));
    let keys = vec![cs("c"), cs("a"), cs("b"), cs("a")];
    assert_eq!(sort_order(&keys), vec![1, 3, 2, 0]);
}
