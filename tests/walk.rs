use code2prompt::walk::{traverse_directory, Node, Root};

fn file(name: &str, text: &str) -> Node {
    Node::File { name: name.to_string(), content: Some(text.to_string()) }
}

fn dir(name: &str, children: Vec<Node>) -> Node {
    Node::Dir { name: name.to_string(), ignore_file: None, children }
}

fn sample_root() -> Root {
    Root {
        label: "proj".to_string(),
        path: "/work/proj".to_string(),
        ignore_file: Some(".git/\n".to_string()),
        children: vec![
            file("a.txt", "alpha\n"),
            dir("b", vec![dir(".git", vec![file("HEAD", "ref: main\n")]), file("c.txt", "gamma\n")]),
        ],
    }
}

fn pats(v: &[&str]) -> Vec<String> {
    v.iter().map(|s| s.to_string()).collect()
}

#[test]
fn ignored_directory_is_pruned() {
    let (tree, files) =
        traverse_directory(&sample_root(), &vec![], &vec![], false, false, true, false, true);
    assert_eq!(tree, "proj\n├── a.txt\n└── b\n    └── c.txt\n");
    assert!(!tree.contains(".git"));
    assert!(!tree.contains("HEAD"));
    let paths: Vec<String> = files.iter().map(|f| f.path.clone()).collect();
    assert_eq!(paths, vec!["a.txt".to_string(), "b/c.txt".to_string()]);
    assert_eq!(files[0].content, "alpha\n");
    assert_eq!(files[0].char_count, 6);
}

#[test]
fn conflict_with_include_priority_includes() {
    let (tree, files) = traverse_directory(
        &sample_root(),
        &pats(&["*.txt"]),
        &pats(&["b/*"]),
        true,
        false,
        true,
        false,
        true,
    );
    assert!(tree.contains("c.txt"));
    assert!(files.iter().any(|f| f.path == "b/c.txt"));
}

#[test]
fn conflict_without_priority_excludes() {
    let (tree, files) = traverse_directory(
        &sample_root(),
        &pats(&["*.txt"]),
        &pats(&["b/*"]),
        false,
        false,
        true,
        false,
        true,
    );
    assert!(tree.contains("c.txt"));
    assert!(!files.iter().any(|f| f.path == "b/c.txt"));
    assert!(files.iter().any(|f| f.path == "a.txt"));
    let (tree2, files2) = traverse_directory(
        &sample_root(),
        &pats(&["*.txt"]),
        &pats(&["b/*"]),
        false,
        false,
        true,
        true,
        true,
    );
    assert!(!tree2.contains("c.txt"));
    assert!(!files2.iter().any(|f| f.path == "b/c.txt"));
    assert_eq!(tree2, "proj\n└── a.txt\n");
}

#[test]
fn hidden_directory_shown_for_visible_child() {
    let (tree, _) = traverse_directory(
        &sample_root(),
        &pats(&["*.txt"]),
        &vec![],
        false,
        false,
        true,
        true,
        true,
    );
    assert_eq!(tree, "proj\n├── a.txt\n└── b\n    └── c.txt\n");
}

#[test]
fn walk_is_repeatable() {
    let a = traverse_directory(&sample_root(), &vec![], &vec![], false, true, false, false, false);
    let b = traverse_directory(&sample_root(), &vec![], &vec![], false, true, false, false, false);
    assert_eq!(a.0, b.0);
    let pa: Vec<(String, String)> = a.1.iter().map(|f| (f.display_path.clone(), f.content.clone())).collect();
    let pb: Vec<(String, String)> = b.1.iter().map(|f| (f.display_path.clone(), f.content.clone())).collect();
    assert_eq!(pa, pb);
}

#[test]
fn absolute_display_path_and_fence() {
    let (_, files) =
        traverse_directory(&sample_root(), &vec![], &vec![], false, false, false, false, false);
    assert_eq!(files[0].display_path, "/work/proj/a.txt");
    assert_eq!(files[0].extension, "txt");
    assert_eq!(files[0].content, "```txt\nalpha\n\n```");
    assert!(files[0].fenced);
}

#[test]
fn ignored_file_hidden_even_when_included() {
    let root = Root {
        label: "r".to_string(),
        path: "/r".to_string(),
        ignore_file: Some("# logs\n*.log\n!keep.log\n".to_string()),
        children: vec![file("a.log", "x"), file("keep.log", "y"), file("z.rs", "fn main() {}")],
    };
    let (tree, files) =
        traverse_directory(&root, &pats(&["*.log", "*.rs"]), &vec![], true, false, true, false, true);
    assert_eq!(tree, "r\n├── keep.log\n└── z.rs\n");
    assert_eq!(files.len(), 2);
    assert_eq!(files[0].path, "keep.log");
}

#[test]
fn nested_ignore_file_applies_below_its_directory() {
    let root = Root {
        label: "r".to_string(),
        path: "/r".to_string(),
        ignore_file: None,
        children: vec![
            Node::Dir {
                name: "a".to_string(),
                ignore_file: Some("/gen\n".to_string()),
                children: vec![dir("gen", vec![file("x.rs", "x")]), file("y.rs", "y")],
            },
            dir("gen", vec![file("z.rs", "z")]),
        ],
    };
    let (tree, files) = traverse_directory(&root, &vec![], &vec![], false, false, true, false, true);
    assert_eq!(tree, "r\n├── a\n│   └── y.rs\n└── gen\n    └── z.rs\n");
    let paths: Vec<String> = files.iter().map(|f| f.path.clone()).collect();
    assert_eq!(paths, vec!["a/y.rs".to_string(), "gen/z.rs".to_string()]);
}

#[test]
fn unreadable_file_shown_without_record() {
    let root = Root {
        label: "r".to_string(),
        path: "/r".to_string(),
        ignore_file: None,
        children: vec![Node::File { name: "img.png".to_string(), content: None }],
    };
    let (tree, files) = traverse_directory(&root, &vec![], &vec![], false, false, true, false, true);
    assert_eq!(tree, "r\n└── img.png\n");
    assert!(files.is_empty());
}

#[test]
fn empty_root() {
    let root = Root { label: "r".to_string(), path: "/r".to_string(), ignore_file: None, children: vec![] };
    let (tree, files) = traverse_directory(&root, &vec![], &vec![], false, false, true, false, true);
    assert_eq!(tree, "r\n");
    assert!(files.is_empty());
}

#[test]
fn entries_walked_in_name_order() {
    let root = Root {
        label: "r".to_string(),
        path: "/r".to_string(),
        ignore_file: None,
        children: vec![
            file("b.rs", "b"),
            dir("a", vec![file("z", "z"), file("Y", "y")]),
            file("B.rs", "B"),
            file("ab", "ab"),
        ],
    };
    let (tree, files) = traverse_directory(&root, &vec![], &vec![], false, false, true, false, true);
    assert_eq!(tree, "r\n├── B.rs\n├── a\n│   ├── Y\n│   └── z\n├── ab\n└── b.rs\n");
    let paths: Vec<String> = files.iter().map(|f| f.path.clone()).collect();
    assert_eq!(paths, vec!["B.rs", "a/Y", "a/z", "ab", "b.rs"]);
}
