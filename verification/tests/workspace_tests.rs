use mdrs::paths::{DocPath, PathPart};
use mdrs::workspace::{collect_markdown_files, is_markdown_name, is_markdown_path, path_less, WorkspaceFile};

fn doc_path(display: &str) -> DocPath {
    let mut parts = vec![PathPart::Root];
    for name in display.split('/').filter(|s| !s.is_empty()) {
        parts.push(PathPart::Normal(name.to_string()));
    }
    DocPath { display: display.to_string(), parts }
}

#[test]
fn collects_nested_markdown_files() {
    let root = doc_path("/tmp/mdrs-workspace-nested");
    let found = vec![
        doc_path("/tmp/mdrs-workspace-nested/README.md"),
        doc_path("/tmp/mdrs-workspace-nested/docs/guide.mdx"),
        doc_path("/tmp/mdrs-workspace-nested/docs/notes.txt"),
    ];
    let files = collect_markdown_files(&root, &found);
    // `label` joins with the platform's separator; the expected labels are
    // written with the Windows one.
    let labels = files
        .iter()
        .map(|f| f.label().replace(std::path::MAIN_SEPARATOR, "\\"))
        .collect::<Vec<_>>();

    assert_eq!(labels, vec!["README.md", "docs\\guide.mdx"]);
}

#[test]
fn labels_use_the_platform_separator() {
    let root = doc_path("/w");
    let files = collect_markdown_files(&root, &vec![doc_path("/w/a/b/c.md")]);
    let expected = format!("a{0}b{0}c.md", std::path::MAIN_SEPARATOR);
    assert_eq!(files[0].label(), expected);
    assert_eq!(files[0].label_with('/'), "a/b/c.md");
}

#[test]
fn recognises_markdown_extensions() {
    for name in ["a.md", "a.markdown", "a.mdown", "a.mdx", "x.y.md", "..md"] {
        assert!(is_markdown_name(name), "{name}");
    }
    for name in ["a.txt", "md", ".md", "a.MD", "a.md.txt", "a.", "..", "a.mdxx", ""] {
        assert!(!is_markdown_name(name), "{name}");
    }
    assert!(is_markdown_path(&doc_path("/x/notes.md")));
    assert!(!is_markdown_path(&DocPath { display: "/".to_string(), parts: vec![PathPart::Root] }));
    assert!(!is_markdown_path(&DocPath {
        display: "a.md/..".to_string(),
        parts: vec![PathPart::Normal("a.md".to_string()), PathPart::Parent],
    }));
}

#[test]
fn sorts_by_relative_path_components() {
    let root = doc_path("/w");
    let found = vec![
        doc_path("/w/b.md"),
        doc_path("/w/a.b/c.md"),
        doc_path("/w/a/z.md"),
        doc_path("/w/A.md"),
        doc_path("/w/a.md"),
        doc_path("/w/ä.md"),
    ];
    let files = collect_markdown_files(&root, &found);
    let labels: Vec<String> = files.iter().map(|f| f.label_with('/')).collect();
    // Component-wise order: "a" < "a.b" < "a.md", byte order puts "A" first and "ä" last.
    assert_eq!(labels, vec!["A.md", "a/z.md", "a.b/c.md", "a.md", "b.md", "ä.md"]);
    for f in &files {
        assert!(f.path.display.starts_with("/w/"));
    }
}

#[test]
fn keeps_paths_outside_the_root_whole() {
    let root = doc_path("/w");
    let files = collect_markdown_files(&root, &vec![doc_path("/elsewhere/n.md")]);
    assert_eq!(files.len(), 1);
    assert_eq!(files[0].relative_path.len(), 3);
    let rel: &WorkspaceFile = &files[0];
    assert_eq!(rel.label_with('/'), "/elsewhere/n.md");
}

#[test]
fn path_order_matches_std() {
    let pairs = [("a", "b"), ("a/b", "a.b/c"), ("a", "a/b"), ("Z", "a"), ("a/b", "a/b")];
    for (x, y) in pairs {
        let px = doc_path(x);
        let py = doc_path(y);
        let ours = path_less(&px.parts, &py.parts);
        let std_less = std::path::Path::new(x) < std::path::Path::new(y);
        assert_eq!(ours, std_less, "{x} < {y}");
    }
}

#[test]
fn listing_is_strictly_ascending() {
    let root = doc_path("/w");
    let found = vec![doc_path("/w/z.md"), doc_path("/w/b/c.md"), doc_path("/w/a.md")];
    let files = collect_markdown_files(&root, &found);
    let labels: Vec<String> = files.iter().map(|f| f.label_with('/')).collect();
    assert_eq!(labels, vec!["a.md", "b/c.md", "z.md"]);
    for pair in files.windows(2) {
        assert!(path_less(&pair[0].relative_path, &pair[1].relative_path));
    }
}
