use mdrs::file_loader::{
    finish_markdown_load, read_strategy_for, LoadMarkdownError, ReadStrategy, DIRECT_READ_LIMIT,
};
use mdrs::paths::{DocPath, PathPart};

fn doc_path(display: &str) -> DocPath {
    let mut parts = vec![PathPart::Root];
    for name in display.split('/').filter(|s| !s.is_empty()) {
        parts.push(PathPart::Normal(name.to_string()));
    }
    DocPath { display: display.to_string(), parts }
}

fn load(display: &str, contents: &[u8]) -> Result<mdrs::file_loader::LoadedMarkdown, LoadMarkdownError> {
    let path = doc_path(display);
    let bytes = contents.len() as u64;
    let strategy = read_strategy_for(path.clone(), bytes).unwrap();
    finish_markdown_load(path, bytes, strategy, contents)
}

#[test]
fn loads_small_files_with_direct_read() {
    let loaded = load("/tmp/mdrs-small.md", "# small\nhello".as_bytes()).unwrap();
    assert_eq!(loaded.read_strategy, ReadStrategy::Direct);
    assert_eq!(loaded.text, "# small\nhello");
}

#[test]
fn loads_large_files_with_buffered_read() {
    let large_markdown = format!(
        "# large\n{}",
        "content line\n".repeat((DIRECT_READ_LIMIT as usize / 12) + 2048)
    );
    let loaded = load("/tmp/mdrs-large.md", large_markdown.as_bytes()).unwrap();
    assert_eq!(loaded.read_strategy, ReadStrategy::Buffered);
    assert_eq!(loaded.text, large_markdown);
}

#[test]
fn strategy_switches_above_one_megabyte() {
    let p = doc_path("/a.md");
    assert_eq!(read_strategy_for(p.clone(), 0).unwrap(), ReadStrategy::Direct);
    assert_eq!(read_strategy_for(p.clone(), 1024 * 1024).unwrap(), ReadStrategy::Direct);
    assert_eq!(read_strategy_for(p.clone(), 1024 * 1024 + 1).unwrap(), ReadStrategy::Buffered);
    assert_eq!(read_strategy_for(p, u64::MAX >> 1).unwrap(), ReadStrategy::Buffered);
}

#[test]
fn strategy_labels() {
    assert_eq!(ReadStrategy::Direct.label(), "direct read");
    assert_eq!(ReadStrategy::Buffered.label(), "buffered streaming read");
}

#[test]
fn loads_unicode_text_exactly() {
    let text = "# Überschrift\n\n日本語のテキスト 🦀\n";
    let loaded = load("/docs/u.md", text.as_bytes()).unwrap();
    assert_eq!(loaded.text, text);
    assert_eq!(loaded.bytes, text.len() as u64);
    assert_eq!(loaded.path.display, "/docs/u.md");
}

#[test]
fn rejects_invalid_utf8() {
    let err = load("/docs/bad.md", &[b'#', b' ', 0xff, 0xfe, b'x']).unwrap_err();
    match &err {
        LoadMarkdownError::Decode { path, .. } => assert_eq!(path.display, "/docs/bad.md"),
        other => panic!("unexpected error {other:?}"),
    }
    assert!(err.message().starts_with("file is not valid UTF-8: "));
    assert_eq!(err.path().display, "/docs/bad.md");
    // A truncated multi-byte character at the end is invalid too.
    assert!(load("/docs/cut.md", &[0xe6, 0x97]).is_err());
}

#[test]
fn error_messages() {
    let e = LoadMarkdownError::Io { path: doc_path("/x.md"), message: "No such file or directory (os error 2)".to_string() };
    assert_eq!(e.message(), "No such file or directory (os error 2)");
    let e = LoadMarkdownError::TooLarge { path: doc_path("/x.md"), bytes: 5 * 1024 * 1024 * 1024 };
    assert_eq!(e.message(), "file is too large to load into the editor (5.0 GB)");
    assert_eq!(e.path().display, "/x.md");
}

#[test]
fn decode_and_io_error_messages() {
    let e = LoadMarkdownError::Decode { path: doc_path("/a"), invalid_data: true, message: "bad".to_string() };
    assert_eq!(e.message(), "file is not valid UTF-8: bad");
    let e = LoadMarkdownError::Decode { path: doc_path("/a"), invalid_data: false, message: "x".to_string() };
    assert_eq!(e.message(), "failed to decode file: x");
    assert_eq!(e.path().display, "/a");
    let e = LoadMarkdownError::Io { path: doc_path("/a"), message: "gone".to_string() };
    assert_eq!(e.message(), "gone");
}
