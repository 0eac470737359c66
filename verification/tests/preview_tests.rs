use mdrs::preview::{
    blocks_from_events, code_block_display, list_bullet, parse_markdown, MarkdownPreview, MdBlock,
    MdEvent, Span, PREVIEW_LIMIT,
};

fn span_texts(spans: &[Span]) -> Vec<(String, bool, bool, bool)> {
    spans.iter().map(|s| (s.text.clone(), s.bold, s.italic, s.code)).collect()
}

fn plain(t: &str) -> (String, bool, bool, bool) {
    (t.to_string(), false, false, false)
}

#[test]
fn parses_headings_paragraphs_and_inline_runs() {
    let blocks = parse_markdown("# Title\n\nHello *world* and **bold** `code`\n");
    assert_eq!(blocks.len(), 2);
    match &blocks[0] {
        MdBlock::Heading { level, text } => {
            assert_eq!(*level, 1);
            assert_eq!(text, "Title");
        }
        other => panic!("{other:?}"),
    }
    match &blocks[1] {
        MdBlock::Paragraph { spans } => assert_eq!(
            span_texts(spans),
            vec![
                plain("Hello "),
                ("world".to_string(), false, true, false),
                plain(" and "),
                ("bold".to_string(), true, false, false),
                plain(" "),
                ("code".to_string(), false, false, true),
            ]
        ),
        other => panic!("{other:?}"),
    }
}

#[test]
fn parses_lists_quotes_rules_and_code() {
    let src = "- a\n- b\n\n1. x\n\n> quote\n\n---\n\n```rust\nfn main() {}\n```\n\n    indented\n";
    let blocks = parse_markdown(src);
    assert_eq!(blocks.len(), 6, "{blocks:?}");
    match &blocks[0] {
        MdBlock::List { ordered, items } => {
            assert!(!ordered);
            assert_eq!(items.len(), 2);
            assert_eq!(span_texts(&items[0]), vec![plain("a")]);
            assert_eq!(span_texts(&items[1]), vec![plain("b")]);
        }
        other => panic!("{other:?}"),
    }
    match &blocks[1] {
        MdBlock::List { ordered, items } => {
            assert!(*ordered);
            assert_eq!(span_texts(&items[0]), vec![plain("x")]);
        }
        other => panic!("{other:?}"),
    }
    match &blocks[2] {
        MdBlock::Blockquote { spans } => assert_eq!(span_texts(spans), vec![plain("quote")]),
        other => panic!("{other:?}"),
    }
    assert!(matches!(blocks[3], MdBlock::Rule));
    match &blocks[4] {
        MdBlock::CodeBlock { code, lang } => {
            assert_eq!(code, "fn main() {}\n");
            assert_eq!(lang.as_deref(), Some("rust"));
        }
        other => panic!("{other:?}"),
    }
    match &blocks[5] {
        MdBlock::CodeBlock { code, lang } => {
            assert_eq!(code, "indented\n");
            assert_eq!(*lang, None);
        }
        other => panic!("{other:?}"),
    }
}

#[test]
fn images_become_placeholders_and_breaks_newlines() {
    let blocks = parse_markdown("![alt](img.png)\nnext line\n");
    match &blocks[0] {
        MdBlock::Paragraph { spans } => assert_eq!(span_texts(spans), vec![plain("[image]alt\nnext line")]),
        other => panic!("{other:?}"),
    }
}

#[test]
fn folds_events_directly() {
    let events = vec![
        MdEvent::StartHeading(2),
        MdEvent::Text("Hi".to_string()),
        MdEvent::StartEmphasis,
        MdEvent::Text(" there".to_string()),
        MdEvent::EndEmphasis,
        MdEvent::EndHeading,
        MdEvent::StartFencedCode(String::new()),
        MdEvent::Text("x".to_string()),
        MdEvent::SoftBreak,
        MdEvent::EndCodeBlock,
        MdEvent::EndList,
        MdEvent::StartParagraph,
        MdEvent::EndParagraph,
        MdEvent::Other,
    ];
    let blocks = blocks_from_events(&events);
    assert_eq!(blocks.len(), 2, "{blocks:?}");
    match &blocks[0] {
        MdBlock::Heading { level, text } => {
            assert_eq!(*level, 2);
            assert_eq!(text, "Hi there");
        }
        other => panic!("{other:?}"),
    }
    match &blocks[1] {
        MdBlock::CodeBlock { code, lang } => {
            assert_eq!(code, "x");
            assert_eq!(*lang, None);
        }
        other => panic!("{other:?}"),
    }
}

#[test]
fn small_documents_are_previewed_whole() {
    let p = MarkdownPreview::new("# a\n");
    assert_eq!(p.stats().rendered_bytes, 4);
    assert!(!p.stats().truncated);
    assert_eq!(p.blocks().len(), 1);
}

#[test]
fn large_documents_are_cut_at_the_limit() {
    let src = "x".repeat(PREVIEW_LIMIT + 10);
    let p = MarkdownPreview::new(&src);
    assert_eq!(p.stats().rendered_bytes, PREVIEW_LIMIT);
    assert!(p.stats().truncated);
    // A multi-byte character across the limit is left out whole.
    let src = format!("{}é tail", "y".repeat(PREVIEW_LIMIT - 1));
    let mut p = MarkdownPreview::new("");
    p.set_markdown(&src);
    assert_eq!(p.stats().rendered_bytes, PREVIEW_LIMIT - 1);
    assert!(p.stats().truncated);
    match &p.blocks()[0] {
        MdBlock::Paragraph { spans } => assert_eq!(spans[0].text.len(), PREVIEW_LIMIT - 1),
        other => panic!("{other:?}"),
    }
}

#[test]
fn list_bullets_and_code_display() {
    assert_eq!(list_bullet(true, 0), "1. ");
    assert_eq!(list_bullet(true, 9), "10. ");
    assert_eq!(list_bullet(false, 3), "• ");
    assert_eq!(code_block_display("fn main() {}\n\n"), "fn main() {}");
    assert_eq!(code_block_display("a\nb"), "a\nb");
    assert_eq!(code_block_display("\n"), "");
}

#[test]
fn paragraphs_are_never_empty() {
    let src = "**\n\n*a*\n\n` `\n\n> \n\n- \n\nplain\n";
    for block in parse_markdown(src) {
        match block {
            MdBlock::Paragraph { spans } | MdBlock::Blockquote { spans } => {
                assert!(!spans.is_empty());
                for s in spans {
                    assert!(s.code || !s.text.is_empty());
                }
            }
            MdBlock::List { items, .. } => {
                for item in items {
                    for s in item {
                        assert!(s.code || !s.text.is_empty());
                    }
                }
            }
            _ => {}
        }
    }
}

#[test]
fn code_spans_are_never_bold_or_italic() {
    let blocks = parse_markdown("**bold `c1` still** and *it `c2`*\n");
    match &blocks[0] {
        MdBlock::Paragraph { spans } => {
            assert_eq!(
                span_texts(spans),
                vec![
                    ("bold ".to_string(), true, false, false),
                    ("c1".to_string(), false, false, true),
                    (" still".to_string(), true, false, false),
                    plain(" and "),
                    ("it ".to_string(), false, true, false),
                    ("c2".to_string(), false, false, true),
                ]
            );
        }
        other => panic!("{other:?}"),
    }
}

#[test]
fn heading_levels_run_from_one_to_six() {
    let src = "# a\n## b\n### c\n#### d\n##### e\n###### f\n####### g\n";
    let levels: Vec<u8> = parse_markdown(src)
        .iter()
        .filter_map(|b| match b {
            MdBlock::Heading { level, .. } => Some(*level),
            _ => None,
        })
        .collect();
    assert_eq!(levels, vec![1, 2, 3, 4, 5, 6]);
}
