use mdrs::app_state::{
    determine_launch_context, initial_buffer, AppPage, AppState, LaunchContext, PaneMode,
    PreviewContent, SaveTarget, TargetKind, DEFAULT_MARKDOWN,
};
use mdrs::file_loader::{finish_markdown_load, LoadMarkdownError, ReadStrategy};
use mdrs::format::format_bytes;
use mdrs::paths::{DocPath, PathPart};
use mdrs::preview::PreviewStats;
use mdrs::workspace::collect_markdown_files;

fn doc_path(display: &str) -> DocPath {
    let mut parts = vec![PathPart::Root];
    for name in display.split('/').filter(|s| !s.is_empty()) {
        parts.push(PathPart::Normal(name.to_string()));
    }
    DocPath { display: display.to_string(), parts }
}

fn no_stats() -> PreviewStats {
    PreviewStats { rendered_bytes: 0, truncated: false }
}

#[test]
fn launch_contexts() {
    assert_eq!(determine_launch_context(None), LaunchContext::Scratch);
    assert_eq!(determine_launch_context(Some(TargetKind::Directory)), LaunchContext::Folder);
    assert_eq!(determine_launch_context(Some(TargetKind::File)), LaunchContext::SingleFile);
    assert_eq!(determine_launch_context(Some(TargetKind::Missing)), LaunchContext::SingleFile);
    assert_eq!(initial_buffer(LaunchContext::Scratch), DEFAULT_MARKDOWN);
    assert_eq!(initial_buffer(LaunchContext::Folder), "");
}

#[test]
fn scratch_launch_edits_the_welcome_document() {
    let s = AppState::new(None, Ok(vec![]));
    assert_eq!(s.pane_mode(), PaneMode::Edit);
    assert!(s.can_edit());
    assert!(!s.has_sidebar());
    assert_eq!(s.context_label(), "New document");
    assert_eq!(s.source_label(), "Scratch buffer");
    assert_eq!(s.document_name(), "Untitled.md");
    assert_eq!(
        s.status_label(no_stats()),
        format!("{} in buffer", format_bytes(DEFAULT_MARKDOWN.len() as u64))
    );
}

#[test]
fn single_file_launch_previews_then_loads() {
    let path = doc_path("/notes/today.md");
    let mut s = AppState::new(Some((path.clone(), TargetKind::File)), Ok(vec![]));
    assert_eq!(s.pane_mode(), PaneMode::Preview);
    assert_eq!(s.status_label(no_stats()), "Loading Markdown file");
    assert_eq!(s.preview_content(true), PreviewContent::Loading);
    let loaded = finish_markdown_load(path.clone(), 5, ReadStrategy::Direct, b"# hi\n");
    let text = s.finish_file_load(loaded);
    assert_eq!(text.as_deref(), Some("# hi\n"));
    assert_eq!(s.status_label(no_stats()), "5 B loaded with direct read");
    assert_eq!(s.document_name(), "today.md");
    assert_eq!(s.context_label(), "Single file");
    // A programmatic change is not an edit.
    s.begin_programmatic_change();
    s.handle_editor_change(5);
    s.end_programmatic_change();
    assert_eq!(s.status_label(no_stats()), "5 B loaded with direct read");
    // A user edit is.
    s.handle_editor_change(6);
    assert_eq!(s.status_label(no_stats()), "6 B loaded with direct read · modified");
    assert_eq!(
        s.status_label(PreviewStats { rendered_bytes: 2048, truncated: true }),
        "6 B loaded with direct read · modified · preview limited to 2.0 KB"
    );
    s.set_pane_mode(PaneMode::Edit);
    assert_eq!(s.pane_mode(), PaneMode::Edit);
}

#[test]
fn failed_loads_show_the_error() {
    let path = doc_path("/missing.md");
    let mut s = AppState::new(Some((path.clone(), TargetKind::Missing)), Ok(vec![]));
    let text = s.finish_file_load(Err(LoadMarkdownError::Io {
        path,
        message: "No such file or directory (os error 2)".to_string(),
    }));
    assert_eq!(text, None);
    assert_eq!(s.status_label(no_stats()), "No such file or directory (os error 2)");
    assert_eq!(
        s.preview_content(false),
        PreviewContent::Error("No such file or directory (os error 2)".to_string())
    );
    assert_eq!(s.source_label(), "/missing.md");
}

#[test]
fn folder_launch_shows_the_workspace() {
    let root = doc_path("/w");
    let files = collect_markdown_files(&root, &vec![doc_path("/w/a.md"), doc_path("/w/b.txt")]);
    let mut s = AppState::new(Some((root.clone(), TargetKind::Directory)), Ok(files));
    assert!(s.has_sidebar());
    assert!(s.sidebar_toggleable());
    assert_eq!(s.workspace_name(), "w");
    assert_eq!(s.workspace_files().len(), 1);
    assert!(!s.can_edit());
    assert_eq!(s.preview_content(true), PreviewContent::EmptyState);
    assert_eq!(s.status_label(no_stats()), "0 B in buffer · 1 files");
    assert_eq!(s.context_label(), "Workspace preview");
    s.toggle_sidebar();
    assert!(!s.has_sidebar());
    s.toggle_sidebar();
    assert!(s.has_sidebar());
    s.open_settings();
    assert_eq!(s.current_page(), AppPage::Settings);
    assert!(!s.has_sidebar());
    s.open_workspace_page();
    assert!(s.has_sidebar());
}

#[test]
fn failed_scans_are_reported() {
    let s = AppState::new(Some((doc_path("/w"), TargetKind::Directory)), Err("permission denied".to_string()));
    assert_eq!(s.status_label(no_stats()), "Failed to scan workspace: permission denied · 0 files");
}

#[test]
fn saving_inside_and_outside_the_workspace() {
    let root = doc_path("/w");
    let mut s = AppState::new(Some((root.clone(), TargetKind::Directory)), Ok(vec![]));
    match s.begin_save() {
        SaveTarget::Prompt(Some(dir)) => assert_eq!(dir.display, "/w"),
        other => panic!("{other:?}"),
    }
    let inside = doc_path("/w/new.md");
    assert!(s.saved_in_workspace(&inside));
    let rescan = collect_markdown_files(&root, &vec![inside.clone()]);
    s.finish_save(inside.clone(), Ok(()), 7, rescan);
    assert_eq!(s.launch_context(), LaunchContext::Folder);
    assert_eq!(s.status_label(no_stats()), "7 B in buffer · 1 files · Saved /w/new.md");
    match s.begin_save() {
        SaveTarget::Path(p) => assert_eq!(p.display, "/w/new.md"),
        other => panic!("{other:?}"),
    }
    let outside = doc_path("/elsewhere/x.md");
    assert!(!s.saved_in_workspace(&outside));
    s.finish_save(outside, Ok(()), 9, vec![]);
    assert_eq!(s.launch_context(), LaunchContext::SingleFile);
    assert!(!s.sidebar_toggleable());
    assert_eq!(s.status_label(no_stats()), "9 B in buffer · Saved /elsewhere/x.md");
    s.finish_save(doc_path("/ro/x.md"), Err("Permission denied (os error 13)".to_string()), 0, vec![]);
    assert_eq!(
        s.status_label(no_stats()),
        "9 B in buffer · Failed to save file: Permission denied (os error 13)"
    );
}

#[test]
fn opening_paths_switches_modes() {
    let mut s = AppState::new(None, Ok(vec![]));
    s.open_path(doc_path("/w"), TargetKind::Directory, Ok(vec![]));
    assert_eq!(s.launch_context(), LaunchContext::Folder);
    assert_eq!(s.pane_mode(), PaneMode::Preview);
    assert!(s.current_path().is_none());
    s.open_path(doc_path("/x.md"), TargetKind::File, Ok(vec![]));
    assert_eq!(s.launch_context(), LaunchContext::SingleFile);
    assert!(!s.has_sidebar());
    assert_eq!(s.status_label(no_stats()), "Loading Markdown file");
    s.open_workspace(doc_path("/v"), Ok(vec![]));
    assert_eq!(s.workspace_name(), "v");
    assert_eq!(s.status_label(no_stats()), "0 B in buffer · 0 files");
}
