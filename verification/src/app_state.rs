//! The editor's state and its transitions: how it was launched (scratch
//! buffer, single file or folder), which pane and page are shown, the open
//! document, workspace files, loading and save status, and the texts of the
//! status bar. The window, the editor widget and all file-system work stay
//! with the caller, which reports their outcomes here.

use vstd::prelude::*;
use vstd::string::*;
use crate::paths::{DocPath, PathView, file_name_of, parts_start_with};
use crate::workspace::{WorkspaceFile, WorkspaceFileView, files_view, clone_path};
use crate::file_loader::{
    ReadStrategy, LoadedMarkdown, LoadMarkdownError, strategy_label, load_error_message,
    load_error_path,
};
use crate::format::{format_bytes, format_bytes_spec};
use crate::preview::{PreviewStats, byte_len};
use crate::text::{decimal, push_decimal};

verus! {

/// How the editor was launched.
#[derive(Debug, Clone, Copy, PartialEq, Eq, Structural)]
pub enum LaunchContext {
    /// No target: a new document.
    Scratch,
    /// A single file.
    SingleFile,
    /// A folder, shown as a workspace.
    Folder,
}

/// Which pane shows the document.
#[derive(Debug, Clone, Copy, PartialEq, Eq, Structural)]
pub enum PaneMode {
    Preview,
    Edit,
}

/// Which page is shown.
#[derive(Debug, Clone, Copy, PartialEq, Eq, Structural)]
pub enum AppPage {
    Workspace,
    Settings,
}

/// What the file system reports for a launch target.
#[derive(Debug, Clone, Copy, PartialEq, Eq, Structural)]
pub enum TargetKind {
    /// A directory.
    Directory,
    /// Something other than a directory.
    File,
    /// Its metadata could not be read (for instance, it does not exist).
    Missing,
}

/// The launch context for a target: a folder for a directory, a single file
/// for anything else that was named (readable or not), scratch for none.
pub open spec fn launch_context_for(target: Option<TargetKind>) -> LaunchContext {
    match target {
        Some(TargetKind::Directory) => LaunchContext::Folder,
        Some(_) => LaunchContext::SingleFile,
        None => LaunchContext::Scratch,
    }
}

/// The launch context for a target.
pub fn determine_launch_context(target: Option<TargetKind>) -> (c: LaunchContext)
    ensures
        c == launch_context_for(target),
{
    match target {
        Some(TargetKind::Directory) => LaunchContext::Folder,
        Some(_) => LaunchContext::SingleFile,
        None => LaunchContext::Scratch,
    }
}

/// The document a scratch launch starts with.
pub const DEFAULT_MARKDOWN: &'static str = "# Welcome to mdrs

A **lightweight** Markdown editor built with Rust and [gpui](https://gpui.rs).

## Features

- Live preview as you type
- Syntax highlighting
- Lightweight and fast

## Code Example

```rust
fn main() {
    println!(\"Hello, mdrs!\");
}
```

## Blockquote

> This is a blockquote demonstrating the preview capabilities of mdrs.

---

Start editing on the left to see the preview update on the right!
";

/// The text the editor starts with: the welcome document for a scratch
/// launch, nothing otherwise.
pub open spec fn initial_buffer_spec(c: LaunchContext) -> Seq<char> {
    if c == LaunchContext::Scratch {
        DEFAULT_MARKDOWN@
    } else {
        ""@
    }
}

/// The text the editor starts with.
pub fn initial_buffer(c: LaunchContext) -> (s: &'static str)
    ensures
        s@ == initial_buffer_spec(c),
{
    if c == LaunchContext::Scratch {
        DEFAULT_MARKDOWN
    } else {
        ""
    }
}

/// Where a save goes.
#[derive(Debug)]
pub enum SaveTarget {
    /// The document's own path.
    Path(DocPath),
    /// Ask for a new path, starting in the workspace folder if there is one.
    Prompt(Option<DocPath>),
}

/// What the preview pane shows.
#[derive(Debug, PartialEq, Eq)]
pub enum PreviewContent {
    /// "Loading preview...".
    Loading,
    /// The load error.
    Error(String),
    /// The empty-document placeholder.
    EmptyState,
    /// The rendered document.
    Document,
}

/// The mathematical value of a [`PreviewContent`].
pub enum PreviewContentView {
    Loading,
    Error(Seq<char>),
    EmptyState,
    Document,
}

impl View for PreviewContent {
    type V = PreviewContentView;

    open spec fn view(&self) -> PreviewContentView {
        match self {
            PreviewContent::Loading => PreviewContentView::Loading,
            PreviewContent::Error(e) => PreviewContentView::Error(e@),
            PreviewContent::EmptyState => PreviewContentView::EmptyState,
            PreviewContent::Document => PreviewContentView::Document,
        }
    }
}

/// The mathematical value of the editor's state.
pub struct AppView {
    pub launch_context: LaunchContext,
    pub pane_mode: PaneMode,
    pub current_page: AppPage,
    pub sidebar_open: bool,
    pub workspace_root: Option<PathView>,
    pub workspace_files: Seq<WorkspaceFileView>,
    pub current_path: Option<PathView>,
    pub document_bytes: u64,
    pub read_strategy: Option<ReadStrategy>,
    pub is_loading: bool,
    pub is_dirty: bool,
    pub load_error: Option<Seq<char>>,
    pub status_message: Option<Seq<char>>,
    pub suppress_dirty_tracking: bool,
}

impl AppView {
    /// What holds of every state the editor reaches: only an open document
    /// is loading or modified, the sidebar belongs to folder launches, and a
    /// workspace folder (with its files) exists exactly for folder launches.
    pub open spec fn wf(self) -> bool {
        &&& self.is_dirty ==> self.current_path is Some
        &&& self.is_loading ==> self.current_path is Some
        &&& self.sidebar_open ==> self.launch_context == LaunchContext::Folder
        &&& (self.workspace_root is Some <==> self.launch_context == LaunchContext::Folder)
        &&& self.workspace_files.len() > 0 ==> self.launch_context == LaunchContext::Folder
    }
}

pub open spec fn opt_path_view(p: Option<DocPath>) -> Option<PathView> {
    match p {
        Some(p) => Some(p@),
        None => None,
    }
}

pub open spec fn opt_text_view(s: Option<String>) -> Option<Seq<char>> {
    match s {
        Some(s) => Some(s@),
        None => None,
    }
}

/// The editor's state.
pub struct AppState {
    launch_context: LaunchContext,
    pane_mode: PaneMode,
    current_page: AppPage,
    sidebar_open: bool,
    workspace_root: Option<DocPath>,
    workspace_files: Vec<WorkspaceFile>,
    current_path: Option<DocPath>,
    document_bytes: u64,
    read_strategy: Option<ReadStrategy>,
    is_loading: bool,
    is_dirty: bool,
    load_error: Option<String>,
    status_message: Option<String>,
    suppress_dirty_tracking: bool,
}

impl View for AppState {
    type V = AppView;

    closed spec fn view(&self) -> AppView {
        AppView {
            launch_context: self.launch_context,
            pane_mode: self.pane_mode,
            current_page: self.current_page,
            sidebar_open: self.sidebar_open,
            workspace_root: opt_path_view(self.workspace_root),
            workspace_files: files_view(self.workspace_files@),
            current_path: opt_path_view(self.current_path),
            document_bytes: self.document_bytes,
            read_strategy: self.read_strategy,
            is_loading: self.is_loading,
            is_dirty: self.is_dirty,
            load_error: opt_text_view(self.load_error),
            status_message: opt_text_view(self.status_message),
            suppress_dirty_tracking: self.suppress_dirty_tracking,
        }
    }
}

fn clone_opt_path(p: &Option<DocPath>) -> (q: Option<DocPath>)
    ensures
        opt_path_view(q) == opt_path_view(*p),
{
    match p {
        Some(p) => Some(clone_path(p)),
        None => None,
    }
}

/// The state right after opening a file: loading it in the preview pane.
pub open spec fn opened_file(v: AppView, path: PathView) -> AppView {
    AppView {
        current_path: Some(path),
        is_loading: true,
        is_dirty: false,
        load_error: None,
        status_message: None,
        document_bytes: 0,
        pane_mode: PaneMode::Preview,
        ..v
    }
}

/// The outcome of scanning a workspace folder, as kept in the state.
pub open spec fn scan_files(scan: Result<Vec<WorkspaceFile>, String>) -> Seq<WorkspaceFileView> {
    match scan {
        Ok(files) => files_view(files@),
        Err(_) => seq![],
    }
}

/// The error text of a failed workspace scan.
pub open spec fn scan_error(scan: Result<Vec<WorkspaceFile>, String>) -> Option<Seq<char>> {
    match scan {
        Ok(_) => None,
        Err(e) => Some("Failed to scan workspace: "@ + e@),
    }
}

/// The state a launch starts in.
pub open spec fn launched(
    target: Option<(PathView, TargetKind)>,
    scan: Result<Vec<WorkspaceFile>, String>,
) -> AppView {
    let launch = launch_context_for(
        match target {
            Some(t) => Some(t.1),
            None => None,
        },
    );
    let base = AppView {
        launch_context: launch,
        pane_mode: if launch == LaunchContext::Scratch { PaneMode::Edit } else { PaneMode::Preview },
        current_page: AppPage::Workspace,
        sidebar_open: launch == LaunchContext::Folder,
        workspace_root: None,
        workspace_files: seq![],
        current_path: None,
        document_bytes: vstd::utf8::encode_utf8(initial_buffer_spec(launch)).len() as u64,
        read_strategy: None,
        is_loading: false,
        is_dirty: false,
        load_error: None,
        status_message: None,
        suppress_dirty_tracking: false,
    };
    match target {
        Some((path, kind)) => if launch == LaunchContext::Folder {
            AppView {
                workspace_root: Some(path),
                workspace_files: scan_files(scan),
                load_error: scan_error(scan),
                ..base
            }
        } else {
            opened_file(base, path)
        },
        None => base,
    }
}

/// The state after a workspace folder is opened (the editor is then cleared).
pub open spec fn opened_workspace(
    v: AppView,
    root: PathView,
    scan: Result<Vec<WorkspaceFile>, String>,
) -> AppView {
    AppView {
        launch_context: LaunchContext::Folder,
        current_page: AppPage::Workspace,
        sidebar_open: true,
        workspace_root: Some(root),
        current_path: None,
        document_bytes: 0,
        read_strategy: None,
        is_loading: false,
        is_dirty: false,
        status_message: None,
        load_error: scan_error(scan),
        workspace_files: scan_files(scan),
        pane_mode: PaneMode::Preview,
        ..v
    }
}

/// The state after a single file is opened from a prompt.
pub open spec fn opened_single_file(v: AppView, path: PathView) -> AppView {
    opened_file(
        AppView {
            current_page: AppPage::Workspace,
            launch_context: LaunchContext::SingleFile,
            sidebar_open: false,
            workspace_root: None,
            workspace_files: seq![],
            ..v
        },
        path,
    )
}

/// The state after a load finished.
pub open spec fn file_loaded(v: AppView, r: Result<LoadedMarkdown, LoadMarkdownError>) -> AppView {
    match r {
        Ok(l) => AppView {
            is_loading: false,
            current_path: Some(l.path@),
            document_bytes: l.bytes,
            read_strategy: Some(l.read_strategy),
            is_dirty: false,
            load_error: None,
            status_message: None,
            ..v
        },
        Err(e) => AppView {
            is_loading: false,
            current_path: Some(load_error_path(e)),
            document_bytes: 0,
            read_strategy: None,
            is_dirty: false,
            load_error: Some(load_error_message(e)),
            status_message: None,
            ..v
        },
    }
}

/// Whether a saved path lies in the open workspace folder.
pub open spec fn in_workspace(v: AppView, path: PathView) -> bool {
    match v.workspace_root {
        Some(root) => parts_start_with(path.parts, root.parts),
        None => false,
    }
}

/// The state after a save finished.
pub open spec fn file_saved(
    v: AppView,
    path: PathView,
    result: Result<(), String>,
    text_bytes: u64,
    rescan: Seq<WorkspaceFileView>,
) -> AppView {
    match result {
        Ok(()) => {
            let w = if in_workspace(v, path) {
                AppView { workspace_files: rescan, ..v }
            } else {
                AppView {
                    launch_context: LaunchContext::SingleFile,
                    sidebar_open: false,
                    workspace_root: None,
                    workspace_files: seq![],
                    ..v
                }
            };
            AppView {
                current_page: AppPage::Workspace,
                current_path: Some(path),
                document_bytes: text_bytes,
                read_strategy: None,
                is_dirty: false,
                load_error: None,
                status_message: Some("Saved "@ + path.display),
                ..w
            }
        },
        Err(e) => AppView { status_message: Some("Failed to save file: "@ + e@), ..v },
    }
}

/// The state after the sidebar toggle: flipped for a folder launch,
/// unchanged otherwise.
pub open spec fn sidebar_toggled(v: AppView) -> AppView {
    if v.launch_context == LaunchContext::Folder {
        AppView { sidebar_open: !v.sidebar_open, ..v }
    } else {
        v
    }
}

/// The state after the editor's text changed to one of `new_len` bytes.
pub open spec fn edited(v: AppView, new_len: u64) -> AppView {
    if v.suppress_dirty_tracking {
        AppView { document_bytes: new_len, ..v }
    } else {
        AppView {
            document_bytes: new_len,
            load_error: None,
            status_message: None,
            is_dirty: v.is_dirty || v.current_path is Some,
            ..v
        }
    }
}

impl AppState {
    fn open_file_fields(&mut self, path: DocPath)
        ensures
            final(self)@ == opened_file(old(self)@, path@),
    {
        self.current_path = Some(path);
        self.is_loading = true;
        self.is_dirty = false;
        self.load_error = None;
        self.status_message = None;
        self.document_bytes = 0;
        self.pane_mode = PaneMode::Preview;
    }

    fn apply_scan(&mut self, scan: Result<Vec<WorkspaceFile>, String>)
        ensures
            final(self)@ == (AppView {
                workspace_files: scan_files(scan),
                load_error: scan_error(scan),
                ..old(self)@
            }),
    {
        match scan {
            Ok(files) => {
                self.workspace_files = files;
                self.load_error = None;
            },
            Err(e) => {
                self.workspace_files = Vec::new();
                let mut m = String::from_str("Failed to scan workspace: ");
                m.append(e.as_str());
                self.load_error = Some(m);
                assert(files_view(self.workspace_files@) =~= seq![]);
            },
        }
    }

    /// The state of a new editor. `target` is the path named at launch and
    /// what the file system reports for it; `scan` is the listing of that
    /// folder, used only when it is a directory. A single file starts
    /// loading; the caller then reads it and reports the outcome.
    pub fn new(target: Option<(DocPath, TargetKind)>, scan: Result<Vec<WorkspaceFile>, String>) -> (s: Self)
        ensures
            s@ == launched(
                match target {
                    Some(t) => Some((t.0@, t.1)),
                    None => None,
                },
                scan,
            ),
            s@.wf(),
    {
        let launch = determine_launch_context(
            match &target {
                Some(t) => Some(t.1),
                None => None,
            },
        );
        let initial = initial_buffer(launch);
        let mut s = AppState {
            launch_context: launch,
            pane_mode: if launch == LaunchContext::Scratch { PaneMode::Edit } else { PaneMode::Preview },
            current_page: AppPage::Workspace,
            sidebar_open: launch == LaunchContext::Folder,
            workspace_root: None,
            workspace_files: Vec::new(),
            current_path: None,
            document_bytes: byte_len(initial) as u64,
            read_strategy: None,
            is_loading: false,
            is_dirty: false,
            load_error: None,
            status_message: None,
            suppress_dirty_tracking: false,
        };
        assert(files_view(s.workspace_files@) =~= seq![]);
        match target {
            Some((path, _)) => {
                if launch == LaunchContext::Folder {
                    s.workspace_root = Some(path);
                    s.apply_scan(scan);
                } else {
                    s.open_file_fields(path);
                }
            },
            None => {},
        }
        s
    }

    /// The editor's text changed; it now has `new_len` bytes. Unless the
    /// change was made by the program, it clears the messages and marks an
    /// open document modified.
    pub fn handle_editor_change(&mut self, new_len: u64)
        requires
            old(self)@.wf(),
        ensures
            final(self)@ == edited(old(self)@, new_len),
            final(self)@.wf(),
    {
        self.document_bytes = new_len;
        if !self.suppress_dirty_tracking {
            self.load_error = None;
            self.status_message = None;
            if self.current_path.is_some() {
                self.is_dirty = true;
            }
        }
    }

    /// The program is about to replace the editor's text.
    pub fn begin_programmatic_change(&mut self)
        requires
            old(self)@.wf(),
        ensures
            final(self)@ == (AppView { suppress_dirty_tracking: true, ..old(self)@ }),
            final(self)@.wf(),
    {
        self.suppress_dirty_tracking = true;
    }

    /// The program has replaced the editor's text.
    pub fn end_programmatic_change(&mut self)
        requires
            old(self)@.wf(),
        ensures
            final(self)@ == (AppView { suppress_dirty_tracking: false, ..old(self)@ }),
            final(self)@.wf(),
    {
        self.suppress_dirty_tracking = false;
    }

    /// Starts opening `path`: the caller then loads it and reports the outcome.
    pub fn open_file(&mut self, path: DocPath)
        requires
            old(self)@.wf(),
        ensures
            final(self)@ == opened_file(old(self)@, path@),
            final(self)@.wf(),
    {
        self.open_file_fields(path);
    }

    /// A load finished. On success the loaded text is returned for the
    /// editor (to be set as a programmatic change); on failure the preview
    /// is to be cleared.
    pub fn finish_file_load(&mut self, result: Result<LoadedMarkdown, LoadMarkdownError>) -> (text: Option<String>)
        requires
            old(self)@.wf(),
        ensures
            final(self)@ == file_loaded(old(self)@, result),
            final(self)@.wf(),
            match result {
                Ok(l) => text matches Some(t) && t@ == l.text@,
                Err(_) => text is None,
            },
    {
        self.is_loading = false;
        match result {
            Ok(loaded) => {
                self.current_path = Some(loaded.path);
                self.document_bytes = loaded.bytes;
                self.read_strategy = Some(loaded.read_strategy);
                self.is_dirty = false;
                self.load_error = None;
                self.status_message = None;
                Some(loaded.text)
            },
            Err(error) => {
                self.current_path = Some(clone_path(error.path()));
                self.document_bytes = 0;
                self.read_strategy = None;
                self.is_dirty = false;
                self.load_error = Some(error.message());
                self.status_message = None;
                None
            },
        }
    }

    /// Shows the document in the given pane.
    pub fn set_pane_mode(&mut self, pane_mode: PaneMode)
        requires
            old(self)@.wf(),
        ensures
            final(self)@ == (AppView { pane_mode, ..old(self)@ }),
            final(self)@.wf(),
    {
        self.pane_mode = pane_mode;
    }

    /// Shows or hides the sidebar; only a folder launch has one.
    pub fn toggle_sidebar(&mut self)
        requires
            old(self)@.wf(),
        ensures
            final(self)@ == sidebar_toggled(old(self)@),
            final(self)@.wf(),
    {
        if self.launch_context == LaunchContext::Folder {
            self.sidebar_open = !self.sidebar_open;
        }
    }

    /// Shows the settings page.
    pub fn open_settings(&mut self)
        requires
            old(self)@.wf(),
        ensures
            final(self)@ == (AppView { current_page: AppPage::Settings, ..old(self)@ }),
            final(self)@.wf(),
    {
        self.current_page = AppPage::Settings;
    }

    /// Shows the workspace page.
    pub fn open_workspace_page(&mut self)
        requires
            old(self)@.wf(),
        ensures
            final(self)@ == (AppView { current_page: AppPage::Workspace, ..old(self)@ }),
            final(self)@.wf(),
    {
        self.current_page = AppPage::Workspace;
    }

    /// Starts a save: clears the status message and says where the document goes.
    pub fn begin_save(&mut self) -> (t: SaveTarget)
        requires
            old(self)@.wf(),
        ensures
            final(self)@ == (AppView { status_message: None, ..old(self)@ }),
            final(self)@.wf(),
            match old(self)@.current_path {
                Some(p) => t matches SaveTarget::Path(q) && q@ == p,
                None => t matches SaveTarget::Prompt(d) && opt_path_view(d) == old(self)@.workspace_root,
            },
    {
        self.status_message = None;
        match &self.current_path {
            Some(p) => SaveTarget::Path(clone_path(p)),
            None => SaveTarget::Prompt(clone_opt_path(&self.workspace_root)),
        }
    }

    /// Opens a workspace folder with its listing `scan`; the caller then
    /// clears the editor as a programmatic change.
    pub fn open_workspace(&mut self, root: DocPath, scan: Result<Vec<WorkspaceFile>, String>)
        requires
            old(self)@.wf(),
        ensures
            final(self)@ == opened_workspace(old(self)@, root@, scan),
            final(self)@.wf(),
    {
        self.launch_context = LaunchContext::Folder;
        self.current_page = AppPage::Workspace;
        self.sidebar_open = true;
        self.workspace_root = Some(root);
        self.current_path = None;
        self.document_bytes = 0;
        self.read_strategy = None;
        self.is_loading = false;
        self.is_dirty = false;
        self.status_message = None;
        self.apply_scan(scan);
        self.pane_mode = PaneMode::Preview;
    }

    /// Opens a path chosen by the user: a directory as a workspace (with its
    /// listing `scan`), anything else as a single file (`scan` unused).
    pub fn open_path(&mut self, path: DocPath, kind: TargetKind, scan: Result<Vec<WorkspaceFile>, String>)
        requires
            old(self)@.wf(),
        ensures
            kind == TargetKind::Directory ==> final(self)@ == opened_workspace(old(self)@, path@, scan),
            kind != TargetKind::Directory ==> final(self)@ == opened_single_file(old(self)@, path@),
            final(self)@.wf(),
    {
        self.current_page = AppPage::Workspace;
        match determine_launch_context(Some(kind)) {
            LaunchContext::Folder => self.open_workspace(path, scan),
            _ => {
                self.launch_context = LaunchContext::SingleFile;
                self.sidebar_open = false;
                self.workspace_root = None;
                self.workspace_files = Vec::new();
                assert(files_view(self.workspace_files@) =~= seq![]);
                self.open_file_fields(path);
            },
        }
    }

    /// Whether a file saved to `path` lies in the open workspace (whose
    /// listing then has to be read again).
    pub fn saved_in_workspace(&self, path: &DocPath) -> (r: bool)
        ensures
            r == in_workspace(self@, path@),
    {
        match &self.workspace_root {
            Some(root) => path.starts_with(root),
            None => false,
        }
    }

    /// A save to `path` finished with `result`; `text_bytes` is the size of
    /// the saved text and `rescan` the workspace listing read again (used
    /// only when the file lies in the workspace).
    pub fn finish_save(&mut self, path: DocPath, result: Result<(), String>, text_bytes: u64, rescan: Vec<WorkspaceFile>)
        requires
            old(self)@.wf(),
        ensures
            final(self)@ == file_saved(old(self)@, path@, result, text_bytes, files_view(rescan@)),
            final(self)@.wf(),
    {
        match result {
            Ok(()) => {
                if self.saved_in_workspace(&path) {
                    self.workspace_files = rescan;
                } else {
                    self.launch_context = LaunchContext::SingleFile;
                    self.sidebar_open = false;
                    self.workspace_root = None;
                    self.workspace_files = Vec::new();
                    assert(files_view(self.workspace_files@) =~= seq![]);
                }
                self.current_page = AppPage::Workspace;
                let mut m = String::from_str("Saved ");
                m.append(path.display.as_str());
                self.current_path = Some(path);
                self.document_bytes = text_bytes;
                self.read_strategy = None;
                self.is_dirty = false;
                self.load_error = None;
                self.status_message = Some(m);
            },
            Err(e) => {
                let mut m = String::from_str("Failed to save file: ");
                m.append(e.as_str());
                self.status_message = Some(m);
            },
        }
    }
}

/// The separator between the parts of the status text.
pub open spec fn status_sep() -> Seq<char> {
    " · "@
}

/// The status text for state `v` with preview stats `stats`: the load
/// state, then the number of workspace files (folder launches), "modified",
/// the preview cut and the last message, each present part separated by " · ".
pub open spec fn status_text(v: AppView, stats: PreviewStats) -> Seq<char> {
    let first = if v.is_loading {
        "Loading Markdown file"@
    } else if v.load_error is Some {
        v.load_error->0
    } else if v.read_strategy is Some {
        format_bytes_spec(v.document_bytes as nat) + " loaded with "@ + strategy_label(v.read_strategy->0)
    } else {
        format_bytes_spec(v.document_bytes as nat) + " in buffer"@
    };
    let with_files = if v.launch_context == LaunchContext::Folder {
        first + status_sep() + decimal(v.workspace_files.len()) + " files"@
    } else {
        first
    };
    let with_dirty = if v.is_dirty {
        with_files + status_sep() + "modified"@
    } else {
        with_files
    };
    let with_preview = if stats.truncated {
        with_dirty + status_sep() + "preview limited to "@ + format_bytes_spec(stats.rendered_bytes as nat)
    } else {
        with_dirty
    };
    if v.status_message is Some {
        with_preview + status_sep() + v.status_message->0
    } else {
        with_preview
    }
}

/// The file name of an optional path, or a fallback.
pub open spec fn name_or(p: Option<PathView>, fallback: Seq<char>) -> Seq<char> {
    match p {
        Some(p) => match file_name_of(p.parts) {
            Some(n) => n,
            None => fallback,
        },
        None => fallback,
    }
}

/// What the preview pane shows, given whether the editor holds only whitespace.
pub open spec fn preview_content_for(v: AppView, editor_blank: bool) -> PreviewContentView {
    if v.is_loading {
        PreviewContentView::Loading
    } else if v.load_error is Some {
        PreviewContentView::Error(v.load_error->0)
    } else if v.current_path is None && editor_blank {
        PreviewContentView::EmptyState
    } else {
        PreviewContentView::Document
    }
}

fn name_of(p: &Option<DocPath>, fallback: &str) -> (r: String)
    ensures
        r@ == name_or(opt_path_view(*p), fallback@),
{
    match p {
        Some(p) => match p.file_name() {
            Some(n) => n,
            None => String::from_str(fallback),
        },
        None => String::from_str(fallback),
    }
}

impl AppState {
    /// The status-bar text.
    pub fn status_label(&self, stats: PreviewStats) -> (r: String)
        ensures
            r@ == status_text(self@, stats),
    {
        let sep = " · ";
        let mut r = if self.is_loading {
            String::from_str("Loading Markdown file")
        } else if let Some(error) = &self.load_error {
            error.clone()
        } else if let Some(strategy) = self.read_strategy {
            let mut t = format_bytes(self.document_bytes);
            t.append(" loaded with ");
            t.append(strategy.label());
            t
        } else {
            let mut t = format_bytes(self.document_bytes);
            t.append(" in buffer");
            t
        };
        if self.launch_context == LaunchContext::Folder {
            r.append(sep);
            push_decimal(&mut r, self.workspace_files.len() as u128);
            r.append(" files");
        }
        if self.is_dirty {
            r.append(sep);
            r.append("modified");
        }
        if stats.truncated {
            r.append(sep);
            r.append("preview limited to ");
            let size = format_bytes(stats.rendered_bytes as u64);
            r.append(size.as_str());
        }
        if let Some(message) = &self.status_message {
            r.append(sep);
            r.append(message.as_str());
        }
        r
    }

    /// Whether the document can be edited: in a scratch buffer, or once a
    /// document is open.
    pub fn can_edit(&self) -> (r: bool)
        ensures
            r == (self@.launch_context == LaunchContext::Scratch || self@.current_path is Some),
    {
        self.launch_context == LaunchContext::Scratch || self.current_path.is_some()
    }

    /// Whether the workspace sidebar is shown.
    pub fn has_sidebar(&self) -> (r: bool)
        ensures
            r == (self@.current_page == AppPage::Workspace && self@.launch_context
                == LaunchContext::Folder && self@.sidebar_open),
    {
        self.current_page == AppPage::Workspace && self.launch_context == LaunchContext::Folder
            && self.sidebar_open
    }

    /// The name of the workspace folder, or "Workspace".
    pub fn workspace_name(&self) -> (r: String)
        ensures
            r@ == name_or(self@.workspace_root, "Workspace"@),
    {
        name_of(&self.workspace_root, "Workspace")
    }

    /// The name of the open document, or "Untitled.md".
    pub fn document_name(&self) -> (r: String)
        ensures
            r@ == name_or(self@.current_path, "Untitled.md"@),
    {
        name_of(&self.current_path, "Untitled.md")
    }

    /// The open document's path as displayed, or "Scratch buffer".
    pub fn source_label(&self) -> (r: String)
        ensures
            r@ == match self@.current_path {
                Some(p) => p.display,
                None => "Scratch buffer"@,
            },
    {
        match &self.current_path {
            Some(p) => p.display.clone(),
            None => String::from_str("Scratch buffer"),
        }
    }

    /// The status bar's description of the launch.
    pub fn context_label(&self) -> (r: &'static str)
        ensures
            r@ == match self@.launch_context {
                LaunchContext::Scratch => "New document"@,
                LaunchContext::SingleFile => "Single file"@,
                LaunchContext::Folder => "Workspace preview"@,
            },
    {
        match self.launch_context {
            LaunchContext::Scratch => "New document",
            LaunchContext::SingleFile => "Single file",
            LaunchContext::Folder => "Workspace preview",
        }
    }

    /// What the preview pane shows; `editor_blank` tells whether the editor
    /// holds only whitespace.
    pub fn preview_content(&self, editor_blank: bool) -> (c: PreviewContent)
        ensures
            c@ == preview_content_for(self@, editor_blank),
    {
        if self.is_loading {
            PreviewContent::Loading
        } else if let Some(error) = &self.load_error {
            PreviewContent::Error(error.clone())
        } else if self.current_path.is_none() && editor_blank {
            PreviewContent::EmptyState
        } else {
            PreviewContent::Document
        }
    }

    /// How the editor was launched.
    pub fn launch_context(&self) -> (r: LaunchContext)
        ensures
            r == self@.launch_context,
    {
        self.launch_context
    }

    /// The pane showing the document.
    pub fn pane_mode(&self) -> (r: PaneMode)
        ensures
            r == self@.pane_mode,
    {
        self.pane_mode
    }

    /// The page shown.
    pub fn current_page(&self) -> (r: AppPage)
        ensures
            r == self@.current_page,
    {
        self.current_page
    }

    /// Whether the sidebar can be toggled (folder launches).
    pub fn sidebar_toggleable(&self) -> (r: bool)
        ensures
            r == (self@.launch_context == LaunchContext::Folder),
    {
        self.launch_context == LaunchContext::Folder
    }

    /// The Markdown files of the workspace, sorted by relative path.
    pub fn workspace_files(&self) -> (r: &Vec<WorkspaceFile>)
        ensures
            files_view(r@) == self@.workspace_files,
    {
        &self.workspace_files
    }

    /// The workspace folder, for a folder launch.
    pub fn workspace_root(&self) -> (r: &Option<DocPath>)
        ensures
            opt_path_view(*r) == self@.workspace_root,
    {
        &self.workspace_root
    }

    /// The path of the open document, if any.
    pub fn current_path(&self) -> (r: &Option<DocPath>)
        ensures
            opt_path_view(*r) == self@.current_path,
    {
        &self.current_path
    }
}

// ── Laws ────────────────────────────────────────────────────────────────────

/// Toggling the sidebar twice restores the state.
pub proof fn lemma_toggle_sidebar_twice(v: AppView)
    ensures
        sidebar_toggled(sidebar_toggled(v)) == v,
{
}

/// How each launch starts: a scratch launch edits the welcome document with
/// no document open; a single file opens in the preview pane and starts
/// loading; a folder opens the workspace sidebar and the preview pane with no
/// document open.
pub proof fn lemma_launch_modes(
    target: Option<(PathView, TargetKind)>,
    scan: Result<Vec<WorkspaceFile>, String>,
)
    ensures
        target is None ==> {
            let v = launched(target, scan);
            &&& v.launch_context == LaunchContext::Scratch
            &&& v.pane_mode == PaneMode::Edit
            &&& v.current_path is None
            &&& !v.sidebar_open
            &&& !v.is_loading
        },
        target is Some && target.unwrap().1 != TargetKind::Directory ==> {
            let v = launched(target, scan);
            let p = target.unwrap().0;
            &&& v.launch_context == LaunchContext::SingleFile
            &&& v.pane_mode == PaneMode::Preview
            &&& v.current_path == Some(p)
            &&& v.is_loading
            &&& !v.sidebar_open
        },
        target is Some && target.unwrap().1 == TargetKind::Directory ==> {
            let v = launched(target, scan);
            let p = target.unwrap().0;
            &&& v.launch_context == LaunchContext::Folder
            &&& v.pane_mode == PaneMode::Preview
            &&& v.sidebar_open
            &&& v.workspace_root == Some(p)
            &&& v.current_path is None
        },
        launched(target, scan).wf(),
{
}

/// Text set by the program (a load or a workspace switch) is not a user
/// edit: it does not mark the document modified nor clear the messages.
pub proof fn lemma_programmatic_change_is_not_an_edit(v: AppView, new_len: u64)
    requires
        !v.suppress_dirty_tracking,
    ensures
        ({
            let w = edited(AppView { suppress_dirty_tracking: true, ..v }, new_len);
            let after = AppView { suppress_dirty_tracking: false, ..w };
            after == AppView { document_bytes: new_len, ..v }
        }),
{
}

/// A user edit marks an open document modified (a scratch buffer never is)
/// and clears the messages.
pub proof fn lemma_user_edit(v: AppView, new_len: u64)
    requires
        !v.suppress_dirty_tracking,
        v.wf(),
    ensures
        edited(v, new_len).is_dirty == (v.current_path is Some),
        edited(v, new_len).load_error is None,
        edited(v, new_len).status_message is None,
        edited(v, new_len).document_bytes == new_len,
{
}

/// Opening a file and loading it shows it unmodified, with its size and read
/// strategy; a failed load shows the error for that path.
pub proof fn lemma_open_then_load(v: AppView, path: PathView, r: Result<LoadedMarkdown, LoadMarkdownError>)
    ensures
        ({
            let w = file_loaded(opened_file(v, path), r);
            &&& !w.is_loading
            &&& !w.is_dirty
            &&& w.pane_mode == PaneMode::Preview
            &&& match r {
                Ok(l) => w.current_path == Some(l.path@) && w.read_strategy == Some(l.read_strategy)
                    && w.document_bytes == l.bytes && w.load_error is None,
                Err(e) => w.current_path == Some(load_error_path(e)) && w.load_error == Some(
                    load_error_message(e),
                ) && w.document_bytes == 0,
            }
        }),
{
}

/// A successful save leaves the saved document open and unmodified, with a
/// "Saved" message; saving outside the workspace leaves it.
pub proof fn lemma_save_clears_modified(
    v: AppView,
    path: PathView,
    text_bytes: u64,
    rescan: Seq<WorkspaceFileView>,
)
    requires
        v.wf(),
    ensures
        ({
            let w = file_saved(v, path, Ok(()), text_bytes, rescan);
            &&& !w.is_dirty
            &&& w.current_path == Some(path)
            &&& w.status_message == Some("Saved "@ + path.display)
            &&& w.current_page == AppPage::Workspace
            &&& !in_workspace(v, path) ==> w.launch_context == LaunchContext::SingleFile
                && w.workspace_root is None
            &&& in_workspace(v, path) ==> w.launch_context == LaunchContext::Folder
                && w.workspace_files == rescan
        }),
{
}

/// "modified" is the part of the status text that a pending edit adds,
/// whatever the launch: with no preview cut and no message, the text of a
/// modified state is that of the same state unmodified followed by
/// " · modified".
pub proof fn lemma_status_marks_modified(v: AppView, stats: PreviewStats)
    requires
        !stats.truncated,
        v.status_message is None,
    ensures
        status_text(AppView { is_dirty: true, ..v }, stats) == status_text(AppView { is_dirty: false, ..v }, stats)
            + " · modified"@,
{
    reveal_strlit(" · ");
    reveal_strlit("modified");
    reveal_strlit(" · modified");
    let c = status_text(AppView { is_dirty: false, ..v }, stats);
    assert(c + status_sep() + "modified"@ =~= c + " · modified"@);
}

/// Opening a folder lists exactly the files its scan found (none when the
/// scan failed, which is reported), and clears the editor: with no preview
/// cut, the status then reads the empty buffer's size and the number of
/// files found.
pub proof fn lemma_open_workspace_lists_scan(
    v: AppView,
    root: PathView,
    scan: Result<Vec<WorkspaceFile>, String>,
    stats: PreviewStats,
)
    requires
        !stats.truncated,
    ensures
        ({
            let w = opened_workspace(v, root, scan);
            &&& w.workspace_root == Some(root)
            &&& w.launch_context == LaunchContext::Folder
            &&& w.current_path is None
            &&& match scan {
                Ok(files) => {
                    &&& w.workspace_files == files_view(files@)
                    &&& w.load_error is None
                    &&& status_text(w, stats) == format_bytes_spec(0) + " in buffer"@ + " · "@
                        + decimal(files@.len()) + " files"@
                },
                Err(e) => {
                    &&& w.workspace_files.len() == 0
                    &&& w.load_error == Some("Failed to scan workspace: "@ + e@)
                },
            }
        }),
        match scan {
            Ok(files) => launched(Some((root, TargetKind::Directory)), scan).workspace_files == files_view(files@),
            Err(_) => launched(Some((root, TargetKind::Directory)), scan).workspace_files.len() == 0,
        },
{
    reveal_strlit(" · ");
    let w = opened_workspace(v, root, scan);
    match scan {
        Ok(files) => {
            assert(files_view(files@).len() == files@.len());
        },
        Err(_) => {},
    }
}

/// The preview shows the empty-document placeholder exactly when nothing is
/// loading or failed, no file is open and the editor holds only whitespace;
/// an editor with text shows its document unless a load is pending or failed.
pub proof fn lemma_preview_content(v: AppView, editor_blank: bool)
    ensures
        (preview_content_for(v, editor_blank) == PreviewContentView::EmptyState) <==> (!v.is_loading
            && v.load_error is None && v.current_path is None && editor_blank),
        !editor_blank && !v.is_loading && v.load_error is None ==> preview_content_for(v, editor_blank)
            == PreviewContentView::Document,
        v.is_loading ==> preview_content_for(v, editor_blank) == PreviewContentView::Loading,
        !v.is_loading && v.load_error is Some ==> preview_content_for(v, editor_blank)
            == PreviewContentView::Error(v.load_error->0),
{
}

} // verus!
