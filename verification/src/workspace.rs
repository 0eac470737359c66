//! Workspace discovery: from the regular files found under a folder, the
//! Markdown files (extensions `md`, `markdown`, `mdown`, `mdx`) with their
//! paths relative to the folder, sorted by relative path.

use vstd::prelude::*;
use vstd::string::*;
use crate::paths::{DocPath, PathPart, PartView, PathView, parts_view, file_name_of, parts_start_with, parts_starts_with};
use crate::text::push_char;

verus! {

// ── Extensions ──────────────────────────────────────────────────────────────

/// The index of the last occurrence of `c` in `s`, or -1.
pub open spec fn last_index_of(s: Seq<char>, c: char) -> int
    decreases s.len(),
{
    if s.len() == 0 {
        -1
    } else if s.last() == c {
        s.len() - 1
    } else {
        last_index_of(s.drop_last(), c)
    }
}

proof fn lemma_last_index_bounds(s: Seq<char>, c: char)
    ensures
        -1 <= last_index_of(s, c) < s.len(),
        last_index_of(s, c) >= 0 ==> s[last_index_of(s, c)] == c,
    decreases s.len(),
{
    if s.len() > 0 && s.last() != c {
        lemma_last_index_bounds(s.drop_last(), c);
    }
}

/// The extension of a file name, as `Path::extension` gives it: the text
/// after the last `.`, unless there is none or the name starts with its
/// only `.` (or is `..`).
pub open spec fn extension_of(name: Seq<char>) -> Option<Seq<char>> {
    let i = last_index_of(name, '.');
    if name == seq!['.', '.'] || i <= 0 {
        None
    } else {
        Some(name.subrange(i + 1, name.len() as int))
    }
}

/// Whether an extension marks a Markdown file.
pub open spec fn is_markdown_extension(ext: Seq<char>) -> bool {
    ||| ext == seq!['m', 'd']
    ||| ext == seq!['m', 'a', 'r', 'k', 'd', 'o', 'w', 'n']
    ||| ext == seq!['m', 'd', 'o', 'w', 'n']
    ||| ext == seq!['m', 'd', 'x']
}

/// Whether a path names a Markdown file.
pub open spec fn is_markdown_parts(parts: Seq<PartView>) -> bool {
    match file_name_of(parts) {
        Some(name) => match extension_of(name) {
            Some(ext) => is_markdown_extension(ext),
            None => false,
        },
        None => false,
    }
}

/// Whether `s` equals the characters of `lit`.
fn str_is(s: &str, lit: &str) -> (r: bool)
    ensures
        r == (s@ == lit@),
{
    let n = s.unicode_len();
    if n != lit.unicode_len() {
        return false;
    }
    let mut i: usize = 0;
    while i < n
        invariant
            n == s@.len(),
            n == lit@.len(),
            i <= n,
            forall|j: int| 0 <= j < i ==> s@[j] == lit@[j],
        decreases n - i,
    {
        if s.get_char(i) != lit.get_char(i) {
            return false;
        }
        i = i + 1;
    }
    assert(s@ =~= lit@);
    true
}

/// The index of the last `c` in `s`, if there is one.
fn find_last(s: &str, c: char) -> (r: Option<usize>)
    ensures
        match r {
            Some(i) => i == last_index_of(s@, c),
            None => last_index_of(s@, c) == -1,
        },
{
    let n = s.unicode_len();
    let mut i: usize = n;
    assert(s@.take(n as int) =~= s@);
    while i > 0
        invariant
            i <= n,
            n == s@.len(),
            last_index_of(s@, c) == last_index_of(s@.take(i as int), c),
        decreases i,
    {
        assert(s@.take(i as int).drop_last() =~= s@.take(i - 1));
        if s.get_char(i - 1) == c {
            return Some(i - 1);
        }
        i = i - 1;
    }
    None
}

/// Whether a file name has one of the Markdown extensions.
pub fn is_markdown_name(name: &str) -> (r: bool)
    ensures
        r == match extension_of(name@) {
            Some(ext) => is_markdown_extension(ext),
            None => false,
        },
{
    let dotdot = "..";
    proof {
        reveal_strlit("..");
    }
    assert(dotdot@ =~= seq!['.', '.']);
    if str_is(name, dotdot) {
        return false;
    }
    let i = match find_last(name, '.') {
        Some(i) => i,
        None => return false,
    };
    if i == 0 {
        return false;
    }
    let n = name.unicode_len();
    proof {
        lemma_last_index_bounds(name@, '.');
    }
    let ext = name.substring_char(i + 1, n);
    let (md, markdown, mdown, mdx) = ("md", "markdown", "mdown", "mdx");
    proof {
        reveal_strlit("md");
        reveal_strlit("markdown");
        reveal_strlit("mdown");
        reveal_strlit("mdx");
        assert(md@ =~= seq!['m', 'd']);
        assert(markdown@ =~= seq!['m', 'a', 'r', 'k', 'd', 'o', 'w', 'n']);
        assert(mdown@ =~= seq!['m', 'd', 'o', 'w', 'n']);
        assert(mdx@ =~= seq!['m', 'd', 'x']);
    }
    str_is(ext, md) || str_is(ext, markdown) || str_is(ext, mdown) || str_is(ext, mdx)
}

/// Whether a path names a Markdown file (by the extension of its file name).
pub fn is_markdown_path(path: &DocPath) -> (r: bool)
    ensures
        r == is_markdown_parts(path@.parts),
{
    match path.file_name() {
        Some(name) => is_markdown_name(name.as_str()),
        None => false,
    }
}

// ── Workspace files ─────────────────────────────────────────────────────────

/// A Markdown file of a workspace.
#[derive(Debug, Clone)]
pub struct WorkspaceFile {
    /// The file's full path.
    pub path: DocPath,
    /// The file's path relative to the workspace folder.
    pub relative_path: Vec<PathPart>,
}

/// The mathematical value of a [`WorkspaceFile`].
pub struct WorkspaceFileView {
    pub path: PathView,
    pub relative_path: Seq<PartView>,
}

impl View for WorkspaceFile {
    type V = WorkspaceFileView;

    open spec fn view(&self) -> WorkspaceFileView {
        WorkspaceFileView { path: self.path@, relative_path: parts_view(self.relative_path@) }
    }
}

pub open spec fn files_view(files: Seq<WorkspaceFile>) -> Seq<WorkspaceFileView> {
    files.map_values(|f: WorkspaceFile| f@)
}

/// The text of one component when a path is displayed.
pub open spec fn part_text(p: PartView) -> Seq<char> {
    match p {
        PartView::Prefix(s) => s,
        PartView::Root => seq![],
        PartView::Current => seq!['.'],
        PartView::Parent => seq!['.', '.'],
        PartView::Normal(s) => s,
    }
}

/// The components of a path joined by a separator.
pub open spec fn joined(parts: Seq<PartView>, sep: char) -> Seq<char>
    decreases parts.len(),
{
    if parts.len() == 0 {
        seq![]
    } else if parts.len() == 1 {
        part_text(parts[0])
    } else {
        joined(parts.drop_last(), sep).push(sep) + part_text(parts.last())
    }
}

/// The platform's path separator (`std::path::MAIN_SEPARATOR`).
///
/// Trusted: std documents it as `/` on Unix-like systems and `\` on Windows.
#[verifier::external_body]
fn main_separator() -> (c: char)
    ensures
        c == '/' || c == '\\',
{
    std::path::MAIN_SEPARATOR
}

/// Appends the display text of a component.
fn push_part_text(s: &mut String, p: &PathPart)
    ensures
        final(s)@ == old(s)@ + part_text(p@),
{
    match p {
        PathPart::Prefix(t) => s.append(t.as_str()),
        PathPart::Root => {
            assert(old(s)@ + seq![] =~= old(s)@);
        },
        PathPart::Current => push_char(s, '.'),
        PathPart::Parent => {
            push_char(s, '.');
            push_char(s, '.');
            assert(old(s)@.push('.').push('.') =~= old(s)@ + seq!['.', '.']);
        },
        PathPart::Normal(t) => s.append(t.as_str()),
    }
}

impl WorkspaceFile {
    /// The relative path joined with the separator `sep`.
    pub fn label_with(&self, sep: char) -> (r: String)
        ensures
            r@ == joined(self@.relative_path, sep),
    {
        let parts = &self.relative_path;
        let mut r = String::new();
        let n = parts.len();
        let mut i: usize = 0;
        while i < n
            invariant
                n == parts.len(),
                i <= n,
                r@ == joined(parts_view(parts@).take(i as int), sep),
            decreases n - i,
        {
            let ghost before = r@;
            if i > 0 {
                push_char(&mut r, sep);
            }
            push_part_text(&mut r, &parts[i as usize]);
            proof {
                let t = parts_view(parts@).take(i + 1);
                assert(t.drop_last() =~= parts_view(parts@).take(i as int));
                if i == 0 {
                    assert(before =~= seq![]);
                    assert(r@ =~= part_text(t[0]));
                }
            }
            i = i + 1;
        }
        assert(parts_view(parts@).take(n as int) =~= parts_view(parts@));
        r
    }

    /// The relative path as the platform displays it.
    pub fn label(&self) -> (r: String)
        ensures
            r@ == joined(self@.relative_path, '/') || r@ == joined(self@.relative_path, '\\'),
    {
        self.label_with(main_separator())
    }
}

// ── Ordering by relative path ───────────────────────────────────────────────

/// The rank of a component kind in `std::path::Component`'s order.
pub open spec fn part_rank(p: PartView) -> int {
    match p {
        PartView::Prefix(_) => 0,
        PartView::Root => 1,
        PartView::Current => 2,
        PartView::Parent => 3,
        PartView::Normal(_) => 4,
    }
}

/// Lexicographic order of texts by code point (the byte order of their UTF-8).
pub open spec fn text_lt(a: Seq<char>, b: Seq<char>) -> bool
    decreases a.len(),
{
    if a.len() == 0 {
        b.len() > 0
    } else if b.len() == 0 {
        false
    } else if a[0] != b[0] {
        (a[0] as u32) < (b[0] as u32)
    } else {
        text_lt(a.drop_first(), b.drop_first())
    }
}

/// The order of two components.
pub open spec fn part_lt(a: PartView, b: PartView) -> bool {
    if part_rank(a) != part_rank(b) {
        part_rank(a) < part_rank(b)
    } else {
        match (a, b) {
            (PartView::Prefix(x), PartView::Prefix(y)) => text_lt(x, y),
            (PartView::Normal(x), PartView::Normal(y)) => text_lt(x, y),
            _ => false,
        }
    }
}

/// Lexicographic order of paths by component.
pub open spec fn path_lt(a: Seq<PartView>, b: Seq<PartView>) -> bool
    decreases a.len(),
{
    if a.len() == 0 {
        b.len() > 0
    } else if b.len() == 0 {
        false
    } else if a[0] != b[0] {
        part_lt(a[0], b[0])
    } else {
        path_lt(a.drop_first(), b.drop_first())
    }
}

/// Whether text `a` orders before text `b`.
fn text_less(a: &str, b: &str) -> (r: bool)
    ensures
        r == text_lt(a@, b@),
{
    let na = a.unicode_len();
    let nb = b.unicode_len();
    let mut i: usize = 0;
    assert(a@.skip(0) =~= a@ && b@.skip(0) =~= b@);
    while i < na && i < nb && a.get_char(i) == b.get_char(i)
        invariant
            na == a@.len(),
            nb == b@.len(),
            i <= na,
            i <= nb,
            text_lt(a@, b@) == text_lt(a@.skip(i as int), b@.skip(i as int)),
        decreases na - i,
    {
        proof {
            assert(a@.skip(i as int).drop_first() =~= a@.skip(i + 1));
            assert(b@.skip(i as int).drop_first() =~= b@.skip(i + 1));
        }
        i = i + 1;
    }
    if i == na {
        i < nb
    } else if i == nb {
        false
    } else {
        (a.get_char(i) as u32) < (b.get_char(i) as u32)
    }
}

/// Whether component `a` orders before component `b`.
fn part_less(a: &PathPart, b: &PathPart) -> (r: bool)
    ensures
        r == part_lt(a@, b@),
{
    match (a, b) {
        (PathPart::Prefix(x), PathPart::Prefix(y)) => text_less(x.as_str(), y.as_str()),
        (PathPart::Normal(x), PathPart::Normal(y)) => text_less(x.as_str(), y.as_str()),
        _ => rank(a) < rank(b),
    }
}

fn rank(p: &PathPart) -> (r: u8)
    ensures
        r == part_rank(p@),
{
    match p {
        PathPart::Prefix(_) => 0,
        PathPart::Root => 1,
        PathPart::Current => 2,
        PathPart::Parent => 3,
        PathPart::Normal(_) => 4,
    }
}

/// Whether path `a` orders before path `b`.
pub fn path_less(a: &Vec<PathPart>, b: &Vec<PathPart>) -> (r: bool)
    ensures
        r == path_lt(parts_view(a@), parts_view(b@)),
{
    let na = a.len();
    let nb = b.len();
    let mut i: usize = 0;
    assert(parts_view(a@).skip(0) =~= parts_view(a@) && parts_view(b@).skip(0) =~= parts_view(b@));
    while i < na && i < nb && crate::paths::part_eq(&a[i], &b[i])
        invariant
            na == a.len(),
            nb == b.len(),
            i <= na,
            i <= nb,
            path_lt(parts_view(a@), parts_view(b@))
                == path_lt(parts_view(a@).skip(i as int), parts_view(b@).skip(i as int)),
        decreases na - i,
    {
        proof {
            assert(parts_view(a@).skip(i as int).drop_first() =~= parts_view(a@).skip(i + 1));
            assert(parts_view(b@).skip(i as int).drop_first() =~= parts_view(b@).skip(i + 1));
        }
        i = i + 1;
    }
    if i == na {
        i < nb
    } else if i == nb {
        false
    } else {
        part_less(&a[i], &b[i])
    }
}

// ── Collecting the workspace ────────────────────────────────────────────────

/// A path relative to `root`: what follows root's components, or, where the
/// path does not lie under root, the whole path.
pub open spec fn relative_to(path: Seq<PartView>, root: Seq<PartView>) -> Seq<PartView> {
    if parts_start_with(path, root) {
        path.subrange(root.len() as int, path.len() as int)
    } else {
        path
    }
}

/// The workspace entry for a file.
pub open spec fn file_entry(root: PathView, path: PathView) -> WorkspaceFileView {
    WorkspaceFileView { path, relative_path: relative_to(path.parts, root.parts) }
}

/// The entries of the Markdown files among `found`, in the order found.
pub open spec fn markdown_entries(root: PathView, found: Seq<PathView>) -> Seq<WorkspaceFileView>
    decreases found.len(),
{
    if found.len() == 0 {
        seq![]
    } else {
        let prev = markdown_entries(root, found.drop_last());
        if is_markdown_parts(found.last().parts) {
            prev.push(file_entry(root, found.last()))
        } else {
            prev
        }
    }
}

/// Where `x` goes in `s`: after the last entry whose relative path does not
/// order after that of `x`.
pub open spec fn insert_index(s: Seq<WorkspaceFileView>, x: WorkspaceFileView) -> int
    decreases s.len(),
{
    if s.len() == 0 {
        0
    } else if path_lt(x.relative_path, s.last().relative_path) {
        insert_index(s.drop_last(), x)
    } else {
        s.len() as int
    }
}

/// `s` stably sorted by relative path (insertion of each entry in turn).
pub open spec fn sorted_entries(s: Seq<WorkspaceFileView>) -> Seq<WorkspaceFileView>
    decreases s.len(),
{
    if s.len() == 0 {
        seq![]
    } else {
        let prev = sorted_entries(s.drop_last());
        prev.insert(insert_index(prev, s.last()), s.last())
    }
}

/// The workspace listing: the Markdown files among `found`, sorted by their
/// path relative to `root`.
pub open spec fn workspace_listing(root: PathView, found: Seq<PathView>) -> Seq<WorkspaceFileView> {
    sorted_entries(markdown_entries(root, found))
}

proof fn lemma_insert_index_bounds(s: Seq<WorkspaceFileView>, x: WorkspaceFileView)
    ensures
        0 <= insert_index(s, x) <= s.len(),
    decreases s.len(),
{
    if s.len() > 0 && path_lt(x.relative_path, s.last().relative_path) {
        lemma_insert_index_bounds(s.drop_last(), x);
    }
}

fn clone_part(p: &PathPart) -> (q: PathPart)
    ensures
        q@ == p@,
{
    match p {
        PathPart::Prefix(s) => PathPart::Prefix(s.clone()),
        PathPart::Root => PathPart::Root,
        PathPart::Current => PathPart::Current,
        PathPart::Parent => PathPart::Parent,
        PathPart::Normal(s) => PathPart::Normal(s.clone()),
    }
}

/// The components `parts[from..]`.
fn parts_from(parts: &Vec<PathPart>, from: usize) -> (r: Vec<PathPart>)
    requires
        from <= parts.len(),
    ensures
        parts_view(r@) == parts_view(parts@).subrange(from as int, parts.len() as int),
{
    let mut r = Vec::new();
    let n = parts.len();
    let mut i = from;
    while i < n
        invariant
            from <= i <= n,
            n == parts.len(),
            parts_view(r@) == parts_view(parts@).subrange(from as int, i as int),
        decreases n - i,
    {
        let q = clone_part(&parts[i]);
        let ghost before = r@;
        r.push(q);
        assert(parts_view(r@) =~= parts_view(before).push(q@));
        assert(parts_view(parts@).subrange(from as int, i + 1) =~= parts_view(parts@).subrange(
            from as int,
            i as int,
        ).push(q@));
        i = i + 1;
    }
    r
}

/// A copy of a path.
pub fn clone_path(p: &DocPath) -> (q: DocPath)
    ensures
        q@ == p@,
{
    let parts = parts_from(&p.parts, 0);
    assert(parts_view(p.parts@).subrange(0, p.parts@.len() as int) =~= parts_view(p.parts@));
    DocPath { display: p.display.clone(), parts }
}

/// The workspace entry for a file under `root`.
fn make_entry(root: &DocPath, path: &DocPath) -> (f: WorkspaceFile)
    ensures
        f@ == file_entry(root@, path@),
{
    let relative_path = if path.starts_with(root) {
        parts_from(&path.parts, root.parts.len())
    } else {
        parts_from(&path.parts, 0)
    };
    assert(parts_view(path.parts@).subrange(0, path.parts@.len() as int) =~= parts_view(path.parts@));
    WorkspaceFile { path: clone_path(path), relative_path }
}

/// Inserts `x` into `files` after the last entry that does not order after it.
fn insert_entry(files: &mut Vec<WorkspaceFile>, x: WorkspaceFile)
    ensures
        files_view(final(files)@) == files_view(old(files)@).insert(
            insert_index(files_view(old(files)@), x@),
            x@,
        ),
{
    let ghost s = files_view(files@);
    let mut i = files.len();
    assert(s.take(i as int) =~= s);
    while i > 0 && path_less(&x.relative_path, &files[i - 1].relative_path)
        invariant
            i <= files.len(),
            files@ == old(files)@,
            s == files_view(files@),
            insert_index(s, x@) == insert_index(s.take(i as int), x@),
        decreases i,
    {
        assert(s.take(i as int).drop_last() =~= s.take(i - 1));
        i = i - 1;
    }
    proof {
        lemma_insert_index_bounds(s.take(i as int), x@);
    }
    files.insert(i, x);
    assert(files_view(files@) =~= s.insert(i as int, x@));
}

/// The Markdown files among the regular files `found` under the folder
/// `root`, each with its path relative to `root`, sorted by relative path.
pub fn collect_markdown_files(root: &DocPath, found: &Vec<DocPath>) -> (files: Vec<WorkspaceFile>)
    ensures
        files_view(files@) == workspace_listing(root@, found@.map_values(|p: DocPath| p@)),
        sorted_by_relative(files_view(files@)),
        distinct_relative_paths(root@, found@.map_values(|p: DocPath| p@)) ==> strictly_ascending(
            files_view(files@),
        ),
{
    let ghost found_v = found@.map_values(|p: DocPath| p@);
    let mut files: Vec<WorkspaceFile> = Vec::new();
    let n = found.len();
    let mut i: usize = 0;
    assert(files_view(files@) =~= seq![]);
    while i < n
        invariant
            n == found.len(),
            i <= n,
            found_v == found@.map_values(|p: DocPath| p@),
            files_view(files@) == sorted_entries(markdown_entries(root@, found_v.take(i as int))),
        decreases n - i,
    {
        let ghost pre = found_v.take(i as int);
        assert(found_v.take(i + 1).drop_last() =~= pre);
        if is_markdown_path(&found[i]) {
            let entry = make_entry(root, &found[i]);
            insert_entry(&mut files, entry);
            assert(markdown_entries(root@, found_v.take(i + 1)) == markdown_entries(root@, pre).push(entry@));
            assert(markdown_entries(root@, found_v.take(i + 1)).drop_last() =~= markdown_entries(root@, pre));
        }
        i = i + 1;
    }
    assert(found_v.take(n as int) =~= found_v);
    proof {
        lemma_workspace_listing(root@, found_v);
        if distinct_relative_paths(root@, found_v) {
            lemma_listing_strictly_ascending(root@, found_v);
        }
    }
    files
}

// ── Laws of the listing ─────────────────────────────────────────────────────

proof fn lemma_text_lt_irreflexive(a: Seq<char>)
    ensures
        !text_lt(a, a),
    decreases a.len(),
{
    if a.len() > 0 {
        lemma_text_lt_irreflexive(a.drop_first());
    }
}

proof fn lemma_text_lt_transitive(a: Seq<char>, b: Seq<char>, c: Seq<char>)
    requires
        text_lt(a, b),
        text_lt(b, c),
    ensures
        text_lt(a, c),
    decreases a.len(),
{
    if a.len() > 0 && b.len() > 0 && c.len() > 0 && a[0] == b[0] && b[0] == c[0] {
        lemma_text_lt_transitive(a.drop_first(), b.drop_first(), c.drop_first());
    }
}

proof fn lemma_text_lt_total(a: Seq<char>, b: Seq<char>)
    ensures
        a == b || text_lt(a, b) || text_lt(b, a),
    decreases a.len(),
{
    if a.len() > 0 && b.len() > 0 {
        if a[0] == b[0] {
            lemma_text_lt_total(a.drop_first(), b.drop_first());
            if a.drop_first() == b.drop_first() {
                assert(a =~= seq![a[0]] + a.drop_first());
                assert(b =~= seq![b[0]] + b.drop_first());
            }
        } else {
            vstd::utf8::char_u32_cast(a[0], a[0] as u32);
            vstd::utf8::char_u32_cast(b[0], b[0] as u32);
        }
    } else if a.len() == 0 && b.len() == 0 {
        assert(a =~= b);
    }
}

proof fn lemma_part_lt_order(a: PartView, b: PartView, c: PartView)
    ensures
        !part_lt(a, a),
        part_lt(a, b) && part_lt(b, c) ==> part_lt(a, c),
        a == b || part_lt(a, b) || part_lt(b, a),
{
    match a {
        PartView::Prefix(x) => lemma_text_lt_irreflexive(x),
        PartView::Normal(x) => lemma_text_lt_irreflexive(x),
        _ => {},
    }
    match (a, b, c) {
        (PartView::Prefix(x), PartView::Prefix(y), PartView::Prefix(z)) => {
            if text_lt(x, y) && text_lt(y, z) {
                lemma_text_lt_transitive(x, y, z);
            }
        },
        (PartView::Normal(x), PartView::Normal(y), PartView::Normal(z)) => {
            if text_lt(x, y) && text_lt(y, z) {
                lemma_text_lt_transitive(x, y, z);
            }
        },
        _ => {},
    }
    match (a, b) {
        (PartView::Prefix(x), PartView::Prefix(y)) => lemma_text_lt_total(x, y),
        (PartView::Normal(x), PartView::Normal(y)) => lemma_text_lt_total(x, y),
        _ => {},
    }
}

proof fn lemma_path_lt_irreflexive(a: Seq<PartView>)
    ensures
        !path_lt(a, a),
    decreases a.len(),
{
    if a.len() > 0 {
        lemma_path_lt_irreflexive(a.drop_first());
    }
}

proof fn lemma_path_lt_transitive(a: Seq<PartView>, b: Seq<PartView>, c: Seq<PartView>)
    requires
        path_lt(a, b),
        path_lt(b, c),
    ensures
        path_lt(a, c),
    decreases a.len(),
{
    if a.len() > 0 && b.len() > 0 && c.len() > 0 {
        lemma_part_lt_order(a[0], b[0], c[0]);
        lemma_part_lt_order(a[0], c[0], b[0]);
        lemma_part_lt_order(b[0], a[0], c[0]);
        lemma_part_lt_order(c[0], a[0], b[0]);
        lemma_part_lt_order(b[0], c[0], a[0]);
        lemma_part_lt_order(c[0], b[0], a[0]);
        if a[0] == b[0] && b[0] == c[0] {
            lemma_path_lt_transitive(a.drop_first(), b.drop_first(), c.drop_first());
        }
    }
}

proof fn lemma_path_lt_total(a: Seq<PartView>, b: Seq<PartView>)
    ensures
        a == b || path_lt(a, b) || path_lt(b, a),
    decreases a.len(),
{
    if a.len() > 0 && b.len() > 0 {
        lemma_part_lt_order(a[0], b[0], b[0]);
        if a[0] == b[0] {
            lemma_path_lt_total(a.drop_first(), b.drop_first());
            if a.drop_first() == b.drop_first() {
                assert(a =~= seq![a[0]] + a.drop_first());
                assert(b =~= seq![b[0]] + b.drop_first());
            }
        }
    } else if a.len() == 0 && b.len() == 0 {
        assert(a =~= b);
    }
}

/// No entry orders after a later one: the entries are in ascending order of
/// relative path.
pub open spec fn sorted_by_relative(s: Seq<WorkspaceFileView>) -> bool {
    forall|i: int, j: int|
        0 <= i < j < s.len() ==> !path_lt(#[trigger] s[j].relative_path, #[trigger] s[i].relative_path)
}

proof fn lemma_insert_index_sides(s: Seq<WorkspaceFileView>, x: WorkspaceFileView)
    requires
        sorted_by_relative(s),
    ensures
        forall|i: int| insert_index(s, x) <= i < s.len() ==> path_lt(x.relative_path, #[trigger] s[i].relative_path),
        forall|i: int| 0 <= i < insert_index(s, x) ==> !path_lt(x.relative_path, #[trigger] s[i].relative_path),
    decreases s.len(),
{
    lemma_insert_index_bounds(s, x);
    if s.len() > 0 {
        if path_lt(x.relative_path, s.last().relative_path) {
            let t = s.drop_last();
            assert(sorted_by_relative(t)) by {
                assert forall|i: int, j: int| 0 <= i < j < t.len() implies !path_lt(
                    #[trigger] t[j].relative_path,
                    #[trigger] t[i].relative_path,
                ) by {
                    assert(t[i] == s[i] && t[j] == s[j]);
                }
            }
            lemma_insert_index_sides(t, x);
            lemma_insert_index_bounds(t, x);
            assert forall|i: int| insert_index(s, x) <= i < s.len() implies path_lt(
                x.relative_path,
                #[trigger] s[i].relative_path,
            ) by {
                if i < t.len() {
                    assert(t[i] == s[i]);
                }
            }
            assert forall|i: int| 0 <= i < insert_index(s, x) implies !path_lt(
                x.relative_path,
                #[trigger] s[i].relative_path,
            ) by {
                assert(t[i] == s[i]);
            }
        } else {
            let k = s.len() - 1;
            assert forall|i: int| 0 <= i < insert_index(s, x) implies !path_lt(
                x.relative_path,
                #[trigger] s[i].relative_path,
            ) by {
                if i < k {
                    assert(!path_lt(s[k].relative_path, s[i].relative_path));
                    lemma_path_lt_total(s[k].relative_path, s[i].relative_path);
                    if path_lt(x.relative_path, s[i].relative_path) {
                        if s[i].relative_path == s[k].relative_path {
                        } else {
                            lemma_path_lt_transitive(x.relative_path, s[i].relative_path, s[k].relative_path);
                        }
                    }
                }
            }
        }
    }
}

proof fn lemma_sorted_entries(s: Seq<WorkspaceFileView>)
    ensures
        sorted_by_relative(sorted_entries(s)),
        sorted_entries(s).to_multiset() == s.to_multiset(),
    decreases s.len(),
{
    broadcast use vstd::seq_lib::to_multiset_insert, vstd::seq_lib::to_multiset_build;

    if s.len() == 0 {
        assert(sorted_entries(s) =~= s);
    } else {
        let prev = sorted_entries(s.drop_last());
        let x = s.last();
        lemma_sorted_entries(s.drop_last());
        lemma_insert_index_bounds(prev, x);
        lemma_insert_index_sides(prev, x);
        let k = insert_index(prev, x);
        let r = prev.insert(k, x);
        assert forall|i: int, j: int| 0 <= i < j < r.len() implies !path_lt(
            #[trigger] r[j].relative_path,
            #[trigger] r[i].relative_path,
        ) by {
            if j < k {
                assert(r[i] == prev[i] && r[j] == prev[j]);
            } else if j == k {
                assert(r[i] == prev[i]);
                lemma_path_lt_total(x.relative_path, prev[i].relative_path);
                if path_lt(x.relative_path, prev[i].relative_path) {
                } else if x.relative_path == prev[i].relative_path {
                    lemma_path_lt_irreflexive(x.relative_path);
                }
            } else if i == k {
                assert(r[j] == prev[j - 1]);
                if path_lt(prev[j - 1].relative_path, x.relative_path) {
                    lemma_path_lt_transitive(x.relative_path, prev[j - 1].relative_path, x.relative_path);
                    lemma_path_lt_irreflexive(x.relative_path);
                }
            } else if i < k {
                assert(r[i] == prev[i] && r[j] == prev[j - 1]);
            } else {
                assert(r[i] == prev[i - 1] && r[j] == prev[j - 1]);
            }
        }
        assert(s =~= s.drop_last().push(x));
    }
}

proof fn lemma_markdown_entries_members(root: PathView, found: Seq<PathView>)
    ensures
        forall|e: WorkspaceFileView| #[trigger] markdown_entries(root, found).contains(e) ==> {
            &&& found.contains(e.path)
            &&& is_markdown_parts(e.path.parts)
            &&& e == file_entry(root, e.path)
        },
        forall|i: int| 0 <= i < found.len() && is_markdown_parts(found[i].parts)
            ==> #[trigger] markdown_entries(root, found).contains(file_entry(root, found[i])),
    decreases found.len(),
{
    if found.len() > 0 {
        let t = found.drop_last();
        lemma_markdown_entries_members(root, t);
        let m = markdown_entries(root, found);
        let mt = markdown_entries(root, t);
        assert forall|e: WorkspaceFileView| #[trigger] m.contains(e) implies {
            &&& found.contains(e.path)
            &&& is_markdown_parts(e.path.parts)
            &&& e == file_entry(root, e.path)
        } by {
            if mt.contains(e) {
                let j = choose|j: int| 0 <= j < t.len() && t[j] == e.path;
                assert(found[j] == e.path);
            } else {
                if is_markdown_parts(found.last().parts) {
                    let q = choose|q: int| 0 <= q < m.len() && m[q] == e;
                    if q < mt.len() {
                        assert(mt[q] == e);
                    }
                    assert(found[found.len() - 1] == e.path);
                }
            }
        }
        assert forall|i: int| 0 <= i < found.len() && is_markdown_parts(found[i].parts) implies #[trigger] m.contains(
            file_entry(root, found[i]),
        ) by {
            if i < t.len() {
                assert(t[i] == found[i]);
                assert(mt.contains(file_entry(root, t[i])));
                let j = choose|j: int| 0 <= j < mt.len() && mt[j] == file_entry(root, t[i]);
                if is_markdown_parts(found.last().parts) {
                    assert(m == mt.push(file_entry(root, found.last())));
                    assert(m[j] == mt[j]);
                } else {
                    assert(m == mt);
                }
            } else {
                assert(m[m.len() - 1] == file_entry(root, found[i]));
            }
        }
    }
}

/// The workspace listing is ordered by relative path; it holds each Markdown
/// file found (as often as it was found) and nothing else; and each entry's
/// relative path is its path with the folder's components removed.
pub proof fn lemma_workspace_listing(root: PathView, found: Seq<PathView>)
    ensures
        sorted_by_relative(workspace_listing(root, found)),
        workspace_listing(root, found).to_multiset() == markdown_entries(root, found).to_multiset(),
        forall|e: WorkspaceFileView| #[trigger] workspace_listing(root, found).contains(e) ==> {
            &&& found.contains(e.path)
            &&& is_markdown_parts(e.path.parts)
            &&& e.relative_path == relative_to(e.path.parts, root.parts)
        },
        forall|i: int| 0 <= i < found.len() && is_markdown_parts(found[i].parts)
            ==> #[trigger] workspace_listing(root, found).contains(file_entry(root, found[i])),
{
    broadcast use vstd::seq_lib::to_multiset_contains;

    lemma_sorted_entries(markdown_entries(root, found));
    lemma_markdown_entries_members(root, found);
    let l = workspace_listing(root, found);
    let m = markdown_entries(root, found);
    assert forall|e: WorkspaceFileView| #[trigger] l.contains(e) implies m.contains(e) by {
        assert(l.to_multiset().contains(e));
    }
    assert forall|i: int| 0 <= i < found.len() && is_markdown_parts(found[i].parts) implies #[trigger] l.contains(
        file_entry(root, found[i]),
    ) by {
        assert(m.contains(file_entry(root, found[i])));
        assert(m.to_multiset().contains(file_entry(root, found[i])));
    }
}

/// Each entry's relative path orders strictly before that of every later
/// entry: ascending, with no relative path twice.
pub open spec fn strictly_ascending(s: Seq<WorkspaceFileView>) -> bool {
    forall|i: int, j: int|
        0 <= i < j < s.len() ==> path_lt(#[trigger] s[i].relative_path, #[trigger] s[j].relative_path)
}

/// No two entries share a relative path.
pub open spec fn distinct_relative(s: Seq<WorkspaceFileView>) -> bool {
    forall|i: int, j: int|
        0 <= i < j < s.len() ==> #[trigger] s[i].relative_path != #[trigger] s[j].relative_path
}

/// No two Markdown files among `found` have the same path relative to
/// `root`, as is the case for the files of a folder walk.
pub open spec fn distinct_relative_paths(root: PathView, found: Seq<PathView>) -> bool {
    forall|i: int, j: int|
        0 <= i < j < found.len() && is_markdown_parts(found[i].parts) && is_markdown_parts(found[j].parts)
            ==> relative_to(#[trigger] found[i].parts, root.parts) != relative_to(
            #[trigger] found[j].parts,
            root.parts,
        )
}

proof fn lemma_markdown_entries_distinct(root: PathView, found: Seq<PathView>)
    requires
        distinct_relative_paths(root, found),
    ensures
        distinct_relative(markdown_entries(root, found)),
    decreases found.len(),
{
    if found.len() > 0 {
        let t = found.drop_last();
        assert(distinct_relative_paths(root, t)) by {
            assert forall|i: int, j: int|
                0 <= i < j < t.len() && is_markdown_parts(t[i].parts) && is_markdown_parts(t[j].parts)
                    implies relative_to(#[trigger] t[i].parts, root.parts) != relative_to(
                    #[trigger] t[j].parts,
                    root.parts,
                ) by {
                assert(t[i] == found[i] && t[j] == found[j]);
            }
        }
        lemma_markdown_entries_distinct(root, t);
        lemma_markdown_entries_members(root, t);
        let mt = markdown_entries(root, t);
        let last = found.last();
        if is_markdown_parts(last.parts) {
            let m = mt.push(file_entry(root, last));
            assert forall|i: int, j: int| 0 <= i < j < m.len() implies #[trigger] m[i].relative_path
                != #[trigger] m[j].relative_path by {
                if j < mt.len() {
                    assert(m[i] == mt[i] && m[j] == mt[j]);
                } else {
                    assert(m[i] == mt[i]);
                    assert(mt.contains(mt[i]));
                    let k = choose|k: int| 0 <= k < t.len() && t[k] == mt[i].path;
                    assert(found[k] == t[k]);
                    assert(found[found.len() - 1] == last);
                }
            }
        }
    }
}

proof fn lemma_sorted_strict(s: Seq<WorkspaceFileView>)
    requires
        distinct_relative(s),
    ensures
        strictly_ascending(sorted_entries(s)),
    decreases s.len(),
{
    broadcast use vstd::seq_lib::to_multiset_contains;

    if s.len() > 0 {
        let t = s.drop_last();
        let x = s.last();
        assert(distinct_relative(t)) by {
            assert forall|i: int, j: int| 0 <= i < j < t.len() implies #[trigger] t[i].relative_path
                != #[trigger] t[j].relative_path by {
                assert(t[i] == s[i] && t[j] == s[j]);
            }
        }
        lemma_sorted_strict(t);
        lemma_sorted_entries(t);
        let prev = sorted_entries(t);
        lemma_insert_index_bounds(prev, x);
        lemma_insert_index_sides(prev, x);
        let k = insert_index(prev, x);
        let r = prev.insert(k, x);
        assert forall|i: int| 0 <= i < prev.len() implies #[trigger] prev[i].relative_path
            != x.relative_path by {
            assert(prev.contains(prev[i]));
            assert(prev.to_multiset().contains(prev[i]));
            assert(t.contains(prev[i]));
            let q = choose|q: int| 0 <= q < t.len() && t[q] == prev[i];
            assert(s[q] == t[q]);
            assert(s[s.len() - 1] == x);
        }
        assert forall|i: int, j: int| 0 <= i < j < r.len() implies path_lt(
            #[trigger] r[i].relative_path,
            #[trigger] r[j].relative_path,
        ) by {
            if j < k {
                assert(r[i] == prev[i] && r[j] == prev[j]);
            } else if j == k {
                assert(r[i] == prev[i]);
                assert(prev[i].relative_path != x.relative_path);
                lemma_path_lt_total(x.relative_path, prev[i].relative_path);
            } else if i == k {
                assert(r[j] == prev[j - 1]);
            } else if i < k {
                assert(r[i] == prev[i] && r[j] == prev[j - 1]);
                assert(path_lt(prev[i].relative_path, x.relative_path)) by {
                    assert(prev[i].relative_path != x.relative_path);
                    lemma_path_lt_total(x.relative_path, prev[i].relative_path);
                }
                lemma_path_lt_transitive(prev[i].relative_path, x.relative_path, prev[j - 1].relative_path);
            } else {
                assert(r[i] == prev[i - 1] && r[j] == prev[j - 1]);
            }
        }
    }
}

/// Where no two Markdown files found have the same relative path (as in a
/// folder walk), the listing comes in strictly ascending order of relative
/// path, with no relative path twice.
pub proof fn lemma_listing_strictly_ascending(root: PathView, found: Seq<PathView>)
    requires
        distinct_relative_paths(root, found),
    ensures
        strictly_ascending(workspace_listing(root, found)),
{
    lemma_markdown_entries_distinct(root, found);
    lemma_sorted_strict(markdown_entries(root, found));
}

} // verus!
