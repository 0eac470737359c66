//! File-system paths as plain values: the text a path is shown as, and its
//! components, in the order and with the kinds that `std::path` gives them.

use vstd::prelude::*;

verus! {

/// One component of a path.
#[derive(Debug, Clone)]
pub enum PathPart {
    /// A Windows path prefix such as `C:`.
    Prefix(String),
    /// The root directory.
    Root,
    /// `.`
    Current,
    /// `..`
    Parent,
    /// A file or directory name.
    Normal(String),
}

/// The mathematical value of a [`PathPart`].
pub enum PartView {
    Prefix(Seq<char>),
    Root,
    Current,
    Parent,
    Normal(Seq<char>),
}

impl View for PathPart {
    type V = PartView;

    open spec fn view(&self) -> PartView {
        match self {
            PathPart::Prefix(s) => PartView::Prefix(s@),
            PathPart::Root => PartView::Root,
            PathPart::Current => PartView::Current,
            PathPart::Parent => PartView::Parent,
            PathPart::Normal(s) => PartView::Normal(s@),
        }
    }
}

pub open spec fn parts_view(parts: Seq<PathPart>) -> Seq<PartView> {
    parts.map_values(|p: PathPart| p@)
}

/// A path: how it is displayed, and its components.
#[derive(Debug, Clone)]
pub struct DocPath {
    pub display: String,
    pub parts: Vec<PathPart>,
}

/// The mathematical value of a [`DocPath`].
pub struct PathView {
    pub display: Seq<char>,
    pub parts: Seq<PartView>,
}

impl View for DocPath {
    type V = PathView;

    open spec fn view(&self) -> PathView {
        PathView { display: self.display@, parts: parts_view(self.parts@) }
    }
}

/// The file name of a path: its last component, if that is a name.
pub open spec fn file_name_of(parts: Seq<PartView>) -> Option<Seq<char>> {
    if parts.len() > 0 {
        match parts.last() {
            PartView::Normal(s) => Some(s),
            _ => None,
        }
    } else {
        None
    }
}

/// Whether `base` is a component-wise prefix of `parts`.
pub open spec fn parts_start_with(parts: Seq<PartView>, base: Seq<PartView>) -> bool {
    base.len() <= parts.len() && parts.subrange(0, base.len() as int) == base
}

/// Whether two components are equal.
pub fn part_eq(a: &PathPart, b: &PathPart) -> (r: bool)
    ensures
        r == (a@ == b@),
{
    match (a, b) {
        (PathPart::Prefix(x), PathPart::Prefix(y)) => *x == *y,
        (PathPart::Root, PathPart::Root) => true,
        (PathPart::Current, PathPart::Current) => true,
        (PathPart::Parent, PathPart::Parent) => true,
        (PathPart::Normal(x), PathPart::Normal(y)) => *x == *y,
        _ => false,
    }
}

/// Whether `base` is a component-wise prefix of `parts`.
pub fn parts_starts_with(parts: &Vec<PathPart>, base: &Vec<PathPart>) -> (r: bool)
    ensures
        r == parts_start_with(parts_view(parts@), parts_view(base@)),
{
    let n = base.len();
    if n > parts.len() {
        return false;
    }
    let mut i: usize = 0;
    while i < n
        invariant
            n == base.len(),
            n <= parts.len(),
            i <= n,
            forall|j: int| 0 <= j < i ==> parts_view(parts@)[j] == parts_view(base@)[j],
        decreases n - i,
    {
        if !part_eq(&parts[i], &base[i]) {
            assert(parts_view(parts@).subrange(0, n as int)[i as int] != parts_view(base@)[i as int]);
            return false;
        }
        i = i + 1;
    }
    assert(parts_view(parts@).subrange(0, n as int) =~= parts_view(base@));
    true
}

impl DocPath {
    /// The file name of the path, if its last component is a name.
    pub fn file_name(&self) -> (r: Option<String>)
        ensures
            match r {
                Some(s) => file_name_of(self@.parts) == Some(s@),
                None => file_name_of(self@.parts) is None,
            },
    {
        let n = self.parts.len();
        if n == 0 {
            return None;
        }
        match &self.parts[n - 1] {
            PathPart::Normal(s) => Some(s.clone()),
            _ => None,
        }
    }

    /// Whether `base` is a component-wise prefix of this path.
    pub fn starts_with(&self, base: &DocPath) -> (r: bool)
        ensures
            r == parts_start_with(self@.parts, base@.parts),
    {
        parts_starts_with(&self.parts, &base.parts)
    }

    /// Whether two paths have the same components.
    pub fn same_path(&self, other: &DocPath) -> (r: bool)
        ensures
            r == (self@.parts == other@.parts),
    {
        let r = self.parts.len() == other.parts.len() && parts_starts_with(&self.parts, &other.parts);
        proof {
            assert(parts_view(self.parts@).subrange(0, parts_view(self.parts@).len() as int)
                =~= parts_view(self.parts@));
        }
        r
    }
}

} // verus!
