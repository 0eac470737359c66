//! The application's icons and the embedded asset files they come from.

use vstd::prelude::*;
use vstd::string::*;

verus! {

/// The icons the interface uses.
#[derive(Debug, Clone, Copy, PartialEq, Eq, Structural)]
pub enum AppIcon {
    Back,
    Edit,
    File,
    Folder,
    Menu,
    Preview,
    Settings,
}

/// The asset path of an icon.
pub open spec fn icon_path(icon: AppIcon) -> Seq<char> {
    match icon {
        AppIcon::Back => "icons/back.svg"@,
        AppIcon::Edit => "icons/edit.svg"@,
        AppIcon::File => "icons/file.svg"@,
        AppIcon::Folder => "icons/folder.svg"@,
        AppIcon::Menu => "icons/menu.svg"@,
        AppIcon::Preview => "icons/preview.svg"@,
        AppIcon::Settings => "icons/settings.svg"@,
    }
}

impl AppIcon {
    /// The asset path of the icon.
    pub fn path(self) -> (r: &'static str)
        ensures
            r@ == icon_path(self),
    {
        match self {
            AppIcon::Back => "icons/back.svg",
            AppIcon::Edit => "icons/edit.svg",
            AppIcon::File => "icons/file.svg",
            AppIcon::Folder => "icons/folder.svg",
            AppIcon::Menu => "icons/menu.svg",
            AppIcon::Preview => "icons/preview.svg",
            AppIcon::Settings => "icons/settings.svg",
        }
    }
}

/// The embedded asset files (the SVG icons under `icons/`).
pub struct AppAssets;

/// The names among `names` that start with `prefix`, in order.
pub open spec fn names_with_prefix(names: Seq<Seq<char>>, prefix: Seq<char>) -> Seq<Seq<char>>
    decreases names.len(),
{
    if names.len() == 0 {
        seq![]
    } else {
        let prev = names_with_prefix(names.drop_last(), prefix);
        if prefix.is_prefix_of(names.last()) {
            prev.push(names.last())
        } else {
            prev
        }
    }
}

/// Whether `s` starts with `prefix`.
fn has_prefix(s: &str, prefix: &str) -> (r: bool)
    ensures
        r == prefix@.is_prefix_of(s@),
{
    let n = prefix.unicode_len();
    if n > s.unicode_len() {
        return false;
    }
    let mut i: usize = 0;
    while i < n
        invariant
            n == prefix@.len(),
            n <= s@.len(),
            i <= n,
            forall|j: int| 0 <= j < i ==> prefix@[j] == s@[j],
        decreases n - i,
    {
        if prefix.get_char(i) != s.get_char(i) {
            return false;
        }
        i = i + 1;
    }
    assert(prefix@ =~= s@.subrange(0, n as int));
    true
}

impl AppAssets {
    /// Whether an asset path names something to look up (it is not empty).
    pub fn loads(&self, path: &str) -> (r: bool)
        ensures
            r == (path@.len() > 0),
    {
        !path.is_empty()
    }

    /// The asset names among `names` that start with `path`, in order.
    pub fn list(&self, names: &Vec<String>, path: &str) -> (r: Vec<String>)
        ensures
            r@.map_values(|s: String| s@) == names_with_prefix(
                names@.map_values(|s: String| s@),
                path@,
            ),
    {
        let ghost all = names@.map_values(|s: String| s@);
        let mut r: Vec<String> = Vec::new();
        let n = names.len();
        let mut i: usize = 0;
        while i < n
            invariant
                n == names.len(),
                i <= n,
                all == names@.map_values(|s: String| s@),
                r@.map_values(|s: String| s@) == names_with_prefix(all.take(i as int), path@),
            decreases n - i,
        {
            assert(all.take(i + 1).drop_last() =~= all.take(i as int));
            if has_prefix(names[i].as_str(), path) {
                let ghost before = r@;
                r.push(names[i].clone());
                assert(r@.map_values(|s: String| s@) =~= before.map_values(|s: String| s@).push(
                    names[i as int]@,
                ));
            }
            i = i + 1;
        }
        assert(all.take(n as int) =~= all);
        r
    }
}

} // verus!
