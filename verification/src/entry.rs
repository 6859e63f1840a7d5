//! What a directory listing holds.

use vstd::prelude::*;

verus! {

/// What an entry of a directory is.
#[derive(Clone, Copy, Debug, PartialEq, Eq)]
pub enum EntryKind {
    /// A directory.
    Directory,
    /// A regular file.
    File,
    /// Neither of the two.
    Other,
}

/// One entry of a directory listing.
#[derive(Debug, PartialEq, Eq)]
pub struct DirEntry {
    /// The entry's base name.
    pub name: String,
    /// The entry's full path.
    pub path: String,
    /// What the entry is.
    pub kind: EntryKind,
}

/// What a `DirEntry` stands for.
pub struct EntryView {
    /// The entry's base name.
    pub name: Seq<char>,
    /// The entry's full path.
    pub path: Seq<char>,
    /// What the entry is.
    pub kind: EntryKind,
}

impl View for DirEntry {
    type V = EntryView;

    open spec fn view(&self) -> EntryView {
        EntryView { name: self.name@, path: self.path@, kind: self.kind }
    }
}

impl DeepView for DirEntry {
    type V = EntryView;

    open spec fn deep_view(&self) -> EntryView {
        self@
    }
}

impl Clone for DirEntry {
    fn clone(&self) -> (copy: Self)
        ensures
            copy@ == self@,
    {
        DirEntry { name: self.name.clone(), path: self.path.clone(), kind: self.kind }
    }
}

} // verus!
