//! What the views know of a directory's entries and of the session they come from.

use vstd::prelude::*;

verus! {

/// What an entry is.
#[derive(Clone, Copy, PartialEq, Eq, Structural, Debug)]
pub enum EntryKind {
    Dir,
    File,
    Unknown,
}

/// What the rows are ordered by.
#[derive(Clone, Copy, PartialEq, Eq, Structural, Debug)]
pub enum SortKey {
    Name,
    Size,
    Modified,
}

/// One entry of a directory.
#[derive(Debug)]
pub struct DirEntry {
    pub name: String,
    pub path: String,
    pub kind: EntryKind,
    pub size: Option<u64>,
}

impl DirEntry {
    /// Whether the entry is a directory.
    pub open spec fn dir(self) -> bool {
        self.kind == EntryKind::Dir
    }

    pub fn is_dir(&self) -> (r: bool)
        ensures
            r == self.dir(),
    {
        self.kind == EntryKind::Dir
    }

    pub fn copy(&self) -> (r: DirEntry)
        ensures
            r == *self,
    {
        DirEntry {
            name: self.name.clone(),
            path: self.path.clone(),
            kind: self.kind,
            size: self.size,
        }
    }
}

/// Entries with the order in which they are to be shown: `view` holds their places, the
/// first row's first.
#[derive(Debug)]
pub struct Rows {
    pub entries: Vec<DirEntry>,
    pub view: Vec<u32>,
}

/// What a backend can do.
#[derive(Clone, Copy, PartialEq, Eq, Structural, Debug)]
pub struct Capability {
    pub write: bool,
    pub create_dir: bool,
    pub rename: bool,
    pub copy: bool,
    pub presign: bool,
    pub delete_with_recursive: bool,
    pub list_with_versions: bool,
}

/// What can be done with an entry.
#[derive(Clone, Copy, PartialEq, Eq, Structural, Debug)]
pub enum EntryAction {
    NewFolder,
    Rename,
    Duplicate,
    Download,
    ShowVersions,
    Delete,
    CopyPath,
    CopyShareLink,
    Reload,
}

/// The pictures the views use.
#[derive(Clone, Copy, PartialEq, Eq, Structural, Debug)]
pub enum Icon {
    ArrowDown,
    ArrowLeft,
    ArrowRight,
    ArrowUp,
    Building,
    ChevronDown,
    ChevronRight,
    ChevronUp,
    Copy,
    Eye,
    EyeOff,
    File,
    Folder,
    FolderClosed,
    FolderOpen,
    Globe,
    Inbox,
    Moon,
    Plus,
    Redo,
    Sun,
}

/// Only a directory is one: neither a file nor something unknown is.
pub proof fn law_kinds(entry: DirEntry)
    ensures
        entry.dir() <==> entry.kind is Dir,
        entry.kind is File || entry.kind is Unknown ==> !entry.dir(),
{
}

} // verus!
