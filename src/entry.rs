//! The values a listing is built from and the values it hands back.
use vstd::prelude::*;

verus! {

/// A mounted storage device or partition.
#[derive(Debug, Clone)]
pub struct DiskInfo {
    pub name: String,
    pub path: String,
    pub total_space: u64,
    pub available_space: u64,
}

/// One listed child of a directory.
#[derive(Debug, Clone)]
pub struct FileEntry {
    pub name: String,
    pub path: String,
    pub is_dir: bool,
    pub size: u64,
}

/// What reading one directory entry found.
#[derive(Debug)]
pub enum Kind {
    /// The entry's metadata could not be read.
    Unreadable,
    /// A regular file of `len` bytes.
    File { len: u64 },
    /// A directory; `contents` is `None` where it was not read or could not be.
    Dir { contents: Option<Vec<Child>> },
    /// Anything else (a symbolic link, a device), with the length its metadata gives.
    Other { len: u64 },
}

/// One entry of a directory as it was read from the filesystem.
#[derive(Debug)]
pub struct Child {
    pub name: String,
    pub path: String,
    pub kind: Kind,
}

/// An entry is hidden when its name starts with a dot.
pub open spec fn hidden(name: Seq<char>) -> bool {
    name.len() > 0 && name[0] == '.'
}

/// Whether an entry of this name is hidden.
pub fn is_hidden(name: &str) -> (r: bool)
    ensures
        r == hidden(name@),
{
    !name.is_empty() && name.get_char(0) == '.'
}

} // verus!
