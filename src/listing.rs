//! Building the listing of one directory from what was read of it.
use vstd::prelude::*;
use crate::entry::{hidden, is_hidden, Child, FileEntry, Kind};
use crate::size::{capped, folder_size, level_bytes};
use crate::sort::{insert_entry, listing_order, listing_ordered};

verus! {

broadcast use vstd::seq_lib::group_to_multiset_ensures;

/// What a path named for listing turned out to be.
#[derive(Debug, Clone, Copy, PartialEq, Eq)]
pub enum PathState {
    Missing,
    NotDirectory,
    Directory,
}

/// Why a directory could not be listed.
#[derive(Debug, Clone, PartialEq, Eq)]
pub enum ListError {
    /// The path does not exist.
    PathNotFound,
    /// The path exists but is not a directory.
    NotADirectory,
    /// The directory could not be read; the message says why.
    IoError(String),
}

/// The size listed for an entry: a file's length, or a directory's contents
/// aggregated from level 0.
pub open spec fn listed_size(k: Kind) -> int {
    match k {
        Kind::File { len } => len as int,
        Kind::Other { len } => len as int,
        Kind::Dir { contents: Some(v) } => capped(level_bytes(v@, 0)),
        _ => 0,
    }
}

/// The listed entry for a child that is readable and not hidden.
pub open spec fn entry_of(c: Child) -> FileEntry {
    FileEntry { name: c.name, path: c.path, is_dir: c.kind is Dir, size: listed_size(c.kind) as u64 }
}

/// Whether a child shows in a listing.
pub open spec fn shown(c: Child) -> bool {
    !(c.kind is Unreadable) && !hidden(c.name@)
}

/// The entries listed for the children `cs`, in the order they were read.
pub open spec fn listed(cs: Seq<Child>) -> Seq<FileEntry>
    decreases cs.len(),
{
    if cs.len() == 0 {
        Seq::empty()
    } else if shown(cs.last()) {
        listed(cs.drop_last()).push(entry_of(cs.last()))
    } else {
        listed(cs.drop_last())
    }
}

/// Fails unless the path is a directory.
pub fn check_target(state: PathState) -> (r: Result<(), ListError>)
    ensures
        state == PathState::Missing <==> r == Err::<(), ListError>(ListError::PathNotFound),
        state == PathState::NotDirectory <==> r == Err::<(), ListError>(ListError::NotADirectory),
        state == PathState::Directory <==> r is Ok,
{
    match state {
        PathState::Missing => Err(ListError::PathNotFound),
        PathState::NotDirectory => Err(ListError::NotADirectory),
        PathState::Directory => Ok(()),
    }
}

/// The listed entry for one child.
fn make_entry(c: &Child) -> (r: FileEntry)
    ensures
        r == entry_of(*c),
{
    let size: u64 = match &c.kind {
        Kind::File { len } => *len,
        Kind::Other { len } => *len,
        Kind::Dir { contents: Some(v) } => folder_size(v, 0),
        _ => 0,
    };
    FileEntry { name: c.name.clone(), path: c.path.clone(), is_dir: matches!(c.kind, Kind::Dir { .. }), size }
}

/// The listing of a directory whose children are `cs`: unreadable and hidden
/// children are left out, every other child appears once, directories first
/// and larger before smaller within each group, entries that tie in the order
/// they were read.
pub fn list_entries(cs: &Vec<Child>) -> (r: Vec<FileEntry>)
    ensures
        r@ == listing_order(listed(cs@)),
        listing_ordered(r@),
        r@.to_multiset() == listed(cs@).to_multiset(),
        r@.len() == listed(cs@).len(),
        forall|k: int| 0 <= k < r@.len() ==> !hidden(#[trigger] r@[k].name@),
{
    let mut out: Vec<FileEntry> = Vec::new();
    let mut i: usize = 0;
    while i < cs.len()
        invariant
            i <= cs.len(),
            listing_ordered(out@),
            out@.to_multiset() == listed(cs@.take(i as int)).to_multiset(),
            out@.len() == listed(cs@.take(i as int)).len(),
            out@ == listing_order(listed(cs@.take(i as int))),
            forall|k: int| 0 <= k < out@.len() ==> !hidden(#[trigger] out@[k].name@),
        decreases cs.len() - i,
    {
        let c = &cs[i];
        proof {
            assert(cs@.take(i + 1).drop_last() == cs@.take(i as int));
        }
        let readable = match &c.kind {
            Kind::Unreadable => false,
            _ => true,
        };
        if readable && !is_hidden(c.name.as_str()) {
            let e = make_entry(c);
            let ghost prev = out@;
            insert_entry(&mut out, e);
            proof {
                let p = crate::sort::place_of(prev, e);
                let l = listed(cs@.take(i as int));
                assert(l.push(e).drop_last() == l);
                assert forall|k: int| 0 <= k < out@.len() implies !hidden(#[trigger] out@[k].name@) by {
                    if k < p {
                        assert(out@[k] == prev[k]);
                    } else if k > p {
                        assert(out@[k] == prev[k - 1]);
                    }
                }
            }
        }
        i = i + 1;
    }
    proof {
        assert(cs@.take(cs.len() as int) == cs@);
    }
    out
}

/// The listing of a directory from the result of reading it; a failed read
/// is an `IoError` carrying its message.
pub fn listing_from(read: Result<Vec<Child>, String>) -> (r: Result<Vec<FileEntry>, ListError>)
    ensures
        match read {
            Ok(cs) => r is Ok && r->Ok_0@ == listing_order(listed(cs@)) && listing_ordered(r->Ok_0@) && r->Ok_0@.to_multiset() == listed(
                cs@,
            ).to_multiset() && r->Ok_0@.len() == listed(cs@).len(),
            Err(m) => r == Err::<Vec<FileEntry>, ListError>(ListError::IoError(m)),
        },
        r matches Ok(v) ==> forall|k: int| 0 <= k < v@.len() ==> !hidden(#[trigger] v@[k].name@),
{
    match read {
        Ok(cs) => Ok(list_entries(&cs)),
        Err(m) => Err(ListError::IoError(m)),
    }
}

} // verus!
