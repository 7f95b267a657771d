//! Assembling the list of volumes from what a platform's discovery found.
use vstd::prelude::*;
use crate::entry::DiskInfo;

verus! {

/// A directory found in a platform's table of mounted volumes.
#[derive(Debug, Clone)]
pub struct VolumeDir {
    pub name: String,
    pub path: String,
}

/// What one discovery strategy found on the running platform.
#[derive(Debug, Clone)]
pub enum Discovery {
    /// The directories of the system's volume table, and the home directory if known.
    VolumeTable { home: Option<String>, dirs: Vec<VolumeDir> },
    /// The drive letters whose root exists.
    DriveLetters { present: Vec<char> },
    /// The well-known mount points that exist.
    MountPoints { present: Vec<String> },
}

/// The root directory of a drive letter: `C` gives `C:\`.
pub open spec fn drive_root_of(c: char) -> Seq<char> {
    seq![c, ':', '\\']
}

/// The display name of a drive letter: `C` gives `C: Drive`.
pub open spec fn drive_name_of(c: char) -> Seq<char> {
    seq![c, ':', ' ', 'D', 'r', 'i', 'v', 'e']
}

/// The (name, path) of each volume that a discovery yields, in order: the
/// home directory first where the volume table is used.
pub open spec fn volume_views(found: Discovery) -> Seq<(Seq<char>, Seq<char>)> {
    match found {
        Discovery::VolumeTable { home, dirs } => {
            let rest = dirs@.map_values(|d: VolumeDir| (d.name@, d.path@));
            match home {
                Some(h) => seq![(seq!['H', 'o', 'm', 'e'], h@)] + rest,
                None => rest,
            }
        },
        Discovery::DriveLetters { present } => present@.map_values(
            |c: char| (drive_name_of(c), drive_root_of(c)),
        ),
        Discovery::MountPoints { present } => present@.map_values(|p: String| (p@, p@)),
    }
}

/// Whether a discovery found nothing at all.
pub open spec fn found_nothing(found: Discovery) -> bool {
    match found {
        Discovery::VolumeTable { home, dirs } => home is None && dirs@.len() == 0,
        Discovery::DriveLetters { present } => present@.len() == 0,
        Discovery::MountPoints { present } => present@.len() == 0,
    }
}

/// A volume of this name and path whose capacity is not known.
pub open spec fn unsized_volume(d: DiskInfo, v: (Seq<char>, Seq<char>)) -> bool {
    d.name@ == v.0 && d.path@ == v.1 && d.total_space == 0 && d.available_space == 0
}

/// Relies on `String::push`: the character is appended at the end.
#[verifier::external_body]
fn push_char(s: &mut String, c: char)
    ensures
        final(s)@ == old(s)@.push(c),
{
    s.push(c)
}

/// A string of the given characters.
fn string_of(cs: &[char]) -> (r: String)
    ensures
        r@ == cs@,
{
    let mut s = String::new();
    let mut i: usize = 0;
    while i < cs.len()
        invariant
            i <= cs@.len(),
            s@ == cs@.take(i as int),
        decreases cs@.len() - i,
    {
        push_char(&mut s, cs[i]);
        proof {
            assert(cs@.take(i + 1) == cs@.take(i as int).push(cs@[i as int]));
        }
        i = i + 1;
    }
    proof {
        assert(cs@.take(cs@.len() as int) == cs@);
    }
    s
}

/// The root directory of a drive letter, as probed for its existence.
pub fn drive_root(c: char) -> (r: String)
    ensures
        r@ == drive_root_of(c),
{
    let r = string_of(&[c, ':', '\\']);
    proof {
        assert(r@ =~= drive_root_of(c));
    }
    r
}

/// The drive letters probed where volumes are drive roots, `A` to `Z`.
pub fn drive_candidates() -> (r: Vec<char>)
    ensures
        r@ == seq![
            'A', 'B', 'C', 'D', 'E', 'F', 'G', 'H', 'I', 'J', 'K', 'L', 'M',
            'N', 'O', 'P', 'Q', 'R', 'S', 'T', 'U', 'V', 'W', 'X', 'Y', 'Z',
        ],
{
    let r = vec![
        'A', 'B', 'C', 'D', 'E', 'F', 'G', 'H', 'I', 'J', 'K', 'L', 'M',
        'N', 'O', 'P', 'Q', 'R', 'S', 'T', 'U', 'V', 'W', 'X', 'Y', 'Z',
    ];
    proof {
        assert(r@ =~= seq![
            'A', 'B', 'C', 'D', 'E', 'F', 'G', 'H', 'I', 'J', 'K', 'L', 'M',
            'N', 'O', 'P', 'Q', 'R', 'S', 'T', 'U', 'V', 'W', 'X', 'Y', 'Z',
        ]);
    }
    r
}

/// The well-known mount points probed where no volume table is available.
pub fn mount_point_candidates() -> (r: Vec<String>)
    ensures
        r@.len() == 4,
        r@[0]@ == seq!['/'],
        r@[1]@ == seq!['/', 'h', 'o', 'm', 'e'],
        r@[2]@ == seq!['/', 'm', 'n', 't'],
        r@[3]@ == seq!['/', 'm', 'e', 'd', 'i', 'a'],
{
    let r = vec![
        string_of(&['/']),
        string_of(&['/', 'h', 'o', 'm', 'e']),
        string_of(&['/', 'm', 'n', 't']),
        string_of(&['/', 'm', 'e', 'd', 'i', 'a']),
    ];
    r
}

/// A volume of unknown capacity.
fn capacity_unknown(name: String, path: String) -> (r: DiskInfo)
    ensures
        r.name == name,
        r.path == path,
        r.total_space == 0,
        r.available_space == 0,
{
    DiskInfo { name, path, total_space: 0, available_space: 0 }
}

/// The volumes that a discovery yields, one for each thing it found and in
/// that order; none when it found nothing.
pub fn volumes_from(found: Discovery) -> (r: Vec<DiskInfo>)
    ensures
        r@.len() == volume_views(found).len(),
        forall|i: int| 0 <= i < r@.len() ==> unsized_volume(#[trigger] r@[i], volume_views(found)[i]),
        found_nothing(found) ==> r@.len() == 0,
{
    let ghost views = volume_views(found);
    let mut out: Vec<DiskInfo> = Vec::new();
    match found {
        Discovery::VolumeTable { home, dirs } => {
            let ghost off: int = if home is Some { 1 } else { 0 };
            if let Some(h) = home {
                out.push(capacity_unknown(string_of(&['H', 'o', 'm', 'e']), h));
            }
            proof {
                assert forall|k: int| 0 <= k < dirs@.len() implies views[off + k] == (
                    #[trigger] dirs@[k].name@,
                    dirs@[k].path@,
                ) by {}
            }
            let mut i: usize = 0;
            while i < dirs.len()
                invariant
                    i <= dirs@.len(),
                    views.len() == off + dirs@.len(),
                    forall|k: int| 0 <= k < dirs@.len() ==> views[off + k] == (#[trigger] dirs@[k].name@, dirs@[k].path@),
                    out@.len() == off + i,
                    forall|k: int| 0 <= k < out@.len() ==> unsized_volume(#[trigger] out@[k], views[k]),
                decreases dirs@.len() - i,
            {
                let d = &dirs[i];
                out.push(capacity_unknown(d.name.clone(), d.path.clone()));
                i = i + 1;
            }
        },
        Discovery::DriveLetters { present } => {
            let mut i: usize = 0;
            while i < present.len()
                invariant
                    i <= present@.len(),
                    views == present@.map_values(|c: char| (drive_name_of(c), drive_root_of(c))),
                    out@.len() == i,
                    forall|k: int| 0 <= k < out@.len() ==> unsized_volume(#[trigger] out@[k], views[k]),
                decreases present@.len() - i,
            {
                let c = present[i];
                let name = string_of(&[c, ':', ' ', 'D', 'r', 'i', 'v', 'e']);
                proof {
                    assert(name@ =~= drive_name_of(c));
                }
                out.push(capacity_unknown(name, drive_root(c)));
                i = i + 1;
            }
        },
        Discovery::MountPoints { present } => {
            let mut i: usize = 0;
            while i < present.len()
                invariant
                    i <= present@.len(),
                    views == present@.map_values(|p: String| (p@, p@)),
                    out@.len() == i,
                    forall|k: int| 0 <= k < out@.len() ==> unsized_volume(#[trigger] out@[k], views[k]),
                decreases present@.len() - i,
            {
                let p = &present[i];
                out.push(capacity_unknown(p.clone(), p.clone()));
                i = i + 1;
            }
        },
    }
    out
}

} // verus!
