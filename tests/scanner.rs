use disk_scanner::entry::{is_hidden, Child, FileEntry, Kind};
use disk_scanner::listing::{check_target, list_entries, listing_from, ListError, PathState};
use disk_scanner::size::{descends, folder_size, MAX_DEPTH};
use disk_scanner::sort::sort_entries;
use disk_scanner::volumes::{
    drive_candidates, drive_root, mount_point_candidates, volumes_from, Discovery, VolumeDir,
};

fn file(name: &str, len: u64) -> Child {
    Child { name: name.to_string(), path: format!("/root/{}", name), kind: Kind::File { len } }
}

fn dir(name: &str, contents: Vec<Child>) -> Child {
    Child { name: name.to_string(), path: format!("/root/{}", name), kind: Kind::Dir { contents: Some(contents) } }
}

fn entry(name: &str, is_dir: bool, size: u64) -> FileEntry {
    FileEntry { name: name.to_string(), path: format!("/root/{}", name), is_dir, size }
}

fn shape(v: &[FileEntry]) -> Vec<(String, bool, u64)> {
    v.iter().map(|e| (e.name.clone(), e.is_dir, e.size)).collect()
}

/// A chain of nested directories `levels` deep with one file of `len` bytes at the bottom.
fn chain(levels: usize, len: u64) -> Vec<Child> {
    let mut cs = vec![file("f.bin", len)];
    for i in 0..levels {
        cs = vec![dir(&format!("d{}", i), cs)];
    }
    cs
}

#[test]
fn hidden_subdirectory_fixture() {
    let root = vec![
        dir("docs", vec![file("a.txt", 10), dir(".hidden", vec![file("b.txt", 1000)])]),
        file("c.txt", 5),
    ];
    let listed = list_entries(&root);
    assert_eq!(
        shape(&listed),
        vec![("docs".to_string(), true, 10), ("c.txt".to_string(), false, 5)]
    );
    assert_eq!(listed[0].path, "/root/docs");
}

#[test]
fn hidden_entries_never_listed() {
    let root = vec![file(".env", 3), dir(".git", vec![file("x", 9)]), file("visible", 1), file(".", 2)];
    let listed = list_entries(&root);
    assert_eq!(shape(&listed), vec![("visible".to_string(), false, 1)]);
    for e in &listed {
        assert!(!e.name.starts_with('.'));
    }
}

#[test]
fn unreadable_children_are_skipped() {
    let root = vec![
        Child { name: "locked".to_string(), path: "/root/locked".to_string(), kind: Kind::Unreadable },
        file("ok", 4),
    ];
    assert_eq!(shape(&list_entries(&root)), vec![("ok".to_string(), false, 4)]);
}

#[test]
fn directories_before_files_larger_first() {
    let root = vec![
        file("small", 1),
        dir("empty", vec![]),
        file("big", 100),
        dir("full", vec![file("x", 50)]),
        Child { name: "link".to_string(), path: "/root/link".to_string(), kind: Kind::Other { len: 7 } },
        Child { name: "gone".to_string(), path: "/root/gone".to_string(), kind: Kind::Dir { contents: None } },
    ];
    let listed = list_entries(&root);
    assert_eq!(
        shape(&listed),
        vec![
            ("full".to_string(), true, 50),
            ("empty".to_string(), true, 0),
            ("gone".to_string(), true, 0),
            ("big".to_string(), false, 100),
            ("link".to_string(), false, 7),
            ("small".to_string(), false, 1),
        ]
    );
}

#[test]
fn sort_keeps_every_entry() {
    let v = vec![entry("a", false, 3), entry("b", true, 1), entry("c", false, 9), entry("d", true, 8), entry("e", false, 3)];
    let sorted = sort_entries(v);
    assert_eq!(sorted.len(), 5);
    let names: Vec<&str> = sorted.iter().map(|e| e.name.as_str()).collect();
    assert_eq!(names[0], "d");
    assert_eq!(names[1], "b");
    assert_eq!(names[2], "c");
    assert_eq!(names[3], "a");
    assert_eq!(names[4], "e");
    for w in sorted.windows(2) {
        assert!(w[0].is_dir || !w[1].is_dir);
        if w[0].is_dir == w[1].is_dir {
            assert!(w[0].size >= w[1].size);
        }
    }
}

#[test]
fn sort_of_nothing_is_empty() {
    assert!(sort_entries(vec![]).is_empty());
}

#[test]
fn shallow_tree_size_is_exact() {
    // three nested directories: the file lies at level 3, still counted
    assert_eq!(folder_size(&chain(3, 42), 0), 42);
    let tree = vec![file("a", 1), dir("x", vec![file("b", 2), dir("y", vec![file("c", 4)])])];
    assert_eq!(folder_size(&tree, 0), 7);
}

#[test]
fn deep_tree_size_stops_at_cutoff() {
    // the file lies at level 4: below the cutoff
    let deep = chain(4, 42);
    assert_eq!(folder_size(&deep, 0), 0);
    let mut mixed = chain(6, 1000);
    mixed.push(file("top", 8));
    assert_eq!(folder_size(&mixed, 0), 8);
    assert!(folder_size(&mixed, 0) < 1008);
}

#[test]
fn size_past_depth_limit_is_zero() {
    let tree = vec![file("a", 5)];
    assert_eq!(folder_size(&tree, MAX_DEPTH), 5);
    assert_eq!(folder_size(&tree, MAX_DEPTH + 1), 0);
}

#[test]
fn hidden_entries_add_nothing_to_size() {
    let tree = vec![file(".cache", 6), dir(".git", vec![file("obj", 100)]), file("a", 1)];
    assert_eq!(folder_size(&tree, 0), 1);
    let deep = vec![dir("x", vec![dir("y", vec![file(".secret", 1000), file("b", 2)])])];
    assert_eq!(folder_size(&deep, 0), 2);
}

#[test]
fn directory_of_only_hidden_files_is_empty() {
    let root = vec![dir("cfg", vec![file(".rc", 7)])];
    assert_eq!(shape(&list_entries(&root)), vec![("cfg".to_string(), true, 0)]);
    assert_eq!(folder_size(&vec![], 0), 0);
    assert_eq!(folder_size(&vec![file(".rc", 7)], 0), 0);
}

#[test]
fn ties_keep_read_order() {
    let root = vec![file("one", 4), dir("d1", vec![]), file("two", 4), dir("d2", vec![]), file("three", 4)];
    let names: Vec<String> = list_entries(&root).into_iter().map(|e| e.name).collect();
    assert_eq!(names, vec!["d1", "d2", "one", "two", "three"]);
    assert_eq!(list_entries(&root).len(), 5);
}

#[test]
fn size_saturates() {
    let tree = vec![file("a", u64::MAX), file("b", 5), dir("d", vec![file("c", u64::MAX)])];
    assert_eq!(folder_size(&tree, 0), u64::MAX);
}

#[test]
fn descends_follows_depth_and_name() {
    assert!(descends("src", 0));
    assert!(descends("src", MAX_DEPTH - 1));
    assert!(!descends("src", MAX_DEPTH));
    assert!(!descends(".git", 0));
}

#[test]
fn hidden_names() {
    assert!(is_hidden(".a"));
    assert!(is_hidden("."));
    assert!(!is_hidden("a.b"));
    assert!(!is_hidden(""));
}

#[test]
fn missing_path_is_not_found() {
    assert_eq!(check_target(PathState::Missing), Err(ListError::PathNotFound));
}

#[test]
fn file_path_is_not_a_directory() {
    assert_eq!(check_target(PathState::NotDirectory), Err(ListError::NotADirectory));
    assert_eq!(check_target(PathState::Directory), Ok(()));
}

#[test]
fn failed_read_is_io_error() {
    let r = listing_from(Err("permission denied".to_string()));
    assert_eq!(r.unwrap_err(), ListError::IoError("permission denied".to_string()));
    let ok = listing_from(Ok(vec![file("a", 1)])).unwrap();
    assert_eq!(shape(&ok), vec![("a".to_string(), false, 1)]);
}

#[test]
fn no_volumes_found_gives_empty_list() {
    assert!(volumes_from(Discovery::MountPoints { present: vec![] }).is_empty());
    assert!(volumes_from(Discovery::DriveLetters { present: vec![] }).is_empty());
    assert!(volumes_from(Discovery::VolumeTable { home: None, dirs: vec![] }).is_empty());
}

#[test]
fn volume_table_puts_home_first() {
    let found = Discovery::VolumeTable {
        home: Some("/Users/me".to_string()),
        dirs: vec![VolumeDir { name: "Data".to_string(), path: "/Volumes/Data".to_string() }],
    };
    let v = volumes_from(found);
    assert_eq!(v.len(), 2);
    assert_eq!((v[0].name.as_str(), v[0].path.as_str()), ("Home", "/Users/me"));
    assert_eq!((v[1].name.as_str(), v[1].path.as_str()), ("Data", "/Volumes/Data"));
    assert_eq!((v[1].total_space, v[1].available_space), (0, 0));
}

#[test]
fn drive_letters_named_and_rooted() {
    let v = volumes_from(Discovery::DriveLetters { present: vec!['C', 'E'] });
    assert_eq!(v.len(), 2);
    assert_eq!(v[0].name, "C: Drive");
    assert_eq!(v[0].path, "C:\\");
    assert_eq!(v[1].name, "E: Drive");
    assert_eq!(drive_root('Z'), "Z:\\");
    let letters = drive_candidates();
    assert_eq!(letters.len(), 26);
    assert_eq!((letters[0], letters[25]), ('A', 'Z'));
}

#[test]
fn mount_points_named_by_path() {
    assert_eq!(mount_point_candidates(), vec!["/", "/home", "/mnt", "/media"]);
    let v = volumes_from(Discovery::MountPoints { present: vec!["/".to_string(), "/mnt".to_string()] });
    assert_eq!(v.len(), 2);
    assert_eq!((v[1].name.as_str(), v[1].path.as_str()), ("/mnt", "/mnt"));
}
