use std::collections::BTreeMap;
use xpmanager::errors::ErrorKind;
use xpmanager::filelib;
use xpmanager::filelib::{DirAction, DirEvent, Entry, EntryKind, TreeWalk};

/// What a directory of a made-up file system answers when it is listed.
enum Answer {
    Listed(Vec<(&'static str, EntryKind)>),
    Unreadable,
}

type Disk = BTreeMap<&'static str, Answer>;

fn event(disk: &Disk, path: &str) -> DirEvent {
    match disk.get(path) {
        None => DirEvent::Missing,
        Some(Answer::Unreadable) => DirEvent::Unreadable,
        Some(Answer::Listed(entries)) => DirEvent::Listed {
            entries: entries
                .iter()
                .map(|(path, kind)| Entry { path: path.to_string(), kind: *kind })
                .collect(),
        },
    }
}

/// Walks the made-up file system: the files, or the failure, and the
/// directories in the order they were asked for.
fn collect(disk: &Disk, root: &str) -> (Result<Vec<String>, (ErrorKind, String)>, Vec<String>) {
    let mut walk = TreeWalk::new(root.to_string());
    let mut asked = Vec::new();
    let mut action = walk.action();
    loop {
        match action {
            DirAction::List { path } => {
                action = filelib::dir_files_tree(&mut walk, event(disk, &path));
                assert_eq!(action, walk.action());
                asked.push(path);
            }
            DirAction::Done => return (Ok(walk.into_files()), asked),
            DirAction::Fail { failure } => {
                assert!(walk.files().is_empty());
                return (Err((failure.kind, failure.path)), asked);
            }
        }
    }
}

fn sample_disk() -> Disk {
    let mut disk = Disk::new();
    disk.insert(
        "./temp/dir_files_tree",
        Answer::Listed(vec![
            ("./temp/dir_files_tree/test.txt", EntryKind::File),
            ("./temp/dir_files_tree/dir", EntryKind::Dir),
        ]),
    );
    disk.insert(
        "./temp/dir_files_tree/dir",
        Answer::Listed(vec![
            ("./temp/dir_files_tree/dir/test-0.txt", EntryKind::File),
            ("./temp/dir_files_tree/dir/files", EntryKind::Dir),
            ("./temp/dir_files_tree/dir/test-1.txt", EntryKind::File),
        ]),
    );
    disk.insert(
        "./temp/dir_files_tree/dir/files",
        Answer::Listed(vec![("./temp/dir_files_tree/dir/files/test.txt", EntryKind::File)]),
    );
    disk
}

#[test]
fn dir_files_tree() {
    let files = [
        "./temp/dir_files_tree/test.txt",
        "./temp/dir_files_tree/dir/test-0.txt",
        "./temp/dir_files_tree/dir/test-1.txt",
        "./temp/dir_files_tree/dir/files/test.txt",
    ];
    let (files_paths, _) = collect(&sample_disk(), "./temp/dir_files_tree");
    let files_paths = files_paths.unwrap();
    for file in files {
        let found = files_paths.iter().any(|tree| tree == file);
        assert_eq!(found, true, "Files tree NOT match!!");
    }
    assert_eq!(files_paths.len(), files.len());
}

#[test]
fn files_come_in_the_order_of_enumeration() {
    let mut disk = sample_disk();
    disk.insert(
        "./temp/dir_files_tree",
        Answer::Listed(vec![
            ("./temp/dir_files_tree/test.txt", EntryKind::File),
            ("./temp/dir_files_tree/dir", EntryKind::Dir),
            ("./temp/dir_files_tree/last.txt", EntryKind::File),
        ]),
    );
    let (found, asked) = collect(&disk, "./temp/dir_files_tree");
    assert_eq!(
        found.unwrap(),
        vec![
            "./temp/dir_files_tree/test.txt",
            "./temp/dir_files_tree/dir/test-0.txt",
            "./temp/dir_files_tree/dir/files/test.txt",
            "./temp/dir_files_tree/dir/test-1.txt",
            "./temp/dir_files_tree/last.txt",
        ]
    );
    assert_eq!(
        asked,
        vec![
            "./temp/dir_files_tree",
            "./temp/dir_files_tree/dir",
            "./temp/dir_files_tree/dir/files",
        ]
    );
}

#[test]
fn empty_directories_hold_no_file() {
    let mut disk = Disk::new();
    disk.insert("root", Answer::Listed(vec![]));
    assert_eq!(collect(&disk, "root").0, Ok(vec![]));
    disk.insert("root", Answer::Listed(vec![("root/a", EntryKind::Dir)]));
    disk.insert("root/a", Answer::Listed(vec![("root/a/b", EntryKind::Dir)]));
    disk.insert("root/a/b", Answer::Listed(vec![]));
    let (found, asked) = collect(&disk, "root");
    assert_eq!(found, Ok(vec![]));
    assert_eq!(asked, vec!["root", "root/a", "root/a/b"]);
}

#[test]
fn special_entry_is_unsupported() {
    let mut disk = Disk::new();
    disk.insert(
        "root",
        Answer::Listed(vec![
            ("root/a", EntryKind::File),
            ("root/d", EntryKind::Dir),
            ("root/c", EntryKind::File),
        ]),
    );
    disk.insert(
        "root/d",
        Answer::Listed(vec![("root/d/b", EntryKind::File), ("root/d/pipe", EntryKind::Other)]),
    );
    let (found, _) = collect(&disk, "root");
    assert_eq!(found, Err((ErrorKind::DirUnsupported, "root/d/pipe".to_string())));
}

#[test]
fn missing_root_is_not_found() {
    let (found, asked) = collect(&Disk::new(), "nowhere");
    assert_eq!(found, Err((ErrorKind::DirNotFound, "nowhere".to_string())));
    assert_eq!(asked, vec!["nowhere"]);
}

#[test]
fn unreadable_things_are_fatal() {
    let cases = [
        (EntryKind::Unreadable, "root", ErrorKind::CanNotGetDirData),
        (EntryKind::Untyped, "root/u", ErrorKind::CanNotGetFileOrDirType),
        (EntryKind::Other, "root/o", ErrorKind::DirUnsupported),
        (EntryKind::Dir, "root/gone", ErrorKind::DirNotFound),
        (EntryKind::Dir, "root/locked", ErrorKind::CanNotGetDirData),
    ];
    for (kind, path, error) in cases {
        let mut disk = Disk::new();
        disk.insert(
            "root",
            Answer::Listed(vec![
                ("root/a", EntryKind::File),
                (path, kind),
                ("root/z", EntryKind::File),
            ]),
        );
        disk.insert("root/locked", Answer::Unreadable);
        let (found, _) = collect(&disk, "root");
        assert_eq!(found, Err((error, path.to_string())));
    }
    let mut disk = Disk::new();
    disk.insert("root", Answer::Unreadable);
    assert_eq!(
        collect(&disk, "root").0,
        Err((ErrorKind::CanNotGetDirData, "root".to_string()))
    );
}

#[test]
fn first_failure_in_walk_order_is_reported() {
    let mut disk = Disk::new();
    disk.insert(
        "root",
        Answer::Listed(vec![("root/a", EntryKind::Dir), ("root/b", EntryKind::Other)]),
    );
    disk.insert("root/a", Answer::Listed(vec![("root/a/x", EntryKind::Untyped)]));
    assert_eq!(
        collect(&disk, "root").0,
        Err((ErrorKind::CanNotGetFileOrDirType, "root/a/x".to_string()))
    );
    disk.insert(
        "root",
        Answer::Listed(vec![("root/b", EntryKind::Other), ("root/a", EntryKind::Dir)]),
    );
    let (found, asked) = collect(&disk, "root");
    assert_eq!(found, Err((ErrorKind::DirUnsupported, "root/b".to_string())));
    assert_eq!(asked, vec!["root"]);
}

#[test]
fn a_walk_that_is_over_stays_as_it_is() {
    let mut walk = TreeWalk::new("root".to_string());
    assert_eq!(walk.action(), DirAction::List { path: "root".to_string() });
    let listed = DirEvent::Listed {
        entries: vec![Entry { path: "root/f".to_string(), kind: EntryKind::File }],
    };
    assert_eq!(filelib::dir_files_tree(&mut walk, listed), DirAction::Done);
    assert_eq!(walk.files(), &vec!["root/f".to_string()]);
    for event in [
        DirEvent::Missing,
        DirEvent::Unreadable,
        DirEvent::Listed {
            entries: vec![Entry { path: "root/g".to_string(), kind: EntryKind::File }],
        },
    ] {
        assert_eq!(filelib::dir_files_tree(&mut walk, event), DirAction::Done);
        assert_eq!(walk.files(), &vec!["root/f".to_string()]);
    }

    let mut walk = TreeWalk::new("root".to_string());
    let failed = filelib::dir_files_tree(&mut walk, DirEvent::Missing);
    assert!(matches!(failed, DirAction::Fail { .. }));
    let again = filelib::dir_files_tree(&mut walk, DirEvent::Listed { entries: vec![] });
    assert_eq!(again, failed);
    assert!(matches!(walk.into_files().as_slice(), []));
}
