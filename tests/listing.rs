use file_browser::listing::{file_type_of, list_entries, plan_removal, DirChild, FileEntry, Removal};

fn child(name: &str, is_dir: bool, is_file: bool, len: u64, modified: Option<u64>) -> DirChild {
    DirChild {
        name: name.to_string(),
        path: format!("/d/{}", name),
        is_dir,
        is_file,
        len,
        modified,
    }
}

#[test]
fn file_row_has_size_and_label() {
    let e = FileEntry::describe(&child("a.txt", false, true, 42, Some(1700000000)));
    assert_eq!(e.name, "a.txt");
    assert_eq!(e.path, "/d/a.txt");
    assert!(!e.is_dir);
    assert_eq!(e.size, Some(42));
    assert_eq!(e.modified, Some(1700000000));
    assert_eq!(e.file_type, "file");
}

#[test]
fn folder_row_has_no_size() {
    let e = FileEntry::describe(&child("sub", true, false, 4096, None));
    assert!(e.is_dir);
    assert_eq!(e.size, None);
    assert_eq!(e.modified, None);
    assert_eq!(e.file_type, "folder");
}

#[test]
fn other_kinds_are_other() {
    let e = FileEntry::describe(&child("link", false, false, 7, Some(5)));
    assert_eq!(e.file_type, "other");
    assert_eq!(e.size, None);
    assert_eq!(file_type_of(true, false), "folder");
    assert_eq!(file_type_of(false, true), "file");
    assert_eq!(file_type_of(false, false), "other");
}

#[test]
fn unreadable_children_are_skipped() {
    let children = vec![
        Ok(child("one", false, true, 1, None)),
        Err("permission denied".to_string()),
        Ok(child("two", true, false, 0, Some(9))),
    ];
    let rows = list_entries(&children);
    assert_eq!(rows.len(), 2);
    assert_eq!(rows[0].name, "one");
    assert_eq!(rows[0].size, Some(1));
    assert_eq!(rows[1].name, "two");
    assert!(rows[1].is_dir);
}

#[test]
fn empty_directory_lists_nothing() {
    assert!(list_entries(&Vec::new()).is_empty());
    assert!(list_entries(&vec![Err("gone".to_string())]).is_empty());
}

#[test]
fn removal_follows_kind() {
    assert_eq!(plan_removal(true), Removal::WholeTree);
    assert_eq!(plan_removal(false), Removal::SingleFile);
}
