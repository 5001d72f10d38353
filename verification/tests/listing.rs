//! Tests of the directory snapshot builder: partitioning, sorting,
//! hidden filtering, item construction.

use fileman::fspath::FsPath;
use fileman::item::{extension_of, make_item, FileType, ItemInfo, MetaSnapshot, SortKey};
use fileman::list::{push_items, trash_to_info};

fn path(components: &[&str]) -> FsPath {
    FsPath::from_components(components.iter().map(|c| c.to_string()).collect())
}

fn item(name: &str, kind: FileType, modified: Option<&str>) -> ItemInfo {
    ItemInfo {
        file_type: kind,
        file_name: name.to_string(),
        file_path: path(&["/", "home", name]),
        symlink_dir_path: None,
        file_size: 1,
        file_ext: None,
        modified: modified.map(|m| m.to_string()),
        is_hidden: name.starts_with('.'),
        selected: false,
    }
}

fn names(v: &[ItemInfo]) -> Vec<String> {
    v.iter().map(|i| i.file_name.clone()).collect()
}

#[test]
fn listing_is_deterministic() {
    let entries = vec![
        item("zeta.txt", FileType::File, Some("2023-01-01T00:00:00+00:00")),
        item("docs", FileType::Directory, None),
        item(".hidden", FileType::File, None),
        item("alpha.txt", FileType::File, Some("2024-01-01T00:00:00+00:00")),
        item("bin", FileType::Directory, Some("2022-01-01T00:00:00+00:00")),
    ];
    let first = push_items(&entries, &SortKey::Name, true);
    let second = push_items(&entries, &SortKey::Name, true);
    assert_eq!(first, second);
    let t1 = push_items(&entries, &SortKey::Time, false);
    let t2 = push_items(&entries, &SortKey::Time, false);
    assert_eq!(t1, t2);
}

#[test]
fn directories_precede_files_for_all_sort_keys() {
    let entries = vec![
        item("zeta.txt", FileType::File, Some("2024-05-01T00:00:00+00:00")),
        item("docs", FileType::Directory, None),
        item("alpha.txt", FileType::File, None),
        item("bin", FileType::Directory, Some("2022-01-01T00:00:00+00:00")),
        item("link", FileType::Symlink, None),
    ];
    for key in [SortKey::Name, SortKey::Time] {
        let listed = push_items(&entries, &key, true);
        let mut seen_non_dir = false;
        for it in &listed {
            if it.file_type == FileType::Directory {
                assert!(!seen_non_dir, "directory after a file under {:?}", key);
            } else {
                seen_non_dir = true;
            }
        }
        assert_eq!(listed.len(), entries.len());
    }
}

#[test]
fn name_sort_is_natural() {
    let entries = vec![
        item("rfc2086.txt", FileType::File, None),
        item("rfc822.txt", FileType::File, None),
        item("rfc1.txt", FileType::File, None),
    ];
    let listed = push_items(&entries, &SortKey::Name, true);
    assert_eq!(names(&listed), vec!["rfc1.txt", "rfc822.txt", "rfc2086.txt"]);
}

#[test]
fn time_sort_is_newest_first_with_missing_last() {
    let entries = vec![
        item("old.txt", FileType::File, Some("2020-01-01T00:00:00+00:00")),
        item("unknown.txt", FileType::File, None),
        item("new.txt", FileType::File, Some("2024-06-01T00:00:00+00:00")),
        item("mid.txt", FileType::File, Some("2022-03-01T00:00:00+00:00")),
    ];
    let listed = push_items(&entries, &SortKey::Time, true);
    assert_eq!(names(&listed), vec!["new.txt", "mid.txt", "old.txt", "unknown.txt"]);
}

#[test]
fn hidden_filter_keeps_relative_order() {
    let entries = vec![
        item("b.txt", FileType::File, None),
        item(".config", FileType::File, None),
        item("a.txt", FileType::File, None),
        item(".git", FileType::Directory, None),
        item("src", FileType::Directory, None),
    ];
    let listed = push_items(&entries, &SortKey::Name, false);
    assert_eq!(names(&listed), vec!["src", "a.txt", "b.txt"]);
    let all = push_items(&entries, &SortKey::Name, true);
    assert_eq!(all.len(), 5);
}

#[test]
fn extension_after_last_dot() {
    assert_eq!(extension_of(&"archive.tar.gz".to_string()), Some("gz".to_string()));
    assert_eq!(extension_of(&"notes.txt".to_string()), Some("txt".to_string()));
    assert_eq!(extension_of(&".bashrc".to_string()), None);
    assert_eq!(extension_of(&"README".to_string()), None);
    assert_eq!(extension_of(&"trailing.".to_string()), Some(String::new()));
    assert_eq!(extension_of(&String::new()), None);
}

#[test]
fn make_item_keeps_metadata() {
    let it = make_item(
        "Notes.TXT".to_string(),
        path(&["/", "home", "Notes.TXT"]),
        Some(MetaSnapshot {
            file_type: FileType::File,
            file_size: 42,
            modified: Some("2024-01-01T00:00:00+00:00".to_string()),
        }),
        None,
    );
    assert_eq!(it.file_type, FileType::File);
    assert_eq!(it.file_size, 42);
    assert_eq!(it.file_ext, Some("TXT".to_string()));
    assert_eq!(it.modified, Some("2024-01-01T00:00:00+00:00".to_string()));
    assert!(!it.is_hidden);
    assert!(!it.selected);
}

#[test]
fn make_item_degrades_on_missing_metadata() {
    let it = make_item(".cache".to_string(), path(&["/", "home", ".cache"]), None, None);
    assert_eq!(it.file_type, FileType::File);
    assert_eq!(it.file_size, 0);
    assert_eq!(it.modified, None);
    assert_eq!(it.symlink_dir_path, None);
    assert!(it.is_hidden);
}

#[test]
fn make_item_keeps_symlink_target_only_for_symlinks() {
    let target = path(&["/", "srv", "data"]);
    let link = make_item(
        "data".to_string(),
        path(&["/", "home", "data"]),
        Some(MetaSnapshot { file_type: FileType::Symlink, file_size: 0, modified: None }),
        Some(target.clone()),
    );
    assert_eq!(link.symlink_dir_path, Some(target.clone()));
    let plain = make_item(
        "data".to_string(),
        path(&["/", "home", "data"]),
        Some(MetaSnapshot { file_type: FileType::File, file_size: 0, modified: None }),
        Some(target),
    );
    assert_eq!(plain.symlink_dir_path, None);
}

#[test]
fn trash_to_info_selects_wanted_paths_in_order() {
    let entries = vec![
        item("1700000000_a.txt", FileType::File, None),
        item("1700000001_b.txt", FileType::File, None),
        item("1700000002_c.txt", FileType::File, None),
    ];
    let wanted = vec![
        path(&["/", "home", "1700000002_c.txt"]),
        path(&["/", "home", "1700000000_a.txt"]),
    ];
    let picked = trash_to_info(&entries, &wanted);
    assert_eq!(names(&picked), vec!["1700000000_a.txt", "1700000002_c.txt"]);
}
