//! Tests of the delete, paste and rename engines, the trash naming
//! contract, collision resolution, and the undo/redo log.

use fileman::errors::FsError;
use fileman::fspath::FsPath;
use fileman::item::{FileType, ItemInfo, SortKey};
use fileman::manip::{ManipKind, Manipulation, RenamedFile};
use fileman::names::{resolve_name, NameSet};
use fileman::plan::{
    plan_delete_dir, plan_delete_file, plan_put_dir, plan_put_file, progress_stage,
    put_removal_ops, rename_undo_op, trash_removal_ops, FsOp, WalkItem,
};
use fileman::state::State;
use fileman::text::udec_string;
use fileman::trash::{make_trash_name, strip_trash_prefix};

fn path(components: &[&str]) -> FsPath {
    FsPath::from_components(components.iter().map(|c| c.to_string()).collect())
}

fn file_item(name: &str, dir: &[&str]) -> ItemInfo {
    let mut comps: Vec<&str> = dir.to_vec();
    comps.push(name);
    ItemInfo {
        file_type: FileType::File,
        file_name: name.to_string(),
        file_path: path(&comps),
        symlink_dir_path: None,
        file_size: 3,
        file_ext: None,
        modified: None,
        is_hidden: false,
        selected: false,
    }
}

fn dir_item(name: &str, dir: &[&str]) -> ItemInfo {
    let mut it = file_item(name, dir);
    it.file_type = FileType::Directory;
    it
}

fn fresh_state() -> State {
    State::new(
        path(&["/", "home"]),
        path(&["/", "trash"]),
        "open".to_string(),
        vec![("txt".to_string(), "editor".to_string())],
        SortKey::Name,
        true,
    )
}

fn rename_record(tag: &str) -> ManipKind {
    ManipKind::Rename(RenamedFile {
        original_name: path(&["/", "home", tag]),
        new_name: path(&["/", "home", "renamed"]),
    })
}

#[test]
fn decimal_rendering() {
    assert_eq!(udec_string(0), "0");
    assert_eq!(udec_string(10), "10");
    assert_eq!(udec_string(1234567890), "1234567890");
}

#[test]
fn trash_name_round_trip() {
    let name = make_trash_name(1700000000, &"report.txt".to_string());
    assert_eq!(name, "1700000000_report.txt");
    assert_eq!(strip_trash_prefix(&name), "report.txt");
    assert_eq!(strip_trash_prefix(&"short".to_string()), "");
}

#[test]
fn collision_resolution_yields_distinct_names() {
    let mut taken = NameSet::new();
    taken.insert("a.txt".to_string());
    let first = resolve_name("a.txt".to_string(), &mut taken);
    let second = resolve_name("a.txt".to_string(), &mut taken);
    assert_eq!(first, "a.txt_1");
    assert_eq!(second, "a.txt_2");
    assert_ne!(first, second);
    assert_ne!(first, "a.txt");
    assert_ne!(second, "a.txt");
    let free = resolve_name("b.txt".to_string(), &mut taken);
    assert_eq!(free, "b.txt");
}

#[test]
fn delete_file_plan_copies_then_removes() {
    let item = file_item("a.txt", &["/", "home"]);
    let t = plan_delete_file(&item, &path(&["/", "trash"]), 1700000000, true, true);
    assert_eq!(t.trash_path, path(&["/", "trash", "1700000000_a.txt"]));
    assert_eq!(t.ops.len(), 2);
    match &t.ops[0] {
        FsOp::CopyFile { from, to } => {
            assert_eq!(*from, item.file_path);
            assert_eq!(*to, t.trash_path);
        },
        _ => panic!("first step must copy into the trash"),
    }
    match &t.ops[1] {
        FsOp::RemoveFile(p) => assert_eq!(*p, item.file_path),
        _ => panic!("second step must remove the source"),
    }
    let reg = t.registered.expect("a logged delete snapshots the item");
    assert_eq!(reg.file_name, "1700000000_a.txt");
    assert_eq!(reg.file_path, t.trash_path);
    assert!(!reg.selected);
}

#[test]
fn unlogged_delete_only_removes() {
    let item = file_item("a.txt", &["/", "home"]);
    let t = plan_delete_file(&item, &path(&["/", "trash"]), 1700000000, true, false);
    assert_eq!(t.ops.len(), 1);
    assert!(matches!(&t.ops[0], FsOp::RemoveFile(p) if *p == item.file_path));
    assert!(t.registered.is_none());
    assert_eq!(t.trash_path, path(&[]));
}

#[test]
fn broken_symlink_is_unlinked_not_trashed() {
    let mut item = file_item("dangling", &["/", "home"]);
    item.file_type = FileType::Symlink;
    let t = plan_delete_file(&item, &path(&["/", "trash"]), 1700000000, false, true);
    assert_eq!(t.ops.len(), 1);
    assert!(matches!(&t.ops[0], FsOp::RemoveFile(p) if *p == item.file_path));
    assert!(t.registered.is_none());
}

#[test]
fn delete_then_restore_file_lands_on_original_path() {
    let trash_dir = path(&["/", "trash"]);
    let home = path(&["/", "home"]);
    let item = file_item("a.txt", &["/", "home"]);
    let t = plan_delete_file(&item, &trash_dir, 1700000000, true, true);
    let restored = t.registered.expect("trashed file is snapshotted");
    // After the delete "a.txt" is gone from /home, so the name is free.
    let mut taken = NameSet::new();
    let p = plan_put_file(&restored, &home, &trash_dir, &mut taken);
    assert_eq!(p.produced, item.file_path);
    match &p.ops[0] {
        FsOp::CopyFile { from, to } => {
            assert_eq!(*from, t.trash_path);
            assert_eq!(*to, item.file_path);
        },
        _ => panic!("restore must copy the trash entry back"),
    }
}

#[test]
fn delete_dir_plan_preserves_relative_structure() {
    let trash_dir = path(&["/", "trash"]);
    let item = dir_item("d", &["/", "home"]);
    let walk = vec![
        WalkItem { path: path(&["/", "home", "d"]), is_dir: true },
        WalkItem { path: path(&["/", "home", "d", "sub"]), is_dir: true },
        WalkItem { path: path(&["/", "home", "d", "sub", "f.txt"]), is_dir: false },
    ];
    let t = plan_delete_dir(&item, &trash_dir, 1700000000, walk, true).unwrap();
    let root = path(&["/", "trash", "1700000000_d"]);
    assert_eq!(t.trash_path, root);
    assert_eq!(t.ops.len(), 4);
    assert!(matches!(&t.ops[0], FsOp::MkDir(p) if *p == root));
    assert!(
        matches!(&t.ops[1], FsOp::MkDirAll(p) if *p == path(&["/", "trash", "1700000000_d", "sub"]))
    );
    match &t.ops[2] {
        FsOp::CopyFile { from, to } => {
            assert_eq!(*from, path(&["/", "home", "d", "sub", "f.txt"]));
            assert_eq!(*to, path(&["/", "trash", "1700000000_d", "sub", "f.txt"]));
        },
        _ => panic!("nested file must be copied"),
    }
    assert!(matches!(&t.ops[3], FsOp::RemoveDirAll(p) if *p == item.file_path));
}

#[test]
fn restore_dir_rebuilds_nested_paths() {
    let trash_dir = path(&["/", "trash"]);
    let home = path(&["/", "home"]);
    let item = dir_item("d", &["/", "home"]);
    let walk = vec![
        WalkItem { path: path(&["/", "home", "d"]), is_dir: true },
        WalkItem { path: path(&["/", "home", "d", "sub"]), is_dir: true },
        WalkItem { path: path(&["/", "home", "d", "sub", "f.txt"]), is_dir: false },
    ];
    let t = plan_delete_dir(&item, &trash_dir, 1700000000, walk, true).unwrap();
    let restored = t.registered.expect("trashed directory is snapshotted");
    let trash_root = t.trash_path.clone();
    let restore_walk = vec![
        WalkItem { path: trash_root.clone(), is_dir: true },
        WalkItem { path: trash_root.join(&"sub".to_string()), is_dir: true },
        WalkItem {
            path: trash_root.join(&"sub".to_string()).join(&"f.txt".to_string()),
            is_dir: false,
        },
    ];
    let mut taken = NameSet::new();
    let p = plan_put_dir(&restored, &home, &trash_dir, restore_walk, &mut taken).unwrap();
    assert_eq!(p.produced, path(&["/", "home", "d"]));
    assert!(matches!(&p.ops[0], FsOp::MkDir(q) if *q == path(&["/", "home", "d"])));
    assert!(matches!(&p.ops[1], FsOp::MkDirAll(q) if *q == path(&["/", "home", "d", "sub"])));
    match &p.ops[2] {
        FsOp::CopyFile { to, .. } => {
            assert_eq!(*to, path(&["/", "home", "d", "sub", "f.txt"]));
        },
        _ => panic!("nested file must be copied back"),
    }
}

#[test]
fn restore_from_trash_strips_timestamp_prefix() {
    let trash_dir = path(&["/", "trash"]);
    let home = path(&["/", "home"]);
    let mut trashed = file_item("1700000000_report.txt", &["/", "trash"]);
    trashed.file_path = path(&["/", "trash", "1700000000_report.txt"]);
    // The destination already holds "report.txt".
    let mut taken = NameSet::new();
    taken.insert("report.txt".to_string());
    let p = plan_put_file(&trashed, &home, &trash_dir, &mut taken);
    let produced_name = p.produced.components.last().unwrap().clone();
    assert!(produced_name.starts_with("report.txt"));
    assert_ne!(produced_name, "report.txt");
    assert_eq!(produced_name, "report.txt_1");
}

#[test]
fn put_items_resolves_duplicate_batch_names() {
    let mut state = fresh_state();
    state.list = vec![file_item("a.txt", &["/", "home"])];
    let targets = vec![file_item("a.txt", &["/", "src"]), file_item("a.txt", &["/", "src"])];
    let parts = state.put_items(&targets, None).unwrap();
    assert_eq!(parts.len(), 2);
    let n0 = parts[0].produced.components.last().unwrap().clone();
    let n1 = parts[1].produced.components.last().unwrap().clone();
    assert_ne!(n0, "a.txt");
    assert_ne!(n1, "a.txt");
    assert_ne!(n0, n1);
    assert_eq!(n0, "a.txt_1");
    assert_eq!(n1, "a.txt_2");
}

#[test]
fn remove_and_yank_then_commit_updates_clipboard_and_log() {
    let mut state = fresh_state();
    let targets = vec![file_item("a.txt", &["/", "home"])];
    let parts = state.remove_and_yank(&targets, true).unwrap();
    assert_eq!(parts.len(), 1);
    assert_eq!(parts[0].ops.len(), 2);
    state.commit_remove(&targets, &parts, true);
    assert_eq!(state.registered.len(), 1);
    assert!(state.registered[0].file_name.ends_with("_a.txt"));
    assert_eq!(state.manipulations.manip_list.len(), 1);
    assert_eq!(state.manipulations.count, 0);
    match &state.manipulations.manip_list[0] {
        ManipKind::Delete(d) => {
            assert_eq!(d.trash.len(), 1);
            assert_eq!(d.original.len(), 1);
            assert_eq!(d.original[0].file_name, "a.txt");
            assert_eq!(d.dir, path(&["/", "home"]));
        },
        _ => panic!("a logged delete appends a delete record"),
    }
}

#[test]
fn commit_put_appends_put_record() {
    let mut state = fresh_state();
    let targets = vec![file_item("b.txt", &["/", "src"])];
    let parts = state.put_items(&targets, None).unwrap();
    state.commit_put(&targets, &parts);
    assert_eq!(state.manipulations.manip_list.len(), 1);
    match &state.manipulations.manip_list[0] {
        ManipKind::Put(p) => {
            assert_eq!(p.put, vec![path(&["/", "home", "b.txt"])]);
            assert_eq!(p.original[0].file_name, "b.txt");
            assert_eq!(p.dir, path(&["/", "home"]));
        },
        _ => panic!("a user paste appends a put record"),
    }
}

#[test]
fn branch_truncation_discards_redo_slot() {
    let mut m = Manipulation::new();
    m.append(rename_record("a"));
    assert!(m.undo_target().is_ok());
    m.commit_undo();
    m.append(rename_record("b"));
    assert_eq!(m.redo_target().unwrap_err(), FsError::NothingToRedo);
    assert_eq!(m.manip_list.len(), 1);
    match &m.manip_list[0] {
        ManipKind::Rename(r) => assert_eq!(r.original_name, path(&["/", "home", "b"])),
        _ => panic!("only the second record remains"),
    }
}

#[test]
fn empty_log_has_nothing_to_undo_or_redo() {
    let m = Manipulation::new();
    assert_eq!(m.undo_target().unwrap_err(), FsError::NothingToUndo);
    assert_eq!(m.redo_target().unwrap_err(), FsError::NothingToRedo);
}

#[test]
fn undo_then_redo_walks_the_pointer() {
    let mut m = Manipulation::new();
    m.append(rename_record("a"));
    m.append(rename_record("b"));
    assert!(matches!(m.undo_target().unwrap(), ManipKind::Rename(r) if r.original_name == path(&["/", "home", "b"])));
    m.commit_undo();
    assert!(matches!(m.undo_target().unwrap(), ManipKind::Rename(r) if r.original_name == path(&["/", "home", "a"])));
    assert!(matches!(m.redo_target().unwrap(), ManipKind::Rename(r) if r.original_name == path(&["/", "home", "b"])));
    m.commit_redo();
    assert_eq!(m.redo_target().unwrap_err(), FsError::NothingToRedo);
}

#[test]
fn rename_plan_and_inverse() {
    let item = file_item("a.txt", &["/", "home"]);
    let (op, record) = State::plan_rename(&item, &"b.txt".to_string());
    match &op {
        FsOp::Rename { from, to } => {
            assert_eq!(*from, path(&["/", "home", "a.txt"]));
            assert_eq!(*to, path(&["/", "home", "b.txt"]));
        },
        _ => panic!("a rename plans a rename step"),
    }
    let undo = rename_undo_op(&record);
    match &undo {
        FsOp::Rename { from, to } => {
            assert_eq!(*from, path(&["/", "home", "b.txt"]));
            assert_eq!(*to, path(&["/", "home", "a.txt"]));
        },
        _ => panic!("the inverse renames back"),
    }
    let mut state = fresh_state();
    state.commit_rename(record);
    assert_eq!(state.manipulations.manip_list.len(), 1);
}

#[test]
fn put_and_trash_removal_ops() {
    let mut state = fresh_state();
    let targets = vec![file_item("b.txt", &["/", "src"]), dir_item("d", &["/", "src"])];
    // Undo of a paste removes what was produced.
    let put_rec = fileman::manip::PutFiles {
        original: targets.clone(),
        put: vec![path(&["/", "home", "b.txt"]), path(&["/", "home", "d"])],
        dir: path(&["/", "home"]),
    };
    let ops = put_removal_ops(&put_rec);
    assert!(matches!(&ops[0], FsOp::RemoveFile(p) if *p == path(&["/", "home", "b.txt"])));
    assert!(matches!(&ops[1], FsOp::RemoveDirAll(p) if *p == path(&["/", "home", "d"])));
    // Undo of a delete removes the trash copies after restoring them;
    // an empty trash path (a broken symlink) contributes nothing.
    let parts = state.remove_and_yank(&targets[..1].to_vec(), true).unwrap();
    state.commit_remove(&targets[..1].to_vec(), &parts, true);
    match state.undo_target().unwrap() {
        ManipKind::Delete(d) => {
            let ops = trash_removal_ops(d);
            assert_eq!(ops.len(), 1);
            assert!(matches!(&ops[0], FsOp::RemoveFile(p) if *p == parts[0].trash_path));
        },
        _ => panic!("the delete record is the undo target"),
    }
    state.commit_undo();
    assert!(state.redo_target().is_ok());
}

#[test]
fn deleting_a_missing_directory_reports_a_filesystem_error() {
    let state = fresh_state();
    let missing = dir_item("absent", &["/", "surely", "not", "here"]);
    match state.remove_and_yank(&vec![missing], true) {
        Err(e) => assert_eq!(e, FsError::Filesystem),
        Ok(_) => panic!("walking a missing directory must fail"),
    }
}

#[test]
fn deleting_a_dangling_symlink_unlinks_it() {
    let state = fresh_state();
    let mut link = file_item("dangling", &["/", "surely", "not", "here"]);
    link.file_type = FileType::Symlink;
    let parts = state.remove_and_yank(&vec![link.clone()], true).unwrap();
    assert_eq!(parts.len(), 1);
    assert_eq!(parts[0].ops.len(), 1);
    assert!(matches!(&parts[0].ops[0], FsOp::RemoveFile(p) if *p == link.file_path));
    assert!(parts[0].registered.is_none());
}

#[test]
fn unlogged_delete_never_fails_to_plan() {
    // Without logging no subtree walk is needed, so planning succeeds
    // even for a directory that does not exist on disk.
    let state = fresh_state();
    let missing = dir_item("absent", &["/", "surely", "not", "here"]);
    let parts = state.remove_and_yank(&vec![missing.clone()], false).unwrap();
    assert_eq!(parts.len(), 1);
    assert_eq!(parts[0].ops.len(), 1);
    assert!(matches!(&parts[0].ops[0], FsOp::RemoveDirAll(p) if *p == missing.file_path));
    assert!(parts[0].registered.is_none());
}

#[test]
fn decode_components_ties_encoding_to_missing_text() {
    let good = vec![Some("/".to_string()), Some("home".to_string()), Some("a.txt".to_string())];
    let p = fileman::fspath::decode_components(&good).unwrap();
    assert_eq!(p, path(&["/", "home", "a.txt"]));
    let bad = vec![Some("/".to_string()), None, Some("a.txt".to_string())];
    match fileman::fspath::decode_components(&bad) {
        Err(e) => assert_eq!(e, FsError::Encoding),
        Ok(_) => panic!("a missing component must be an encoding error"),
    }
}

#[test]
fn get_item_reports_not_found() {
    let mut state = fresh_state();
    assert_eq!(state.get_item(0).unwrap_err(), FsError::NotFound);
    state.list = vec![file_item("a.txt", &["/", "home"])];
    assert_eq!(state.get_item(0).unwrap().file_name, "a.txt");
    assert_eq!(state.get_item(1).unwrap_err(), FsError::NotFound);
}

#[test]
fn opener_uses_lowercased_extension_with_fallback() {
    let mut state = fresh_state();
    let mut with_ext = file_item("NOTES.TXT", &["/", "home"]);
    with_ext.file_ext = Some("TXT".to_string());
    let mut unknown = file_item("image.png", &["/", "home"]);
    unknown.file_ext = Some("png".to_string());
    let plain = file_item("README", &["/", "home"]);
    state.list = vec![with_ext, unknown, plain];
    assert_eq!(state.opener_for(0).unwrap(), "editor");
    assert_eq!(state.opener_for(1).unwrap(), "open");
    assert_eq!(state.opener_for(2).unwrap(), "open");
    assert_eq!(state.opener_for(3).unwrap_err(), FsError::NotFound);
}

#[test]
fn yank_and_selection() {
    let mut state = fresh_state();
    state.list = vec![
        file_item("a.txt", &["/", "home"]),
        file_item("b.txt", &["/", "home"]),
        file_item("c.txt", &["/", "home"]),
    ];
    state.select_from_top(1);
    assert!(state.list[0].selected && state.list[1].selected && !state.list[2].selected);
    state.yank_item(0, true);
    assert_eq!(state.registered.len(), 2);
    assert!(!state.registered[0].selected);
    assert_eq!(state.registered[0].file_name, "a.txt");
    state.select_to_bottom(2);
    assert!(!state.list[0].selected && !state.list[1].selected && state.list[2].selected);
    state.reset_selection();
    assert!(state.list.iter().all(|i| !i.selected));
    state.yank_item(1, false);
    assert_eq!(state.registered.len(), 1);
    assert_eq!(state.registered[0].file_name, "b.txt");
}

#[test]
fn progress_stages_at_fifths() {
    assert_eq!(progress_stage(0, 10), 0);
    assert_eq!(progress_stage(2, 10), 0);
    assert_eq!(progress_stage(3, 10), 1);
    assert_eq!(progress_stage(5, 10), 2);
    assert_eq!(progress_stage(7, 10), 3);
    assert_eq!(progress_stage(9, 10), 4);
    assert_eq!(progress_stage(0, 0), 0);
}
