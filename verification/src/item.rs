//! The item model: one filesystem entry's identity and metadata at a
//! point in time.

use vstd::prelude::*;
use crate::fspath::FsPath;
use crate::fspath::clone_components;

verus! {

/// Classification of a filesystem entry.
#[derive(Copy, Clone, Debug, PartialEq, Eq, Structural)]
pub enum FileType {
    Directory,
    File,
    Symlink,
}

/// Which key a directory listing is ordered by.
#[derive(Copy, Clone, Debug, PartialEq, Eq, Structural)]
pub enum SortKey {
    Name,
    Time,
}

/// Mathematical image of an [`ItemInfo`]: the same fields with every
/// text replaced by its character sequence.
pub ghost struct ItemView {
    pub file_type: FileType,
    pub file_name: Seq<char>,
    pub file_path: Seq<Seq<char>>,
    pub symlink_dir_path: Option<Seq<Seq<char>>>,
    pub file_size: u64,
    pub file_ext: Option<Seq<char>>,
    pub modified: Option<Seq<char>>,
    pub is_hidden: bool,
    pub selected: bool,
}

/// Snapshot of one filesystem entry.  A value of this type never refers
/// back to the disk; it records what was seen when the entry was read.
#[derive(Clone, Debug, PartialEq, Eq)]
pub struct ItemInfo {
    pub file_type: FileType,
    pub file_name: String,
    pub file_path: FsPath,
    /// Resolved target, present only for a symlink that points at a
    /// directory (enables directory-like display).
    pub symlink_dir_path: Option<FsPath>,
    pub file_size: u64,
    pub file_ext: Option<String>,
    /// Modification time as an ISO-8601 text, absent if the metadata
    /// read failed.
    pub modified: Option<String>,
    pub is_hidden: bool,
    /// Transient UI flag; always false on items stored in the clipboard
    /// or in log records.
    pub selected: bool,
}

impl View for ItemInfo {
    type V = ItemView;

    open spec fn view(&self) -> ItemView {
        ItemView {
            file_type: self.file_type,
            file_name: self.file_name@,
            file_path: self.file_path@,
            symlink_dir_path: match self.symlink_dir_path {
                Some(p) => Some(p@),
                None => None,
            },
            file_size: self.file_size,
            file_ext: match self.file_ext {
                Some(e) => Some(e@),
                None => None,
            },
            modified: match self.modified {
                Some(m) => Some(m@),
                None => None,
            },
            is_hidden: self.is_hidden,
            selected: self.selected,
        }
    }
}

impl DeepView for ItemInfo {
    type V = ItemView;

    open spec fn deep_view(&self) -> ItemView {
        self.view()
    }
}

/// The same item with the transient selection flag lowered.
pub open spec fn spec_cleared(v: ItemView) -> ItemView {
    ItemView { selected: false, ..v }
}

/// A name is hidden exactly when it starts with a dot.
pub open spec fn spec_hidden(name: Seq<char>) -> bool {
    name.len() > 0 && name[0] == '.'
}

impl FsPath {
    /// A fresh path with the same components.
    pub fn clone_path(&self) -> (r: FsPath)
        ensures
            r@ == self@,
    {
        FsPath { components: clone_components(&self.components) }
    }
}

fn clone_opt_path(p: &Option<FsPath>) -> (r: Option<FsPath>)
    ensures
        r.deep_view() == p.deep_view(),
{
    match p {
        Some(q) => Some(q.clone_path()),
        None => None,
    }
}

fn clone_opt_string(s: &Option<String>) -> (r: Option<String>)
    ensures
        r.deep_view() == s.deep_view(),
{
    match s {
        Some(t) => Some(t.clone()),
        None => None,
    }
}

impl ItemInfo {
    /// A fresh item with the same view.
    pub fn duplicate(&self) -> (r: ItemInfo)
        ensures
            r@ == self@,
    {
        ItemInfo {
            file_type: self.file_type,
            file_name: self.file_name.clone(),
            file_path: self.file_path.clone_path(),
            symlink_dir_path: clone_opt_path(&self.symlink_dir_path),
            file_size: self.file_size,
            file_ext: clone_opt_string(&self.file_ext),
            modified: clone_opt_string(&self.modified),
            is_hidden: self.is_hidden,
            selected: self.selected,
        }
    }

    /// A fresh item with the same view except that the selection flag is
    /// lowered, as required of everything stored in the clipboard or in
    /// a log record.
    pub fn cleared_copy(&self) -> (r: ItemInfo)
        ensures
            r@ == spec_cleared(self@),
    {
        let mut r = self.duplicate();
        r.selected = false;
        r
    }
}

/// Fresh copies of all the given items with their selection flags
/// lowered, as stored in the clipboard and in log records.
pub fn cleared_items(items: &Vec<ItemInfo>) -> (r: Vec<ItemInfo>)
    ensures
        r.deep_view() == items.deep_view().map_values(|v: ItemView| spec_cleared(v)),
{
    let ghost total = items.deep_view();
    let mut r: Vec<ItemInfo> = Vec::new();
    let mut i: usize = 0;
    while i < items.len()
        invariant
            i <= items.len(),
            total == items.deep_view(),
            total.len() == items.len(),
            r.deep_view() == total.take(i as int).map_values(|v: ItemView| spec_cleared(v)),
        decreases items.len() - i,
    {
        let ghost pre = r.deep_view();
        r.push(items[i].cleared_copy());
        proof {
            assert(r.deep_view() =~= pre.push(spec_cleared(total[i as int])));
            assert(total.take(i + 1 as int).map_values(|v: ItemView| spec_cleared(v)) =~= pre.push(
                spec_cleared(total[i as int]),
            ));
        }
        i = i + 1;
    }
    proof {
        assert(total.take(items.len() as int) =~= total);
    }
    r
}

/// Metadata as read from disk for one entry, handed in by the caller.
#[derive(Clone, Debug)]
pub struct MetaSnapshot {
    pub file_type: FileType,
    pub file_size: u64,
    pub modified: Option<String>,
}

/// Index of the last dot of `s` within `[1, i]`, or `0` when there is
/// none (a leading dot marks a hidden name, not an extension).
pub open spec fn spec_last_dot(s: Seq<char>, i: int) -> int
    decreases i,
{
    if i <= 0 {
        0
    } else if s[i] == '.' {
        i
    } else {
        spec_last_dot(s, i - 1)
    }
}

/// The extension of a display name: what follows the last dot, unless
/// that dot is the leading character or absent.
pub open spec fn spec_extension_of(name: Seq<char>) -> Option<Seq<char>> {
    let j = spec_last_dot(name, name.len() - 1);
    if j == 0 {
        None
    } else {
        Some(name.skip(j + 1))
    }
}

/// Extracts the extension from a display name.
pub fn extension_of(name: &String) -> (r: Option<String>)
    ensures
        r.deep_view() == spec_extension_of(name@),
{
    let s = name.as_str();
    let len = s.unicode_len();
    if len == 0 {
        return None;
    }
    let mut i: usize = len - 1;
    loop
        invariant
            0 <= i < len,
            len == name@.len(),
            s@ == name@,
            spec_last_dot(name@, len - 1) == spec_last_dot(name@, i as int),
        decreases i,
    {
        if i == 0 {
            return None;
        }
        if s.get_char(i) == '.' {
            let sub = s.substring_char(i + 1, len);
            let r = Some(String::from_str(sub));
            assert(sub@ =~= name@.skip(i + 1));
            return r;
        }
        i = i - 1;
    }
}

/// Builds the snapshot of one directory entry from what the caller read
/// off the disk.  A failed metadata read degrades the item (regular
/// file, size zero, no timestamp) instead of failing the listing; the
/// hidden flag and the extension are always derived from the name.
pub fn make_item(
    file_name: String,
    file_path: FsPath,
    meta: Option<MetaSnapshot>,
    symlink_dir_path: Option<FsPath>,
) -> (r: ItemInfo)
    ensures
        r@.file_name == file_name@,
        r@.file_path == file_path@,
        r@.file_ext == spec_extension_of(file_name@),
        r@.is_hidden == spec_hidden(file_name@),
        r@.selected == false,
        match meta {
            Some(m) => {
                &&& r@.file_type == m.file_type
                &&& r@.file_size == m.file_size
                &&& r@.modified == m.modified.deep_view()
                &&& r@.symlink_dir_path == if m.file_type is Symlink {
                    symlink_dir_path.deep_view()
                } else {
                    None::<Seq<Seq<char>>>
                }
            },
            None => {
                &&& r@.file_type is File
                &&& r@.file_size == 0
                &&& r@.modified is None
                &&& r@.symlink_dir_path is None
            },
        },
{
    let is_hidden = {
        let s = file_name.as_str();
        s.unicode_len() > 0 && s.get_char(0) == '.'
    };
    let file_ext = extension_of(&file_name);
    match meta {
        Some(m) => {
            let symlink_dir_path = if matches!(m.file_type, FileType::Symlink) {
                symlink_dir_path
            } else {
                None
            };
            ItemInfo {
                file_type: m.file_type,
                file_name,
                file_path,
                symlink_dir_path,
                file_size: m.file_size,
                file_ext,
                modified: m.modified,
                is_hidden,
                selected: false,
            }
        },
        None => ItemInfo {
            file_type: FileType::File,
            file_name,
            file_path,
            symlink_dir_path: None,
            file_size: 0,
            file_ext,
            modified: None,
            is_hidden,
            selected: false,
        },
    }
}

} // verus!
