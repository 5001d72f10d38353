//! Trusted declarations for the outside calls the engine makes while
//! planning: walking a subtree, reading the clock, probing a path.
//! Each wrapper only converts between the engine's plain values and the
//! outside crate's types; nothing here decides anything.

use vstd::prelude::*;
use crate::errors::FsError;
use crate::fspath::FsPath;
use crate::plan::WalkItem;

verus! {

#[verifier::external_type_specification]
#[verifier::external_body]
pub struct ExDirEntry(walkdir::DirEntry);

/// Relies on walkdir::WalkDir: a depth-first walk of the subtree rooted
/// at the given path, yielding the root entry first and every directory
/// before its contents; the first walk error is surfaced as a single
/// failure.  What comes back depends on the disk, so nothing is claimed
/// of it.
#[verifier::external_body]
pub(crate) fn walk_tree(root: &FsPath) -> (r: Result<Vec<walkdir::DirEntry>, FsError>)
    ensures
        r matches Err(e) ==> e == FsError::Filesystem,
{
    let path: std::path::PathBuf = root.components.iter().collect();
    walkdir::WalkDir::new(path)
        .into_iter()
        .collect::<Result<Vec<_>, _>>()
        .map_err(|_| FsError::Filesystem)
}

/// Relies on walkdir::WalkDir with both depth bounds set to one: the
/// direct children of the given directory, without recursion and
/// without the root itself.
#[verifier::external_body]
pub(crate) fn list_children(dir: &FsPath) -> (r: Result<Vec<walkdir::DirEntry>, FsError>)
    ensures
        r matches Err(e) ==> e == FsError::Filesystem,
{
    let path: std::path::PathBuf = dir.components.iter().collect();
    walkdir::WalkDir::new(path)
        .min_depth(1)
        .max_depth(1)
        .into_iter()
        .collect::<Result<Vec<_>, _>>()
        .map_err(|_| FsError::Filesystem)
}

/// Relies on walkdir::DirEntry::path: the entry's path, one component
/// at a time; a component that is not valid text comes back as `None`.
#[verifier::external_body]
pub(crate) fn entry_components(entry: &walkdir::DirEntry) -> (r: Vec<Option<String>>) {
    entry.path().iter().map(|c| c.to_str().map(|s| s.to_string())).collect()
}

/// Relies on walkdir::DirEntry::file_type: whether the entry is a
/// directory.
#[verifier::external_body]
pub(crate) fn entry_is_dir(entry: &walkdir::DirEntry) -> (r: bool) {
    entry.file_type().is_dir()
}

/// Relies on walkdir::DirEntry::file_name: the entry's final path
/// component, `None` when it is not valid text.
#[verifier::external_body]
pub(crate) fn entry_file_name(entry: &walkdir::DirEntry) -> (r: Option<String>) {
    entry.file_name().to_str().map(|s| s.to_string())
}

/// Turns walked entries into plain walk items.  Whether an entry's
/// components form valid text is decided by the verified
/// [`crate::fspath::decode_components`], whose contract ties the
/// encoding error exactly to a missing component; here that error is
/// passed through at the first entry it strikes.
pub(crate) fn convert_entries(entries: &Vec<walkdir::DirEntry>) -> (r: Result<
    Vec<WalkItem>,
    FsError,
>)
    ensures
        r matches Ok(v) ==> v@.len() == entries@.len(),
        r matches Err(e) ==> e == FsError::Encoding,
{
    let mut out: Vec<WalkItem> = Vec::new();
    let mut i: usize = 0;
    while i < entries.len()
        invariant
            i <= entries.len(),
            out@.len() == i,
        decreases entries.len() - i,
    {
        let comps = entry_components(&entries[i]);
        let path = match crate::fspath::decode_components(&comps) {
            Ok(p) => p,
            Err(e) => {
                return Err(e);
            },
        };
        let is_dir = entry_is_dir(&entries[i]);
        out.push(WalkItem { path, is_dir });
        i = i + 1;
    }
    Ok(out)
}

/// Relies on chrono::Local::now: the clock's current moment as Unix
/// epoch seconds.  The clock decides the value, so nothing is claimed
/// of it.  chrono aborts when the system clock lies before the Unix
/// epoch; on such a machine this call does not return.
#[verifier::external_body]
pub(crate) fn now_epoch_seconds() -> (r: i64) {
    chrono::Local::now().timestamp()
}

/// Relies on std::path::Path::exists: whether the path resolves on disk
/// at this moment.  The disk decides the answer, so nothing is claimed
/// of it.
#[verifier::external_body]
pub(crate) fn path_exists(p: &FsPath) -> (r: bool) {
    let path: std::path::PathBuf = p.components.iter().collect();
    path.exists()
}

} // verus!
