//! Planning of destructive operations.
//!
//! The engines never touch the disk: for each target they compute an
//! ordered list of [`FsOp`] steps for the caller to execute, together
//! with the trash path and the clipboard snapshot the operation yields.
//! Every derived name and path is pinned down exactly, which is what
//! makes deletion recoverable: the restore of a trash entry provably
//! lands on the original path.

use vstd::prelude::*;
use crate::errors::FsError;
use crate::fspath::{drop_base, FsPath};
use crate::item::{FileType, ItemInfo, ItemView};
use crate::names::{resolve_name, spec_name_in, NameSet};
use crate::text::is_prefix;
use crate::trash::{
    lemma_trash_name_round_trip, make_trash_name, spec_strip_trash_prefix, spec_trash_name,
};

verus! {

/// One disk operation for the caller to execute.  Within a plan the
/// operations must run in order; a failure aborts the batch, and what
/// already ran is not rolled back.
pub enum FsOp {
    /// Create one directory.
    MkDir(FsPath),
    /// Create a directory together with any missing parents.
    MkDirAll(FsPath),
    /// Copy one file's bytes, creating a missing parent lazily.
    CopyFile { from: FsPath, to: FsPath },
    /// Remove one file or symlink.
    RemoveFile(FsPath),
    /// Remove a whole directory subtree.
    RemoveDirAll(FsPath),
    /// Rename one entry.
    Rename { from: FsPath, to: FsPath },
}

pub open spec fn op_is_mkdir(op: FsOp, p: Seq<Seq<char>>) -> bool {
    match op {
        FsOp::MkDir(q) => q@ == p,
        _ => false,
    }
}

pub open spec fn op_is_mkdir_all(op: FsOp, p: Seq<Seq<char>>) -> bool {
    match op {
        FsOp::MkDirAll(q) => q@ == p,
        _ => false,
    }
}

pub open spec fn op_is_copy(op: FsOp, from: Seq<Seq<char>>, to: Seq<Seq<char>>) -> bool {
    match op {
        FsOp::CopyFile { from: f, to: t } => f@ == from && t@ == to,
        _ => false,
    }
}

pub open spec fn op_is_remove_file(op: FsOp, p: Seq<Seq<char>>) -> bool {
    match op {
        FsOp::RemoveFile(q) => q@ == p,
        _ => false,
    }
}

pub open spec fn op_is_remove_dir_all(op: FsOp, p: Seq<Seq<char>>) -> bool {
    match op {
        FsOp::RemoveDirAll(q) => q@ == p,
        _ => false,
    }
}

pub open spec fn op_is_rename(op: FsOp, from: Seq<Seq<char>>, to: Seq<Seq<char>>) -> bool {
    match op {
        FsOp::Rename { from: f, to: t } => f@ == from && t@ == to,
        _ => false,
    }
}

/// Mathematical image of a [`WalkItem`].
pub ghost struct WalkView {
    pub path: Seq<Seq<char>>,
    pub is_dir: bool,
}

/// One entry of a recursive walk, as plain values.
pub struct WalkItem {
    pub path: FsPath,
    pub is_dir: bool,
}

impl View for WalkItem {
    type V = WalkView;

    open spec fn view(&self) -> WalkView {
        WalkView { path: self.path@, is_dir: self.is_dir }
    }
}

impl DeepView for WalkItem {
    type V = WalkView;

    open spec fn deep_view(&self) -> WalkView {
        self.view()
    }
}

/// The clipboard snapshot of a trashed item: the same metadata under
/// its trash name and trash path, never marked selected.
pub open spec fn spec_registered_view(
    item: ItemView,
    trash_name: Seq<char>,
    trash_path: Seq<Seq<char>>,
) -> ItemView {
    ItemView { file_name: trash_name, file_path: trash_path, selected: false, ..item }
}

/// What one walked entry contributes to a recursive copy whose target
/// root is `root`: its path relative to the walk root (the first
/// `base` components dropped) re-joined under `root`; a directory is
/// recreated, a file is copied.
pub open spec fn spec_walk_entry_op(op: FsOp, e: WalkView, root: Seq<Seq<char>>, base: int) -> bool {
    let target = root + drop_base(e.path, base);
    if e.is_dir {
        op_is_mkdir_all(op, target)
    } else {
        op_is_copy(op, e.path, target)
    }
}

/// The plan for deleting one target.
pub struct TargetDelete {
    /// Epoch seconds the trash name was built from.
    pub epoch: u64,
    /// The walked subtree this plan was computed from (directories
    /// only; empty for files and symlinks).
    pub walk: Vec<WalkItem>,
    /// The steps to execute, in order.
    pub ops: Vec<FsOp>,
    /// Where the content goes in the trash; no components when nothing
    /// is trashed (broken symlink, or an unlogged delete).
    pub trash_path: FsPath,
    /// The clipboard snapshot, present exactly when content was
    /// trashed.
    pub registered: Option<ItemInfo>,
}

/// The delete plan for a file or symlink target.
///
/// * A symlink whose target no longer resolves is unlinked directly:
///   copying a broken link preserves nothing.
/// * Otherwise, when logging, the bytes are copied to
///   `<trash>/<epoch>_<name>` and only then the source is removed.
/// * Without logging the source is only removed.
pub open spec fn spec_target_delete_file(
    t: TargetDelete,
    item: ItemView,
    trash_dir: Seq<Seq<char>>,
    on_disk: bool,
    logging: bool,
) -> bool {
    if item.file_type is Symlink && !on_disk {
        &&& t.ops@.len() == 1
        &&& op_is_remove_file(t.ops@[0], item.file_path)
        &&& t.trash_path@ == Seq::<Seq<char>>::empty()
        &&& t.registered is None
    } else if logging {
        let tn = spec_trash_name(t.epoch as nat, item.file_name);
        let tp = trash_dir.push(tn);
        &&& t.ops@.len() == 2
        &&& op_is_copy(t.ops@[0], item.file_path, tp)
        &&& op_is_remove_file(t.ops@[1], item.file_path)
        &&& t.trash_path@ == tp
        &&& match t.registered {
            Some(reg) => reg@ == spec_registered_view(item, tn, tp),
            None => false,
        }
    } else {
        &&& t.ops@.len() == 1
        &&& op_is_remove_file(t.ops@[0], item.file_path)
        &&& t.trash_path@ == Seq::<Seq<char>>::empty()
        &&& t.registered is None
    }
}

/// The delete plan for a directory target, computed from its walked
/// subtree: the trash root `<trash>/<epoch>_<rootname>` is created,
/// every further entry is recreated or copied at its original relative
/// path under the trash root, and afterwards the whole source subtree
/// is removed.  Without logging only the removal remains.
pub open spec fn spec_target_delete_dir(
    t: TargetDelete,
    item: ItemView,
    trash_dir: Seq<Seq<char>>,
    logging: bool,
) -> bool {
    if logging {
        let w = t.walk.deep_view();
        &&& w.len() > 0
        &&& w[0].path.len() > 0
        &&& {
            let base = w[0].path.len() as int;
            let tn = spec_trash_name(t.epoch as nat, w[0].path.last());
            let tp = trash_dir.push(tn);
            &&& t.trash_path@ == tp
            &&& t.ops@.len() == w.len() + 1
            &&& op_is_mkdir(t.ops@[0], tp)
            &&& forall|i: int|
                1 <= i < w.len() ==> spec_walk_entry_op(#[trigger] t.ops@[i], w[i], tp, base)
            &&& op_is_remove_dir_all(t.ops@[w.len() as int], item.file_path)
            &&& match t.registered {
                Some(reg) => reg@ == spec_registered_view(item, tn, tp),
                None => false,
            }
        }
    } else {
        &&& t.ops@.len() == 1
        &&& op_is_remove_dir_all(t.ops@[0], item.file_path)
        &&& t.trash_path@ == Seq::<Seq<char>>::empty()
        &&& t.registered is None
    }
}

/// The delete plan for one target of any kind.  For a symlink the plan
/// depends on whether the link still resolved when the plan was made,
/// which only the disk knows, so either shape is allowed.
pub open spec fn spec_target_delete(
    t: TargetDelete,
    item: ItemView,
    trash_dir: Seq<Seq<char>>,
    logging: bool,
) -> bool {
    if item.file_type is Directory {
        spec_target_delete_dir(t, item, trash_dir, logging)
    } else if item.file_type is Symlink {
        ||| spec_target_delete_file(t, item, trash_dir, true, logging)
        ||| spec_target_delete_file(t, item, trash_dir, false, logging)
    } else {
        spec_target_delete_file(t, item, trash_dir, true, logging)
    }
}

/// Plans the deletion of one file or symlink.  `on_disk` reports
/// whether the path currently resolves (a symlink that does not is
/// unlinked without trashing).
pub fn plan_delete_file(
    item: &ItemInfo,
    trash_dir: &FsPath,
    epoch: u64,
    on_disk: bool,
    logging: bool,
) -> (t: TargetDelete)
    requires
        !(item@.file_type is Directory),
    ensures
        t.epoch == epoch,
        spec_target_delete_file(t, item@, trash_dir@, on_disk, logging),
{
    if matches!(item.file_type, FileType::Symlink) && !on_disk {
        TargetDelete {
            epoch,
            walk: Vec::new(),
            ops: vec![FsOp::RemoveFile(item.file_path.clone_path())],
            trash_path: FsPath::empty(),
            registered: None,
        }
    } else if logging {
        let tn = make_trash_name(epoch, &item.file_name);
        let tp = trash_dir.join(&tn);
        let mut reg = item.duplicate();
        reg.file_name = tn;
        reg.file_path = tp.clone_path();
        reg.selected = false;
        let t = TargetDelete {
            epoch,
            walk: Vec::new(),
            ops: vec![
                FsOp::CopyFile { from: item.file_path.clone_path(), to: tp.clone_path() },
                FsOp::RemoveFile(item.file_path.clone_path()),
            ],
            trash_path: tp,
            registered: Some(reg),
        };
        t
    } else {
        TargetDelete {
            epoch,
            walk: Vec::new(),
            ops: vec![FsOp::RemoveFile(item.file_path.clone_path())],
            trash_path: FsPath::empty(),
            registered: None,
        }
    }
}

/// Plans the deletion of one directory from its walked subtree.
pub fn plan_delete_dir(
    item: &ItemInfo,
    trash_dir: &FsPath,
    epoch: u64,
    walk: Vec<WalkItem>,
    logging: bool,
) -> (r: Result<TargetDelete, FsError>)
    requires
        item@.file_type is Directory,
    ensures
        match r {
            Ok(t) => {
                &&& t.epoch == epoch
                &&& (logging ==> t.walk@ == walk@)
                &&& spec_target_delete_dir(t, item@, trash_dir@, logging)
            },
            Err(e) => {
                &&& logging
                &&& (walk.deep_view().len() == 0 || walk.deep_view()[0].path.len() == 0)
                &&& e == FsError::Filesystem
            },
        },
{
    if !logging {
        return Ok(
            TargetDelete {
                epoch,
                walk: Vec::new(),
                ops: vec![FsOp::RemoveDirAll(item.file_path.clone_path())],
                trash_path: FsPath::empty(),
                registered: None,
            },
        );
    }
    if walk.len() == 0 {
        return Err(FsError::Filesystem);
    }
    let base = walk[0].path.len();
    let root_name = match walk[0].path.last_component() {
        Some(n) => n.clone(),
        None => {
            return Err(FsError::Filesystem);
        },
    };
    let tn = make_trash_name(epoch, &root_name);
    let tp = trash_dir.join(&tn);
    let mut ops: Vec<FsOp> = Vec::new();
    ops.push(FsOp::MkDir(tp.clone_path()));
    let mut i: usize = 1;
    while i < walk.len()
        invariant
            1 <= i <= walk.len(),
            walk.deep_view().len() == walk.len(),
            walk.deep_view()[0].path.len() > 0,
            base == walk.deep_view()[0].path.len(),
            tp@ == trash_dir@.push(spec_trash_name(epoch as nat, walk.deep_view()[0].path.last())),
            ops@.len() == i,
            op_is_mkdir(ops@[0], tp@),
            forall|k: int|
                1 <= k < i ==> spec_walk_entry_op(
                    #[trigger] ops@[k],
                    walk.deep_view()[k],
                    tp@,
                    base as int,
                ),
        decreases walk.len() - i,
    {
        let rel = walk[i].path.suffix_from(base);
        let target = tp.join_all(&rel);
        if walk[i].is_dir {
            ops.push(FsOp::MkDirAll(target));
        } else {
            ops.push(FsOp::CopyFile { from: walk[i].path.clone_path(), to: target });
        }
        assert(spec_walk_entry_op(ops@[i as int], walk.deep_view()[i as int], tp@, base as int));
        i = i + 1;
    }
    ops.push(FsOp::RemoveDirAll(item.file_path.clone_path()));
    let mut reg = item.duplicate();
    reg.file_name = tn;
    reg.file_path = tp.clone_path();
    reg.selected = false;
    Ok(TargetDelete { epoch, walk, ops, trash_path: tp, registered: Some(reg) })
}

/// The plan for pasting one target.
pub struct TargetPut {
    /// The walked subtree this plan was computed from (directories
    /// only; empty for files and symlinks).
    pub walk: Vec<WalkItem>,
    /// The steps to execute, in order.
    pub ops: Vec<FsOp>,
    /// The path the paste produces for this target.
    pub produced: FsPath,
}

/// The candidate name a pasted item asks for: its own name, except that
/// an item lying directly in the trash directory carries the timestamp
/// prefix, which is stripped so the restored name matches the
/// pre-deletion original.
pub open spec fn spec_put_candidate(item: ItemView, trash_dir: Seq<Seq<char>>) -> Seq<char> {
    if item.file_path.len() == trash_dir.len() + 1 && item.file_path.drop_last() == trash_dir {
        spec_strip_trash_prefix(item.file_name)
    } else {
        item.file_name
    }
}

/// How collision resolution relates the name set before and after: the
/// chosen name was free, is now taken, begins with the candidate, and
/// is the candidate itself whenever that was free.
pub open spec fn spec_resolved(
    cand: Seq<char>,
    taken0: Seq<Seq<char>>,
    taken1: Seq<Seq<char>>,
    rn: Seq<char>,
) -> bool {
    &&& !spec_name_in(taken0, rn)
    &&& taken1 == taken0.push(rn)
    &&& is_prefix(cand, rn)
    &&& (!spec_name_in(taken0, cand) ==> rn == cand)
}

/// The paste plan for a file or symlink: one copy into the destination
/// under the resolved name.
pub open spec fn spec_target_put_file(
    t: TargetPut,
    item: ItemView,
    dest: Seq<Seq<char>>,
    rn: Seq<char>,
) -> bool {
    &&& t.produced@ == dest.push(rn)
    &&& t.ops@.len() == 1
    &&& op_is_copy(t.ops@[0], item.file_path, t.produced@)
}

/// The paste plan for a directory: its root is created in the
/// destination under the resolved name, and every further walked entry
/// is recreated or copied at its original relative path below it.  The
/// source is never removed.
pub open spec fn spec_target_put_dir(
    t: TargetPut,
    item: ItemView,
    dest: Seq<Seq<char>>,
    rn: Seq<char>,
) -> bool {
    let w = t.walk.deep_view();
    &&& w.len() > 0
    &&& t.produced@ == dest.push(rn)
    &&& t.ops@.len() == w.len()
    &&& op_is_mkdir(t.ops@[0], t.produced@)
    &&& forall|i: int|
        1 <= i < w.len() ==> spec_walk_entry_op(
            #[trigger] t.ops@[i],
            w[i],
            t.produced@,
            w[0].path.len() as int,
        )
}

/// Picks the candidate name for a pasted item, stripping the timestamp
/// prefix when the item comes from the trash directory.
fn put_candidate(item: &ItemInfo, trash_dir: &FsPath) -> (r: String)
    ensures
        r@ == spec_put_candidate(item@, trash_dir@),
{
    if item.file_path.is_directly_inside(trash_dir) {
        crate::trash::strip_trash_prefix(&item.file_name)
    } else {
        item.file_name.clone()
    }
}

/// Plans the paste of one file or symlink into `dest`, resolving its
/// name against (and recording it in) `taken`.
pub fn plan_put_file(
    item: &ItemInfo,
    dest: &FsPath,
    trash_dir: &FsPath,
    taken: &mut NameSet,
) -> (t: TargetPut)
    requires
        !(item@.file_type is Directory),
    ensures
        t.produced@.len() == dest@.len() + 1,
        spec_resolved(
            spec_put_candidate(item@, trash_dir@),
            old(taken)@,
            final(taken)@,
            t.produced@.last(),
        ),
        spec_target_put_file(t, item@, dest@, t.produced@.last()),
{
    let cand = put_candidate(item, trash_dir);
    let rn = resolve_name(cand, taken);
    let produced = dest.join(&rn);
    let t = TargetPut {
        walk: Vec::new(),
        ops: vec![FsOp::CopyFile { from: item.file_path.clone_path(), to: produced.clone_path() }],
        produced,
    };
    t
}

/// Plans the paste of one directory into `dest` from its walked
/// subtree, resolving its name against (and recording it in) `taken`.
pub fn plan_put_dir(
    item: &ItemInfo,
    dest: &FsPath,
    trash_dir: &FsPath,
    walk: Vec<WalkItem>,
    taken: &mut NameSet,
) -> (r: Result<TargetPut, FsError>)
    requires
        item@.file_type is Directory,
    ensures
        match r {
            Ok(t) => {
                &&& t.walk@ == walk@
                &&& t.produced@.len() == dest@.len() + 1
                &&& spec_resolved(
                    spec_put_candidate(item@, trash_dir@),
                    old(taken)@,
                    final(taken)@,
                    t.produced@.last(),
                )
                &&& spec_target_put_dir(t, item@, dest@, t.produced@.last())
            },
            Err(e) => {
                &&& walk.deep_view().len() == 0
                &&& e == FsError::Filesystem
                &&& final(taken)@ == old(taken)@
            },
        },
{
    if walk.len() == 0 {
        return Err(FsError::Filesystem);
    }
    let base = walk[0].path.len();
    let cand = put_candidate(item, trash_dir);
    let rn = resolve_name(cand, taken);
    let produced = dest.join(&rn);
    let mut ops: Vec<FsOp> = Vec::new();
    ops.push(FsOp::MkDir(produced.clone_path()));
    let mut i: usize = 1;
    while i < walk.len()
        invariant
            1 <= i <= walk.len(),
            walk.deep_view().len() == walk.len(),
            base == walk.deep_view()[0].path.len(),
            ops@.len() == i,
            op_is_mkdir(ops@[0], produced@),
            forall|k: int|
                1 <= k < i ==> spec_walk_entry_op(
                    #[trigger] ops@[k],
                    walk.deep_view()[k],
                    produced@,
                    base as int,
                ),
        decreases walk.len() - i,
    {
        let rel = walk[i].path.suffix_from(base);
        let target = produced.join_all(&rel);
        if walk[i].is_dir {
            ops.push(FsOp::MkDirAll(target));
        } else {
            ops.push(FsOp::CopyFile { from: walk[i].path.clone_path(), to: target });
        }
        assert(spec_walk_entry_op(
            ops@[i as int],
            walk.deep_view()[i as int],
            produced@,
            base as int,
        ));
        i = i + 1;
    }
    Ok(TargetPut { walk, ops, produced })
}

/// The paste plan for one target of any kind, under its resolved name.
pub open spec fn spec_target_put(t: TargetPut, item: ItemView, dest: Seq<Seq<char>>) -> bool {
    &&& t.produced@.len() == dest.len() + 1
    &&& if item.file_type is Directory {
        spec_target_put_dir(t, item, dest, t.produced@.last())
    } else {
        spec_target_put_file(t, item, dest, t.produced@.last())
    }
}

/// The trash paths of a batch of delete plans, in target order.
pub open spec fn spec_trash_of(parts: Seq<TargetDelete>) -> Seq<Seq<Seq<char>>> {
    parts.map_values(|t: TargetDelete| t.trash_path@)
}

/// The clipboard snapshots a batch of delete plans yields, in target
/// order, one per target that trashed content.
pub open spec fn spec_registered_of(parts: Seq<TargetDelete>) -> Seq<ItemView>
    decreases parts.len(),
{
    if parts.len() == 0 {
        Seq::empty()
    } else {
        spec_registered_of(parts.drop_last()) + match parts.last().registered {
            Some(reg) => seq![reg@],
            None => Seq::empty(),
        }
    }
}

/// Restoring an item that lies directly in the trash directory under a
/// stored name `<ten-digit-epoch>_<name>` produces a name that begins
/// with `<name>` — the prefix is stripped before collision resolution,
/// and collision suffixes only append to the candidate.  When `<name>`
/// is free in the destination, the restored name is `<name>` exactly.
pub proof fn lemma_restore_name_prefix(
    item: ItemView,
    trash_dir: Seq<Seq<char>>,
    epoch: nat,
    orig: Seq<char>,
    taken0: Seq<Seq<char>>,
    taken1: Seq<Seq<char>>,
    rn: Seq<char>,
)
    requires
        item.file_path.len() == trash_dir.len() + 1,
        item.file_path.drop_last() == trash_dir,
        item.file_name == spec_trash_name(epoch, orig),
        1000000000 <= epoch < 10000000000,
        spec_resolved(spec_put_candidate(item, trash_dir), taken0, taken1, rn),
    ensures
        is_prefix(orig, rn),
        !spec_name_in(taken0, orig) ==> rn == orig,
{
    lemma_trash_name_round_trip(epoch, orig);
    assert(spec_put_candidate(item, trash_dir) == orig);
}

/// Deleting a file and then restoring its trash entry into the
/// directory it came from lands on the original path under the original
/// name: the restore's one copy reads the very trash path the delete
/// wrote, so the bytes carried are those the delete preserved.
///
/// `restored` is the trash entry as re-read from the trash directory;
/// the original name must be free again in the destination (it is — the
/// delete removed it) and the epoch must have ten digits, as every
/// timestamp between 2001 and 2286 does.  A clock outside that range
/// breaks the fixed-width prefix contract itself and is excluded here:
/// at epoch 999999999 the stored name has a nine-digit prefix, and the
/// constant-length strip would eat the first character of the name.
pub proof fn lemma_delete_then_restore_file(
    t: TargetDelete,
    item: ItemView,
    trash_dir: Seq<Seq<char>>,
    p: TargetPut,
    restored: ItemView,
    dir: Seq<Seq<char>>,
    taken0: Seq<Seq<char>>,
    taken1: Seq<Seq<char>>,
)
    requires
        item.file_type is File,
        item.file_path == dir.push(item.file_name),
        1000000000 <= t.epoch < 10000000000,
        spec_target_delete_file(t, item, trash_dir, true, true),
        restored.file_name == spec_trash_name(t.epoch as nat, item.file_name),
        restored.file_path == trash_dir.push(restored.file_name),
        !(restored.file_type is Directory),
        !spec_name_in(taken0, item.file_name),
        spec_resolved(spec_put_candidate(restored, trash_dir), taken0, taken1, p.produced@.last()),
        spec_target_put_file(p, restored, dir, p.produced@.last()),
    ensures
        p.produced@ == item.file_path,
        op_is_copy(p.ops@[0], t.trash_path@, item.file_path),
{
    assert(restored.file_path.drop_last() =~= trash_dir);
    lemma_trash_name_round_trip(t.epoch as nat, item.file_name);
    assert(spec_put_candidate(restored, trash_dir) == item.file_name);
    assert(p.produced@.last() == item.file_name);
    assert(p.produced@ =~= item.file_path);
    assert(t.trash_path@ == restored.file_path);
}

/// Deleting a directory subtree and then restoring its trash copy into
/// the directory it came from reconstructs every nested entry at its
/// original path: entry `j` of the restore walk, lying at relative path
/// `rel` below the trash root, is recreated or copied to the original
/// root joined with `rel` — the path the entry had before the delete.
/// That the restore walk mirrors what the delete wrote (every entry of
/// it lies below the trash root at the relative path the delete copied
/// to) is a fact about the disk between the two calls; it stands as a
/// hypothesis, since only the executor can witness it.  The ten-digit
/// epoch bound excludes clocks before 2001, for which the fixed-width
/// prefix strip would not return the original name.
pub proof fn lemma_delete_then_restore_dir(
    t: TargetDelete,
    item: ItemView,
    trash_dir: Seq<Seq<char>>,
    p: TargetPut,
    restored: ItemView,
    dir: Seq<Seq<char>>,
    taken0: Seq<Seq<char>>,
    taken1: Seq<Seq<char>>,
    j: int,
    rel: Seq<Seq<char>>,
)
    requires
        item.file_type is Directory,
        item.file_path == dir.push(item.file_name),
        1000000000 <= t.epoch < 10000000000,
        spec_target_delete_dir(t, item, trash_dir, true),
        t.walk.deep_view()[0].path == item.file_path,
        restored.file_name == spec_trash_name(t.epoch as nat, item.file_name),
        restored.file_path == trash_dir.push(restored.file_name),
        restored.file_type is Directory,
        !spec_name_in(taken0, item.file_name),
        spec_resolved(spec_put_candidate(restored, trash_dir), taken0, taken1, p.produced@.last()),
        spec_target_put_dir(p, restored, dir, p.produced@.last()),
        p.walk.deep_view()[0].path == restored.file_path,
        0 < j < p.walk.deep_view().len(),
        p.walk.deep_view()[j].path == restored.file_path + rel,
    ensures
        p.produced@ == item.file_path,
        spec_walk_entry_op(
            p.ops@[j],
            p.walk.deep_view()[j],
            item.file_path,
            p.walk.deep_view()[0].path.len() as int,
        ),
        p.produced@ + drop_base(
            p.walk.deep_view()[j].path,
            p.walk.deep_view()[0].path.len() as int,
        ) == item.file_path + rel,
{
    assert(restored.file_path.drop_last() =~= trash_dir);
    lemma_trash_name_round_trip(t.epoch as nat, item.file_name);
    assert(spec_put_candidate(restored, trash_dir) == item.file_name);
    assert(p.produced@.last() == item.file_name);
    assert(p.produced@ =~= item.file_path);
    crate::fspath::lemma_drop_base_of_concat(restored.file_path, rel);
}

/// The operations that invert a logged paste: each produced path is
/// removed again — a subtree removal where a directory was pasted, a
/// file removal otherwise.
pub fn put_removal_ops(record: &crate::manip::PutFiles) -> (ops: Vec<FsOp>)
    requires
        record.original@.len() == record.put@.len(),
    ensures
        ops@.len() == record.put@.len(),
        forall|i: int|
            0 <= i < ops@.len() ==> if record.original.deep_view()[i].file_type is Directory {
                op_is_remove_dir_all(#[trigger] ops@[i], record.put.deep_view()[i])
            } else {
                op_is_remove_file(ops@[i], record.put.deep_view()[i])
            },
{
    let mut ops: Vec<FsOp> = Vec::new();
    let mut i: usize = 0;
    while i < record.put.len()
        invariant
            i <= record.put.len(),
            record.original@.len() == record.put@.len(),
            record.put@.len() == record.put.len(),
            ops@.len() == i,
            forall|k: int|
                0 <= k < i ==> if record.original.deep_view()[k].file_type is Directory {
                    op_is_remove_dir_all(#[trigger] ops@[k], record.put.deep_view()[k])
                } else {
                    op_is_remove_file(ops@[k], record.put.deep_view()[k])
                },
        decreases record.put.len() - i,
    {
        if matches!(record.original[i].file_type, FileType::Directory) {
            ops.push(FsOp::RemoveDirAll(record.put[i].clone_path()));
        } else {
            ops.push(FsOp::RemoveFile(record.put[i].clone_path()));
        }
        i = i + 1;
    }
    ops
}

/// Whether `ops` removes, in order, exactly the non-empty trash paths,
/// each as a subtree when the deleted item was a directory and as a
/// file otherwise.  An empty trash path (a broken symlink, which left
/// no trash copy) contributes no operation.
pub open spec fn spec_removals_ok(
    trash: Seq<Seq<Seq<char>>>,
    kinds: Seq<FileType>,
    ops: Seq<FsOp>,
) -> bool
    decreases trash.len(),
{
    if trash.len() == 0 {
        ops.len() == 0
    } else if trash.last().len() == 0 {
        spec_removals_ok(trash.drop_last(), kinds.drop_last(), ops)
    } else {
        &&& ops.len() > 0
        &&& if kinds.last() is Directory {
            op_is_remove_dir_all(ops.last(), trash.last())
        } else {
            op_is_remove_file(ops.last(), trash.last())
        }
        &&& spec_removals_ok(trash.drop_last(), kinds.drop_last(), ops.drop_last())
    }
}

/// The operations that clear the trash copies of a delete record once
/// its undo has restored them: the second half of the restore's
/// copy-then-remove-from-trash.
pub fn trash_removal_ops(record: &crate::manip::DeletedFiles) -> (ops: Vec<FsOp>)
    requires
        record.original@.len() == record.trash@.len(),
    ensures
        spec_removals_ok(
            record.trash.deep_view(),
            record.original.deep_view().map_values(|v: ItemView| v.file_type),
            ops@,
        ),
{
    let ghost trash = record.trash.deep_view();
    let ghost kinds = record.original.deep_view().map_values(|v: ItemView| v.file_type);
    let mut ops: Vec<FsOp> = Vec::new();
    let mut i: usize = 0;
    while i < record.trash.len()
        invariant
            i <= record.trash.len(),
            trash == record.trash.deep_view(),
            kinds == record.original.deep_view().map_values(|v: ItemView| v.file_type),
            record.original@.len() == record.trash@.len(),
            record.trash@.len() == record.trash.len(),
            trash.len() == record.trash.len(),
            kinds.len() == trash.len(),
            spec_removals_ok(trash.take(i as int), kinds.take(i as int), ops@),
        decreases record.trash.len() - i,
    {
        proof {
            assert(trash.take(i + 1 as int).drop_last() =~= trash.take(i as int));
            assert(kinds.take(i + 1 as int).drop_last() =~= kinds.take(i as int));
            assert(trash.take(i + 1 as int).last() == trash[i as int]);
            assert(kinds.take(i + 1 as int).last() == kinds[i as int]);
        }
        if record.trash[i].len() > 0 {
            let ghost pre = ops@;
            if matches!(record.original[i].file_type, FileType::Directory) {
                ops.push(FsOp::RemoveDirAll(record.trash[i].clone_path()));
            } else {
                ops.push(FsOp::RemoveFile(record.trash[i].clone_path()));
            }
            proof {
                assert(ops@.drop_last() =~= pre);
                assert(kinds[i as int] == record.original.deep_view()[i as int].file_type);
                assert(trash[i as int] == record.trash@[i as int]@);
            }
        }
        i = i + 1;
    }
    proof {
        assert(trash.take(record.trash.len() as int) =~= trash);
        assert(kinds.take(record.trash.len() as int) =~= kinds);
    }
    ops
}

/// The operation that inverts a logged rename: renaming the new path
/// back to the original one.
pub fn rename_undo_op(record: &crate::manip::RenamedFile) -> (op: FsOp)
    ensures
        op_is_rename(op, record.new_name@, record.original_name@),
{
    FsOp::Rename {
        from: record.new_name.clone_path(),
        to: record.original_name.clone_path(),
    }
}

/// The operation that re-applies a logged rename.
pub fn rename_redo_op(record: &crate::manip::RenamedFile) -> (op: FsOp)
    ensures
        op_is_rename(op, record.original_name@, record.new_name@),
{
    FsOp::Rename {
        from: record.original_name.clone_path(),
        to: record.new_name.clone_path(),
    }
}

/// Which of the five coarse indicator stages a recursive walk is in
/// after `current` of `total` entries: stage `s` is entered once more
/// than `s` fifths of the total are done.
pub open spec fn spec_progress_stage(current: nat, total: nat) -> nat {
    let unit = total / 5;
    if current > 4 * unit {
        4
    } else if current > 3 * unit {
        3
    } else if current > 2 * unit {
        2
    } else if current > unit {
        1
    } else {
        0
    }
}

/// Maps a walk position to the coarse progress stage to display.
pub fn progress_stage(current: usize, total: usize) -> (s: u8)
    ensures
        s as nat == spec_progress_stage(current as nat, total as nat),
        s <= 4,
{
    let unit = total / 5;
    assert(4 * (unit as int) <= total) by {
        assert(unit == total / 5);
    }
    if current > 4 * unit {
        4
    } else if current > 3 * unit {
        3
    } else if current > 2 * unit {
        2
    } else if current > unit {
        1
    } else {
        0
    }
}

} // verus!
