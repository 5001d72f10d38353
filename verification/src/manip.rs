//! The manipulation log: an append-only history of reversible
//! operations plus a count of how many trailing records are currently
//! undone (and hence redoable).

use vstd::prelude::*;
use crate::errors::FsError;
use crate::fspath::FsPath;
use crate::item::ItemInfo;

verus! {

/// Inverting a rename needs only the two paths.
#[derive(Clone, Debug)]
pub struct RenamedFile {
    pub original_name: FsPath,
    pub new_name: FsPath,
}

/// A paste that was logged: the items pasted, the paths produced for
/// them, and the destination directory.
#[derive(Clone, Debug)]
pub struct PutFiles {
    pub original: Vec<ItemInfo>,
    pub put: Vec<FsPath>,
    pub dir: FsPath,
}

/// A deletion that was logged: where the content went in the trash,
/// the pre-deletion snapshots, and the directory it was deleted from.
#[derive(Clone, Debug)]
pub struct DeletedFiles {
    pub trash: Vec<FsPath>,
    pub original: Vec<ItemInfo>,
    pub dir: FsPath,
}

/// One logged, invertible operation.
#[derive(Clone, Debug)]
pub enum ManipKind {
    Delete(DeletedFiles),
    Put(PutFiles),
    Rename(RenamedFile),
}

/// The log: records in the order they were committed, and the number of
/// trailing records currently undone.  The first
/// `manip_list.len() - count` records are active history; the last
/// `count` are redoable.
pub struct Manipulation {
    pub count: usize,
    pub manip_list: Vec<ManipKind>,
}

impl Manipulation {
    /// The undone tail never exceeds the log.
    pub open spec fn wf(&self) -> bool {
        self.count <= self.manip_list@.len()
    }

    pub open spec fn spec_can_undo(&self) -> bool {
        self.count < self.manip_list@.len()
    }

    pub open spec fn spec_can_redo(&self) -> bool {
        self.count > 0
    }

    /// Index of the record the next undo applies to.
    pub open spec fn spec_undo_index(&self) -> int {
        self.manip_list@.len() - self.count - 1
    }

    /// Index of the record the next redo applies to.
    pub open spec fn spec_redo_index(&self) -> int {
        self.manip_list@.len() - self.count
    }

    pub fn new() -> (r: Manipulation)
        ensures
            r.manip_list@.len() == 0,
            r.count == 0,
            r.wf(),
    {
        Manipulation { count: 0, manip_list: Vec::new() }
    }
}

/// How one `append` relates the log before and after: the redoable tail
/// is discarded for good, the new record goes on the end, and nothing
/// is left undone.
pub open spec fn spec_append(pre: Manipulation, rec: ManipKind, post: Manipulation) -> bool {
    &&& post.manip_list@ == pre.manip_list@.take(
        pre.manip_list@.len() - pre.count,
    ).push(rec)
    &&& post.count == 0
}

/// How a successful undo relates the log before and after: the records
/// stay, one more of them counts as undone.
pub open spec fn spec_undone(pre: Manipulation, post: Manipulation) -> bool {
    &&& post.manip_list == pre.manip_list
    &&& post.count == pre.count + 1
}

/// How a successful redo relates the log before and after.
pub open spec fn spec_redone(pre: Manipulation, post: Manipulation) -> bool {
    &&& post.manip_list == pre.manip_list
    &&& post.count == pre.count - 1
}

impl Manipulation {
    /// Discards the undone (redoable) tail of the log.  Called before a
    /// new record is pushed: a fresh operation after an undo forks the
    /// history, and the abandoned branch cannot be redone.
    pub fn branch(&mut self)
        requires
            old(self).wf(),
        ensures
            final(self).manip_list@ == old(self).manip_list@.take(
                old(self).manip_list@.len() - old(self).count,
            ),
            final(self).count == 0,
            final(self).wf(),
    {
        let keep = self.manip_list.len() - self.count;
        self.manip_list.truncate(keep);
        self.count = 0;
    }

    /// Appends a freshly committed record, discarding the redoable tail
    /// first.
    pub fn append(&mut self, rec: ManipKind)
        requires
            old(self).wf(),
        ensures
            spec_append(*old(self), rec, *final(self)),
            final(self).wf(),
    {
        self.branch();
        self.manip_list.push(rec);
        self.count = 0;
    }

    /// The record the next undo must invert: fails with `NothingToUndo`
    /// exactly when every record is already undone (or the log is
    /// empty).
    pub fn undo_target(&self) -> (r: Result<&ManipKind, FsError>)
        requires
            self.wf(),
        ensures
            match r {
                Ok(k) => self.spec_can_undo() && *k == self.manip_list@[self.spec_undo_index()],
                Err(e) => !self.spec_can_undo() && e == FsError::NothingToUndo,
            },
    {
        if self.manip_list.len() - self.count == 0 {
            Err(FsError::NothingToUndo)
        } else {
            Ok(&self.manip_list[self.manip_list.len() - self.count - 1])
        }
    }

    /// The record the next redo must re-apply: fails with
    /// `NothingToRedo` exactly when nothing is undone.
    pub fn redo_target(&self) -> (r: Result<&ManipKind, FsError>)
        requires
            self.wf(),
        ensures
            match r {
                Ok(k) => self.spec_can_redo() && *k == self.manip_list@[self.spec_redo_index()],
                Err(e) => !self.spec_can_redo() && e == FsError::NothingToRedo,
            },
    {
        if self.count == 0 {
            Err(FsError::NothingToRedo)
        } else {
            Ok(&self.manip_list[self.manip_list.len() - self.count])
        }
    }

    /// Records that the undo of the current target succeeded on disk.
    /// On a filesystem failure this is never called, so the pointer is
    /// left where it was and the same undo can be retried.
    pub fn commit_undo(&mut self)
        requires
            old(self).wf(),
            old(self).spec_can_undo(),
        ensures
            spec_undone(*old(self), *final(self)),
            final(self).wf(),
    {
        let n = self.manip_list.len();
        assert(self.count < n);
        self.count = self.count + 1;
    }

    /// Records that the redo of the current target succeeded on disk.
    pub fn commit_redo(&mut self)
        requires
            old(self).wf(),
            old(self).spec_can_redo(),
        ensures
            spec_redone(*old(self), *final(self)),
            final(self).wf(),
    {
        self.count = self.count - 1;
    }
}

/// Branch truncation: after a record A is appended, undone, and another
/// record B appended, nothing is redoable — A's redo slot was discarded
/// — and the log is the old history with B at the end, A gone.
pub proof fn lemma_branch_truncation(
    m0: Manipulation,
    m1: Manipulation,
    m2: Manipulation,
    m3: Manipulation,
    a: ManipKind,
    b: ManipKind,
)
    requires
        m0.wf(),
        spec_append(m0, a, m1),
        spec_undone(m1, m2),
        spec_append(m2, b, m3),
    ensures
        !m3.spec_can_redo(),
        m3.manip_list@ == m0.manip_list@.take(m0.manip_list@.len() - m0.count).push(b),
{
    let t0 = m0.manip_list@.take(m0.manip_list@.len() - m0.count);
    assert(m1.manip_list@ == t0.push(a));
    assert(m2.manip_list@.len() == t0.len() + 1);
    assert(m2.count == 1);
    assert(m2.manip_list@.take(m2.manip_list@.len() - m2.count) =~= t0);
    assert(m3.manip_list@ == t0.push(b));
}

/// On an empty log there is nothing to undo, and after the failed undo
/// — which changes nothing — there is nothing to redo either.
pub proof fn lemma_empty_log(m: Manipulation)
    requires
        m.wf(),
        m.manip_list@.len() == 0,
    ensures
        !m.spec_can_undo(),
        !m.spec_can_redo(),
{
}

} // verus!
