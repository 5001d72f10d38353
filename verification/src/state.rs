//! The engine's state: the current listing, the clipboard, the
//! manipulation log, and the engines that plan deletion, pasting and
//! renaming over them.
//!
//! Methods that need the disk return plans ([`crate::plan::FsOp`]
//! lists) for the caller to execute; the matching `commit_*` method is
//! called only after the plan ran successfully, so a failed operation
//! leaves the log and the clipboard exactly as they were.

use vstd::prelude::*;
use crate::errors::FsError;
use crate::fsio;
use crate::fspath::FsPath;
use crate::item::{cleared_items, spec_cleared, FileType, ItemInfo, ItemView, SortKey};
use crate::list::{filter_items, push_items, spec_listing};
use crate::manip::{
    spec_append, spec_redone, spec_undone, DeletedFiles, ManipKind, Manipulation, PutFiles,
    RenamedFile,
};
use crate::names::{lemma_name_in_concat, spec_name_in, NameSet};
use crate::plan::{
    op_is_rename, plan_delete_dir, plan_delete_file, plan_put_dir, plan_put_file,
    spec_registered_of, spec_target_delete, spec_target_delete_dir, spec_target_delete_file,
    spec_target_put, spec_trash_of, FsOp, TargetDelete, TargetPut, WalkItem,
};
use crate::text::{eq_lower_ascii, spec_ascii_lower};

verus! {

/// The engine's whole state.
pub struct State {
    /// The snapshot of the current directory, ordered for display.
    pub list: Vec<ItemInfo>,
    /// The clipboard: what the last yank or delete captured.
    pub registered: Vec<ItemInfo>,
    /// The undo/redo log.
    pub manipulations: Manipulation,
    pub current_dir: FsPath,
    pub trash_dir: FsPath,
    /// Program used to open an item when no extension rule matches.
    pub default: String,
    /// Extension (lower case) to program rules, first match wins.
    pub commands: Vec<(String, String)>,
    pub sort_by: SortKey,
    pub show_hidden: bool,
}

/// The display names of a listing, in order.
pub open spec fn spec_names_of(s: Seq<ItemView>) -> Seq<Seq<char>> {
    s.map_values(|v: ItemView| v.file_name)
}

/// The destination a paste writes into: the explicit directory when one
/// is given, the current directory otherwise.
pub open spec fn spec_dest_of(target_dir: Option<&FsPath>, current: Seq<Seq<char>>) -> Seq<
    Seq<char>,
> {
    match target_dir {
        Some(d) => d@,
        None => current,
    }
}

/// The clipboard after yanking the selected items: their snapshots in
/// listing order, selection flags lowered.
pub open spec fn spec_yanked(s: Seq<ItemView>) -> Seq<ItemView> {
    filter_items(s, |v: ItemView| v.selected).map_values(|v: ItemView| spec_cleared(v))
}

/// First-match lookup among the extension rules.
pub open spec fn spec_lookup(cmds: Seq<(Seq<char>, Seq<char>)>, key: Seq<char>) -> Option<
    Seq<char>,
>
    decreases cmds.len(),
{
    if cmds.len() == 0 {
        None
    } else if cmds[0].0 == key {
        Some(cmds[0].1)
    } else {
        spec_lookup(cmds.skip(1), key)
    }
}

/// The program that opens an item: the rule matching its lower-cased
/// extension, or the default when the item has no extension or no rule
/// matches.
pub open spec fn spec_opener(
    item: ItemView,
    cmds: Seq<(Seq<char>, Seq<char>)>,
    default: Seq<char>,
) -> Seq<char> {
    match item.file_ext {
        Some(e) => match spec_lookup(cmds, spec_ascii_lower(e)) {
            Some(c) => c,
            None => default,
        },
        None => default,
    }
}

/// The produced paths of a batch of paste plans, in target order.
pub open spec fn spec_produced_of(parts: Seq<TargetPut>) -> Seq<Seq<Seq<char>>> {
    parts.map_values(|t: TargetPut| t.produced@)
}

/// The configuration and directory fields that no state operation
/// below ever touches: every `&mut self` method keeps them as they
/// were.
pub open spec fn spec_config_unchanged(pre: State, post: State) -> bool {
    &&& post.current_dir == pre.current_dir
    &&& post.trash_dir == pre.trash_dir
    &&& post.default == pre.default
    &&& post.commands == pre.commands
    &&& post.sort_by == pre.sort_by
    &&& post.show_hidden == pre.show_hidden
}

fn with_selected(item: &ItemInfo, flag: bool) -> (r: ItemInfo)
    ensures
        r@ == (ItemView { selected: flag, ..item@ }),
{
    let mut r = item.duplicate();
    r.selected = flag;
    r
}

impl State {
    pub open spec fn wf(&self) -> bool {
        self.manipulations.wf()
    }

    /// A fresh state over the given directories and configuration: no
    /// listing yet, an empty clipboard, an empty log.
    pub fn new(
        current_dir: FsPath,
        trash_dir: FsPath,
        default: String,
        commands: Vec<(String, String)>,
        sort_by: SortKey,
        show_hidden: bool,
    ) -> (s: State)
        ensures
            s.list@.len() == 0,
            s.registered@.len() == 0,
            s.manipulations.manip_list@.len() == 0,
            s.manipulations.count == 0,
            s.current_dir@ == current_dir@,
            s.trash_dir@ == trash_dir@,
            s.default == default,
            s.commands == commands,
            s.sort_by == sort_by,
            s.show_hidden == show_hidden,
            s.wf(),
    {
        State {
            list: Vec::new(),
            registered: Vec::new(),
            manipulations: Manipulation::new(),
            current_dir,
            trash_dir,
            default,
            commands,
            sort_by,
            show_hidden,
        }
    }

    /// The item at a display index; `NotFound` exactly when the index
    /// is out of range.
    pub fn get_item(&self, index: usize) -> (r: Result<&ItemInfo, FsError>)
        ensures
            match r {
                Ok(item) => index < self.list@.len() && *item == self.list@[index as int],
                Err(e) => index >= self.list@.len() && e == FsError::NotFound,
            },
    {
        if index < self.list.len() {
            Ok(&self.list[index])
        } else {
            Err(FsError::NotFound)
        }
    }

    /// The program to open the item at `index` with: the rule matching
    /// its lower-cased extension, or the default program.
    pub fn opener_for(&self, index: usize) -> (r: Result<String, FsError>)
        ensures
            match r {
                Ok(cmd) => index < self.list@.len() && cmd@ == spec_opener(
                    self.list.deep_view()[index as int],
                    self.commands.deep_view(),
                    self.default@,
                ),
                Err(e) => index >= self.list@.len() && e == FsError::NotFound,
            },
    {
        let item = match self.get_item(index) {
            Ok(it) => it,
            Err(e) => {
                return Err(e);
            },
        };
        assert(item@ == self.list.deep_view()[index as int]);
        match &item.file_ext {
            Some(ext) => {
                let ghost cmds = self.commands.deep_view();
                let ghost key = spec_ascii_lower(ext@);
                proof {
                    assert(cmds.skip(0) =~= cmds);
                }
                let mut j: usize = 0;
                while j < self.commands.len()
                    invariant
                        j <= self.commands.len(),
                        cmds == self.commands.deep_view(),
                        cmds.len() == self.commands.len(),
                        key == spec_ascii_lower(ext@),
                        index < self.list@.len(),
                        item@ == self.list.deep_view()[index as int],
                        item@.file_ext == Some(ext@),
                        spec_lookup(cmds, key) == spec_lookup(cmds.skip(j as int), key),
                    decreases self.commands.len() - j,
                {
                    assert(cmds.skip(j as int)[0] == cmds[j as int]);
                    if eq_lower_ascii(ext.as_str(), self.commands[j].0.as_str()) {
                        proof {
                            assert(cmds[j as int].0 == key);
                            assert(cmds.skip(j as int).len() > 0);
                            assert(spec_lookup(cmds.skip(j as int), key) == Some(
                                cmds[j as int].1,
                            ));
                            assert(cmds[j as int].1 == self.commands@[j as int].1@);
                            assert(item@.file_ext == Some(ext@));
                        }
                        return Ok(self.commands[j].1.clone());
                    }
                    assert(cmds.skip(j as int).skip(1) =~= cmds.skip(j + 1 as int));
                    j = j + 1;
                }
                assert(cmds.skip(self.commands.len() as int) =~= Seq::<
                    (Seq<char>, Seq<char>),
                >::empty());
                Ok(self.default.clone())
            },
            None => Ok(self.default.clone()),
        }
    }

    /// Discards the undone tail of the log; a manipulation committed
    /// after an undo forks the history, and the abandoned branch cannot
    /// be redone.
    pub fn branch_manip(&mut self)
        requires
            old(self).wf(),
        ensures
            final(self).manipulations.manip_list@ == old(self).manipulations.manip_list@.take(
                old(self).manipulations.manip_list@.len() - old(self).manipulations.count,
            ),
            final(self).manipulations.count == 0,
            final(self).list == old(self).list,
            final(self).registered == old(self).registered,
            spec_config_unchanged(*old(self), *final(self)),
            final(self).wf(),
    {
        self.manipulations.branch();
    }

    /// Replaces the clipboard: with the snapshots of all selected items
    /// when `selected` is set, else with the single item at `index`.
    /// Selection flags are lowered on what is stored.
    pub fn yank_item(&mut self, index: usize, selected: bool)
        requires
            old(self).wf(),
            !selected ==> index < old(self).list@.len(),
        ensures
            final(self).registered.deep_view() == if selected {
                spec_yanked(old(self).list.deep_view())
            } else {
                seq![spec_cleared(old(self).list.deep_view()[index as int])]
            },
            final(self).list == old(self).list,
            final(self).manipulations == old(self).manipulations,
            spec_config_unchanged(*old(self), *final(self)),
            final(self).wf(),
    {
        let ghost total = self.list.deep_view();
        let mut reg: Vec<ItemInfo> = Vec::new();
        if selected {
            let mut i: usize = 0;
            while i < self.list.len()
                invariant
                    i <= self.list.len(),
                    total == self.list.deep_view(),
                    total.len() == self.list.len(),
                    reg.deep_view() == spec_yanked(total.take(i as int)),
                decreases self.list.len() - i,
            {
                proof {
                    assert(total.take(i + 1 as int).drop_last() =~= total.take(i as int));
                    assert(total.take(i + 1 as int).last() == total[i as int]);
                }
                if self.list[i].selected {
                    let ghost pre = reg.deep_view();
                    reg.push(self.list[i].cleared_copy());
                    proof {
                        assert(reg.deep_view() =~= pre.push(spec_cleared(total[i as int])));
                        assert(spec_yanked(total.take(i + 1 as int)) =~= pre.push(
                            spec_cleared(total[i as int]),
                        ));
                    }
                } else {
                    proof {
                        assert(spec_yanked(total.take(i + 1 as int)) =~= spec_yanked(
                            total.take(i as int),
                        ));
                    }
                }
                i = i + 1;
            }
            proof {
                assert(total.take(self.list.len() as int) =~= total);
            }
        } else {
            reg.push(self.list[index].cleared_copy());
            assert(reg.deep_view() =~= seq![spec_cleared(total[index as int])]);
        }
        self.registered = reg;
    }

    /// Rebuilds the displayed listing from freshly read entries.
    pub fn update_list(&mut self, entries: &Vec<ItemInfo>)
        requires
            old(self).wf(),
        ensures
            final(self).list.deep_view() == spec_listing(
                old(self).sort_by,
                old(self).show_hidden,
                entries.deep_view(),
            ),
            final(self).registered == old(self).registered,
            final(self).manipulations == old(self).manipulations,
            spec_config_unchanged(*old(self), *final(self)),
            final(self).wf(),
    {
        self.list = push_items(entries, &self.sort_by, self.show_hidden);
    }

    /// Lowers every selection flag in the listing.
    pub fn reset_selection(&mut self)
        requires
            old(self).wf(),
        ensures
            final(self).list.deep_view() == old(self).list.deep_view().map_values(
                |v: ItemView| spec_cleared(v),
            ),
            final(self).registered == old(self).registered,
            final(self).manipulations == old(self).manipulations,
            spec_config_unchanged(*old(self), *final(self)),
            final(self).wf(),
    {
        self.list = cleared_items(&self.list);
    }

    /// Selects the items from the top of the listing down to
    /// `start_pos`, inclusive, and deselects the rest.
    pub fn select_from_top(&mut self, start_pos: usize)
        requires
            old(self).wf(),
        ensures
            final(self).list.deep_view().len() == old(self).list.deep_view().len(),
            forall|i: int|
                0 <= i < old(self).list.deep_view().len() ==> final(self).list.deep_view()[i]
                    == (ItemView {
                    selected: i <= start_pos,
                    ..old(self).list.deep_view()[i]
                }),
            final(self).registered == old(self).registered,
            final(self).manipulations == old(self).manipulations,
            spec_config_unchanged(*old(self), *final(self)),
            final(self).wf(),
    {
        let ghost total = self.list.deep_view();
        let mut out: Vec<ItemInfo> = Vec::new();
        let mut i: usize = 0;
        while i < self.list.len()
            invariant
                i <= self.list.len(),
                total == self.list.deep_view(),
                total.len() == self.list.len(),
                out.deep_view().len() == i,
                forall|j: int|
                    0 <= j < i ==> out.deep_view()[j] == (ItemView {
                        selected: j <= start_pos,
                        ..total[j]
                    }),
            decreases self.list.len() - i,
        {
            let ghost pre = out.deep_view();
            out.push(with_selected(&self.list[i], i <= start_pos));
            proof {
                assert(out.deep_view() =~= pre.push(
                    ItemView { selected: i as int <= start_pos, ..total[i as int] },
                ));
            }
            i = i + 1;
        }
        self.list = out;
    }

    /// Selects the items from `start_pos` to the bottom of the listing
    /// and deselects the rest.
    pub fn select_to_bottom(&mut self, start_pos: usize)
        requires
            old(self).wf(),
        ensures
            final(self).list.deep_view().len() == old(self).list.deep_view().len(),
            forall|i: int|
                0 <= i < old(self).list.deep_view().len() ==> final(self).list.deep_view()[i]
                    == (ItemView {
                    selected: i >= start_pos,
                    ..old(self).list.deep_view()[i]
                }),
            final(self).registered == old(self).registered,
            final(self).manipulations == old(self).manipulations,
            spec_config_unchanged(*old(self), *final(self)),
            final(self).wf(),
    {
        let ghost total = self.list.deep_view();
        let mut out: Vec<ItemInfo> = Vec::new();
        let mut i: usize = 0;
        while i < self.list.len()
            invariant
                i <= self.list.len(),
                total == self.list.deep_view(),
                total.len() == self.list.len(),
                out.deep_view().len() == i,
                forall|j: int|
                    0 <= j < i ==> out.deep_view()[j] == (ItemView {
                        selected: j >= start_pos,
                        ..total[j]
                    }),
            decreases self.list.len() - i,
        {
            let ghost pre = out.deep_view();
            out.push(with_selected(&self.list[i], i >= start_pos));
            proof {
                assert(out.deep_view() =~= pre.push(
                    ItemView { selected: i as int >= start_pos, ..total[i as int] },
                ));
            }
            i = i + 1;
        }
        self.list = out;
    }

    /// Plans the trash-based deletion of one file or symlink into this
    /// state's trash directory.  `on_disk` reports whether the path
    /// currently resolves; a symlink that no longer does is unlinked
    /// without trashing.
    pub fn remove_and_yank_file(
        &self,
        item: &ItemInfo,
        epoch: u64,
        on_disk: bool,
        new_manip: bool,
    ) -> (t: TargetDelete)
        requires
            !(item@.file_type is Directory),
        ensures
            t.epoch == epoch,
            spec_target_delete_file(t, item@, self.trash_dir@, on_disk, new_manip),
    {
        plan_delete_file(item, &self.trash_dir, epoch, on_disk, new_manip)
    }

    /// Plans the trash-based deletion of one directory into this
    /// state's trash directory, from its walked subtree.
    pub fn remove_and_yank_dir(
        &self,
        item: &ItemInfo,
        epoch: u64,
        walk: Vec<WalkItem>,
        new_manip: bool,
    ) -> (r: Result<TargetDelete, FsError>)
        requires
            item@.file_type is Directory,
        ensures
            match r {
                Ok(t) => {
                    &&& t.epoch == epoch
                    &&& (new_manip ==> t.walk@ == walk@)
                    &&& spec_target_delete_dir(t, item@, self.trash_dir@, new_manip)
                },
                Err(e) => {
                    &&& new_manip
                    &&& (walk.deep_view().len() == 0 || walk.deep_view()[0].path.len() == 0)
                    &&& e == FsError::Filesystem
                },
            },
    {
        plan_delete_dir(item, &self.trash_dir, epoch, walk, new_manip)
    }

    /// Plans the trash-based deletion of `targets`, in input order: for
    /// each target the steps that copy its content into the trash (when
    /// `new_manip` asks for a recoverable delete) and then remove the
    /// source.  Nothing is executed and no state changes here; after
    /// the caller has executed the plan it calls
    /// [`State::commit_remove`].
    pub fn remove_and_yank(&self, targets: &Vec<ItemInfo>, new_manip: bool) -> (r: Result<
        Vec<TargetDelete>,
        FsError,
    >)
        ensures
            match r {
                Ok(parts) => {
                    &&& parts@.len() == targets@.len()
                    &&& forall|i: int|
                        0 <= i < parts@.len() ==> spec_target_delete(
                            #[trigger] parts@[i],
                            targets.deep_view()[i],
                            self.trash_dir@,
                            new_manip,
                        )
                },
                Err(e) => {
                    &&& (e == FsError::Filesystem || e == FsError::Encoding)
                    &&& new_manip
                    &&& exists|i: int|
                        0 <= i < targets@.len() && (#[trigger] targets.deep_view()[i]).file_type
                            is Directory
                },
            },
    {
        let mut parts: Vec<TargetDelete> = Vec::new();
        let mut i: usize = 0;
        while i < targets.len()
            invariant
                i <= targets.len(),
                targets.deep_view().len() == targets.len(),
                parts@.len() == i,
                forall|k: int|
                    0 <= k < i ==> spec_target_delete(
                        #[trigger] parts@[k],
                        targets.deep_view()[k],
                        self.trash_dir@,
                        new_manip,
                    ),
            decreases targets.len() - i,
        {
            let item = &targets[i];
            assert(item@ == targets.deep_view()[i as int]);
            let now = fsio::now_epoch_seconds();
            let epoch: u64 = if now < 0 {
                0
            } else {
                now as u64
            };
            if matches!(item.file_type, FileType::Directory) {
                proof {
                    assert((targets.deep_view()[i as int]).file_type is Directory);
                }
                if new_manip {
                    let entries = match fsio::walk_tree(&item.file_path) {
                        Ok(v) => v,
                        Err(e) => {
                            return Err(e);
                        },
                    };
                    let walk = match fsio::convert_entries(&entries) {
                        Ok(v) => v,
                        Err(e) => {
                            return Err(e);
                        },
                    };
                    match self.remove_and_yank_dir(item, epoch, walk, true) {
                        Ok(t) => parts.push(t),
                        Err(e) => {
                            return Err(e);
                        },
                    }
                } else {
                    match self.remove_and_yank_dir(item, epoch, Vec::new(), false) {
                        Ok(t) => parts.push(t),
                        Err(e) => {
                            return Err(e);
                        },
                    }
                }
            } else {
                let on_disk = if matches!(item.file_type, FileType::Symlink) {
                    fsio::path_exists(&item.file_path)
                } else {
                    true
                };
                parts.push(self.remove_and_yank_file(item, epoch, on_disk, new_manip));
            }
            i = i + 1;
        }
        Ok(parts)
    }

    /// Installs the outcome of an executed delete batch: the clipboard
    /// becomes the trash snapshots the plans produced, and when
    /// `new_manip` is set one delete record — the trash paths, the
    /// pre-deletion snapshots (selection lowered) and the source
    /// directory — is appended to the log, discarding the redoable
    /// tail.
    pub fn commit_remove(
        &mut self,
        targets: &Vec<ItemInfo>,
        parts: &Vec<TargetDelete>,
        new_manip: bool,
    )
        requires
            old(self).wf(),
        ensures
            final(self).registered.deep_view() == spec_registered_of(parts@),
            new_manip ==> {
                &&& spec_append(
                    old(self).manipulations,
                    final(self).manipulations.manip_list@.last(),
                    final(self).manipulations,
                )
                &&& match final(self).manipulations.manip_list@.last() {
                    ManipKind::Delete(d) => {
                        &&& d.trash.deep_view() == spec_trash_of(parts@)
                        &&& d.original.deep_view() == targets.deep_view().map_values(
                            |v: ItemView| spec_cleared(v),
                        )
                        &&& d.dir@ == old(self).current_dir@
                    },
                    _ => false,
                }
            },
            !new_manip ==> final(self).manipulations == old(self).manipulations,
            final(self).list == old(self).list,
            spec_config_unchanged(*old(self), *final(self)),
            final(self).wf(),
    {
        let mut reg: Vec<ItemInfo> = Vec::new();
        let mut i: usize = 0;
        while i < parts.len()
            invariant
                i <= parts.len(),
                parts@.len() == parts.len(),
                reg.deep_view() == spec_registered_of(parts@.take(i as int)),
            decreases parts.len() - i,
        {
            proof {
                assert(parts@.take(i + 1 as int).drop_last() =~= parts@.take(i as int));
                assert(parts@.take(i + 1 as int).last() == parts@[i as int]);
            }
            match &parts[i].registered {
                Some(r) => {
                    let ghost pre = reg.deep_view();
                    reg.push(r.duplicate());
                    proof {
                        assert(reg.deep_view() =~= pre.push(parts@[i as int].registered->Some_0@));
                        assert(spec_registered_of(parts@.take(i + 1 as int)) =~= pre.push(
                            parts@[i as int].registered->Some_0@,
                        ));
                    }
                },
                None => {
                    proof {
                        assert(spec_registered_of(parts@.take(i + 1 as int))
                            =~= spec_registered_of(parts@.take(i as int)));
                    }
                },
            }
            i = i + 1;
        }
        proof {
            assert(parts@.take(parts.len() as int) =~= parts@);
        }
        self.registered = reg;
        if new_manip {
            let mut trash: Vec<FsPath> = Vec::new();
            let mut j: usize = 0;
            while j < parts.len()
                invariant
                    j <= parts.len(),
                    parts@.len() == parts.len(),
                    trash.deep_view() == spec_trash_of(parts@.take(j as int)),
                decreases parts.len() - j,
            {
                let ghost pre = trash.deep_view();
                trash.push(parts[j].trash_path.clone_path());
                proof {
                    assert(trash.deep_view() =~= pre.push(parts@[j as int].trash_path@));
                    assert(spec_trash_of(parts@.take(j + 1 as int)) =~= pre.push(
                        parts@[j as int].trash_path@,
                    ));
                }
                j = j + 1;
            }
            proof {
                assert(parts@.take(parts.len() as int) =~= parts@);
            }
            let rec = ManipKind::Delete(
                DeletedFiles {
                    trash,
                    original: cleared_items(targets),
                    dir: self.current_dir.clone_path(),
                },
            );
            self.manipulations.append(rec);
        }
    }

    /// Plans the paste of `targets` into `target_dir` (or into the
    /// current directory when none is given), in input order.  The
    /// taken-name set is seeded from the current listing for an
    /// implicit destination and from a fresh enumeration for an
    /// explicit one; every resolved name is recorded at once, so the
    /// produced names are pairwise distinct and — for an implicit
    /// destination — collide with nothing listed.  Nothing is executed
    /// here; after executing the plans the caller calls
    /// [`State::commit_put`] when and only when the paste was a
    /// user-initiated one into the current directory.
    pub fn put_items(&self, targets: &Vec<ItemInfo>, target_dir: Option<&FsPath>) -> (r: Result<
        Vec<TargetPut>,
        FsError,
    >)
        ensures
            match r {
                Ok(parts) => {
                    &&& parts@.len() == targets@.len()
                    &&& forall|i: int|
                        0 <= i < parts@.len() ==> spec_target_put(
                            #[trigger] parts@[i],
                            targets.deep_view()[i],
                            spec_dest_of(target_dir, self.current_dir@),
                        )
                    &&& forall|i: int, j: int|
                        0 <= i < j < parts@.len() ==> #[trigger] parts@[i].produced@.last()
                            != #[trigger] parts@[j].produced@.last()
                    &&& (target_dir is None ==> forall|i: int|
                        0 <= i < parts@.len() ==> !spec_name_in(
                            spec_names_of(self.list.deep_view()),
                            #[trigger] parts@[i].produced@.last(),
                        ))
                },
                Err(e) => {
                    &&& (e == FsError::Filesystem || e == FsError::Encoding)
                    &&& (target_dir is Some || exists|i: int|
                        0 <= i < targets@.len() && (#[trigger] targets.deep_view()[i]).file_type
                            is Directory)
                },
            },
    {
        let mut taken = match target_dir {
            None => NameSet::from_items(&self.list),
            Some(d) => {
                let entries = match fsio::list_children(d) {
                    Ok(v) => v,
                    Err(e) => {
                        return Err(e);
                    },
                };
                let mut set = NameSet::new();
                let mut j: usize = 0;
                while j < entries.len()
                    decreases entries.len() - j,
                {
                    match fsio::entry_file_name(&entries[j]) {
                        Some(n) => set.insert(n),
                        None => (),
                    }
                    j = j + 1;
                }
                set
            },
        };
        proof {
            if target_dir is None {
                assert(taken@ =~= spec_names_of(self.list.deep_view()));
            }
        }
        let ghost init = taken@;
        let ghost dest_view = spec_dest_of(target_dir, self.current_dir@);
        let mut parts: Vec<TargetPut> = Vec::new();
        let mut i: usize = 0;
        while i < targets.len()
            invariant
                i <= targets.len(),
                targets.deep_view().len() == targets.len(),
                parts@.len() == i,
                dest_view == spec_dest_of(target_dir, self.current_dir@),
                taken@ == init + parts@.map_values(|t: TargetPut| t.produced@.last()),
                forall|k: int|
                    0 <= k < i ==> spec_target_put(
                        #[trigger] parts@[k],
                        targets.deep_view()[k],
                        dest_view,
                    ),
                forall|k: int|
                    0 <= k < i ==> !spec_name_in(init, #[trigger] parts@[k].produced@.last()),
                forall|k1: int, k2: int|
                    0 <= k1 < k2 < i ==> #[trigger] parts@[k1].produced@.last()
                        != #[trigger] parts@[k2].produced@.last(),
            decreases targets.len() - i,
        {
            let item = &targets[i];
            assert(item@ == targets.deep_view()[i as int]);
            let dest: &FsPath = match target_dir {
                Some(d) => d,
                None => &self.current_dir,
            };
            let ghost taken_before = taken@;
            let ghost prev_names = parts@.map_values(|t: TargetPut| t.produced@.last());
            let t = if matches!(item.file_type, FileType::Directory) {
                proof {
                    assert((targets.deep_view()[i as int]).file_type is Directory);
                }
                let entries = match fsio::walk_tree(&item.file_path) {
                    Ok(v) => v,
                    Err(e) => {
                        return Err(e);
                    },
                };
                let walk = match fsio::convert_entries(&entries) {
                    Ok(v) => v,
                    Err(e) => {
                        return Err(e);
                    },
                };
                match plan_put_dir(item, dest, &self.trash_dir, walk, &mut taken) {
                    Ok(t) => t,
                    Err(e) => {
                        return Err(e);
                    },
                }
            } else {
                plan_put_file(item, dest, &self.trash_dir, &mut taken)
            };
            proof {
                let rn = t.produced@.last();
                lemma_name_in_concat(init, prev_names, rn);
                assert(!spec_name_in(init, rn));
                assert(!spec_name_in(prev_names, rn));
                assert(forall|k: int|
                    0 <= k < i ==> prev_names[k] == #[trigger] parts@[k].produced@.last());
            }
            let ghost rn = t.produced@.last();
            parts.push(t);
            proof {
                assert(parts@.map_values(|t: TargetPut| t.produced@.last()) =~= prev_names.push(
                    rn,
                ));
                assert(taken@ =~= init + prev_names.push(rn));
            }
            i = i + 1;
        }
        Ok(parts)
    }

    /// Installs the outcome of an executed user-initiated paste into
    /// the current directory: one put record — the pasted snapshots
    /// (selection lowered), the produced paths and the destination
    /// directory — is appended to the log, discarding the redoable
    /// tail.  A paste that replays or inverts another record is never
    /// committed here: it must not pollute the history it serves.
    pub fn commit_put(&mut self, targets: &Vec<ItemInfo>, parts: &Vec<TargetPut>)
        requires
            old(self).wf(),
        ensures
            spec_append(
                old(self).manipulations,
                final(self).manipulations.manip_list@.last(),
                final(self).manipulations,
            ),
            match final(self).manipulations.manip_list@.last() {
                ManipKind::Put(p) => {
                    &&& p.put.deep_view() == spec_produced_of(parts@)
                    &&& p.original.deep_view() == targets.deep_view().map_values(
                        |v: ItemView| spec_cleared(v),
                    )
                    &&& p.dir@ == old(self).current_dir@
                },
                _ => false,
            },
            final(self).list == old(self).list,
            final(self).registered == old(self).registered,
            spec_config_unchanged(*old(self), *final(self)),
            final(self).wf(),
    {
        let mut put: Vec<FsPath> = Vec::new();
        let mut j: usize = 0;
        while j < parts.len()
            invariant
                j <= parts.len(),
                parts@.len() == parts.len(),
                put.deep_view() == spec_produced_of(parts@.take(j as int)),
            decreases parts.len() - j,
        {
            let ghost pre = put.deep_view();
            put.push(parts[j].produced.clone_path());
            proof {
                assert(put.deep_view() =~= pre.push(parts@[j as int].produced@));
                assert(spec_produced_of(parts@.take(j + 1 as int)) =~= pre.push(
                    parts@[j as int].produced@,
                ));
            }
            j = j + 1;
        }
        proof {
            assert(parts@.take(parts.len() as int) =~= parts@);
        }
        let rec = ManipKind::Put(
            PutFiles {
                original: cleared_items(targets),
                put,
                dir: self.current_dir.clone_path(),
            },
        );
        self.manipulations.append(rec);
    }

    /// Plans a rename of `item` to `new_name` within its directory and
    /// the record that makes it undoable.  After executing the
    /// operation the caller hands the record to
    /// [`State::commit_rename`].
    pub fn plan_rename(item: &ItemInfo, new_name: &String) -> (r: (FsOp, RenamedFile))
        requires
            item@.file_path.len() > 0,
        ensures
            op_is_rename(r.0, item@.file_path, item@.file_path.drop_last().push(new_name@)),
            r.1.original_name@ == item@.file_path,
            r.1.new_name@ == item@.file_path.drop_last().push(new_name@),
    {
        let to = item.file_path.with_last(new_name);
        let op = FsOp::Rename { from: item.file_path.clone_path(), to: to.clone_path() };
        (op, RenamedFile { original_name: item.file_path.clone_path(), new_name: to })
    }

    /// Installs an executed rename in the log, discarding the redoable
    /// tail.
    pub fn commit_rename(&mut self, record: RenamedFile)
        requires
            old(self).wf(),
        ensures
            spec_append(
                old(self).manipulations,
                ManipKind::Rename(record),
                final(self).manipulations,
            ),
            final(self).list == old(self).list,
            final(self).registered == old(self).registered,
            spec_config_unchanged(*old(self), *final(self)),
            final(self).wf(),
    {
        self.manipulations.append(ManipKind::Rename(record));
    }

    /// The record the next undo must invert; `NothingToUndo` exactly
    /// when no active record is left.  The log itself is untouched: a
    /// failed undo leaves everything as it was, and only
    /// [`State::commit_undo`] — called once the inverse ran on disk —
    /// advances the pointer.
    pub fn undo_target(&self) -> (r: Result<&ManipKind, FsError>)
        requires
            self.wf(),
        ensures
            match r {
                Ok(k) => self.manipulations.spec_can_undo() && *k
                    == self.manipulations.manip_list@[self.manipulations.spec_undo_index()],
                Err(e) => !self.manipulations.spec_can_undo() && e == FsError::NothingToUndo,
            },
    {
        self.manipulations.undo_target()
    }

    /// The record the next redo must re-apply; `NothingToRedo` exactly
    /// when nothing is undone.
    pub fn redo_target(&self) -> (r: Result<&ManipKind, FsError>)
        requires
            self.wf(),
        ensures
            match r {
                Ok(k) => self.manipulations.spec_can_redo() && *k
                    == self.manipulations.manip_list@[self.manipulations.spec_redo_index()],
                Err(e) => !self.manipulations.spec_can_redo() && e == FsError::NothingToRedo,
            },
    {
        self.manipulations.redo_target()
    }

    /// Marks the current undo target as undone, after its inverse ran
    /// successfully on disk.
    pub fn commit_undo(&mut self)
        requires
            old(self).wf(),
            old(self).manipulations.spec_can_undo(),
        ensures
            spec_undone(old(self).manipulations, final(self).manipulations),
            final(self).list == old(self).list,
            final(self).registered == old(self).registered,
            spec_config_unchanged(*old(self), *final(self)),
            final(self).wf(),
    {
        self.manipulations.commit_undo();
    }

    /// Marks the current redo target as re-applied, after its forward
    /// effect ran successfully on disk.
    pub fn commit_redo(&mut self)
        requires
            old(self).wf(),
            old(self).manipulations.spec_can_redo(),
        ensures
            spec_redone(old(self).manipulations, final(self).manipulations),
            final(self).list == old(self).list,
            final(self).registered == old(self).registered,
            spec_config_unchanged(*old(self), *final(self)),
            final(self).wf(),
    {
        self.manipulations.commit_redo();
    }
}

} // verus!
