//! The directory snapshot builder: partitioning, sorting and hidden-file
//! filtering of a directory's entries.

use vstd::prelude::*;
use crate::fspath::FsPath;
use crate::item::{ItemInfo, ItemView};
use crate::item::SortKey;
use crate::sort::{sort_by_key, sort_items, lemma_sort_by_key_all};

verus! {

/// The subsequence of `s` whose elements satisfy `p`, in order.
pub open spec fn filter_items(s: Seq<ItemView>, p: spec_fn(ItemView) -> bool) -> Seq<ItemView>
    decreases s.len(),
{
    if s.len() == 0 {
        Seq::empty()
    } else if p(s.last()) {
        filter_items(s.drop_last(), p).push(s.last())
    } else {
        filter_items(s.drop_last(), p)
    }
}

/// Every element of a filtered sequence satisfies any property that
/// every element of the original satisfied.
pub proof fn lemma_filter_items_all(
    s: Seq<ItemView>,
    p: spec_fn(ItemView) -> bool,
    q: spec_fn(ItemView) -> bool,
)
    requires
        forall|i: int| 0 <= i < s.len() ==> q(#[trigger] s[i]),
    ensures
        forall|i: int|
            0 <= i < filter_items(s, p).len() ==> q(#[trigger] filter_items(s, p)[i]),
        filter_items(s, p).len() <= s.len(),
    decreases s.len(),
{
    if s.len() > 0 {
        assert(forall|i: int| 0 <= i < s.drop_last().len() ==> q(#[trigger] s.drop_last()[i]));
        lemma_filter_items_all(s.drop_last(), p, q);
    }
}

/// Filtering distributes over concatenation.
pub proof fn lemma_filter_items_concat(
    a: Seq<ItemView>,
    b: Seq<ItemView>,
    p: spec_fn(ItemView) -> bool,
)
    ensures
        filter_items(a + b, p) == filter_items(a, p) + filter_items(b, p),
    decreases b.len(),
{
    if b.len() == 0 {
        assert(a + b =~= a);
        assert(filter_items(a, p) + filter_items(b, p) =~= filter_items(a, p));
    } else {
        assert((a + b).drop_last() =~= a + b.drop_last());
        assert((a + b).last() == b.last());
        lemma_filter_items_concat(a, b.drop_last(), p);
        if p(b.last()) {
            assert((filter_items(a, p) + filter_items(b.drop_last(), p)).push(b.last()) =~= filter_items(
                a,
                p,
            ) + filter_items(b.drop_last(), p).push(b.last()));
        }
    }
}

pub open spec fn spec_is_dir(v: ItemView) -> bool {
    v.file_type is Directory
}

pub open spec fn spec_visible(v: ItemView) -> bool {
    !v.is_hidden
}

/// The full listing pipeline: split the entries into directories and
/// the rest, sort each part under the key, put directories first, then
/// drop hidden items unless they were asked for.  Per-entry order is a
/// function of the entries alone, so listing is deterministic.
pub open spec fn spec_listing(key: SortKey, show_hidden: bool, s: Seq<ItemView>) -> Seq<
    ItemView,
> {
    let dirs = filter_items(s, |v: ItemView| spec_is_dir(v));
    let files = filter_items(s, |v: ItemView| !spec_is_dir(v));
    let sorted = sort_by_key(key, dirs) + sort_by_key(key, files);
    if show_hidden {
        sorted
    } else {
        filter_items(sorted, |v: ItemView| spec_visible(v))
    }
}

/// Directories precede files and symlinks.
pub open spec fn spec_dirs_first(s: Seq<ItemView>) -> bool {
    forall|i: int, j: int|
        0 <= i < j < s.len() && spec_is_dir(#[trigger] s[j]) ==> spec_is_dir(#[trigger] s[i])
}

/// In every listing, whatever the sort key and the hidden-file choice,
/// directories precede files and symlinks.
pub proof fn lemma_listing_dirs_first(key: SortKey, show_hidden: bool, s: Seq<ItemView>)
    ensures
        spec_dirs_first(spec_listing(key, show_hidden, s)),
{
    let dirs = filter_items(s, |v: ItemView| spec_is_dir(v));
    let files = filter_items(s, |v: ItemView| !spec_is_dir(v));
    assert(forall|i: int| 0 <= i < dirs.len() ==> spec_is_dir(#[trigger] dirs[i])) by {
        lemma_filter_all_self(s, |v: ItemView| spec_is_dir(v));
    }
    assert(forall|i: int| 0 <= i < files.len() ==> !spec_is_dir(#[trigger] files[i])) by {
        lemma_filter_all_self(s, |v: ItemView| !spec_is_dir(v));
    }
    let sd = sort_by_key(key, dirs);
    let sf = sort_by_key(key, files);
    lemma_sort_by_key_all(key, dirs, |v: ItemView| spec_is_dir(v));
    lemma_sort_by_key_all(key, files, |v: ItemView| !spec_is_dir(v));
    let sorted = sd + sf;
    assert(spec_dirs_first(sorted));
    if !show_hidden {
        let vis = |v: ItemView| spec_visible(v);
        lemma_filter_items_concat(sd, sf, vis);
        lemma_filter_items_all(sd, vis, |v: ItemView| spec_is_dir(v));
        lemma_filter_items_all(sf, vis, |v: ItemView| !spec_is_dir(v));
        assert(filter_items(sorted, vis) =~= filter_items(sd, vis) + filter_items(sf, vis));
        assert(spec_dirs_first(filter_items(sorted, vis)));
    }
}

/// Every element of `filter_items(s, p)` satisfies `p` itself.
pub proof fn lemma_filter_all_self(s: Seq<ItemView>, p: spec_fn(ItemView) -> bool)
    ensures
        forall|i: int|
            0 <= i < filter_items(s, p).len() ==> p(#[trigger] filter_items(s, p)[i]),
    decreases s.len(),
{
    if s.len() > 0 {
        lemma_filter_all_self(s.drop_last(), p);
        let f = filter_items(s.drop_last(), p);
        if p(s.last()) {
            assert forall|i: int|
                0 <= i < filter_items(s, p).len() implies p(#[trigger] filter_items(s, p)[i]) by {
                if i < f.len() {
                    assert(filter_items(s, p)[i] == f[i]);
                } else {
                    assert(filter_items(s, p)[i] == s.last());
                }
            }
        }
    }
}

/// Two listings of the same entries with the same key and hidden-file
/// choice are identical, element for element: the listing is a pure
/// function of its inputs and nothing else.
pub proof fn lemma_listing_deterministic(
    key: SortKey,
    show_hidden: bool,
    s: Seq<ItemView>,
    r1: Seq<ItemView>,
    r2: Seq<ItemView>,
)
    requires
        r1 == spec_listing(key, show_hidden, s),
        r2 == spec_listing(key, show_hidden, s),
    ensures
        r1 == r2,
{
}

/// Builds the ordered snapshot of a directory from its raw entries:
/// directories first, each part sorted under `key`, hidden entries kept
/// only when `show_hidden` is set.  Returns exactly the
/// specification-level listing, so repeated calls agree.
pub fn push_items(entries: &Vec<ItemInfo>, key: &SortKey, show_hidden: bool) -> (r: Vec<
    ItemInfo,
>)
    ensures
        r.deep_view() == spec_listing(*key, show_hidden, entries.deep_view()),
        spec_dirs_first(r.deep_view()),
{
    let ghost total = entries.deep_view();
    let mut dir_v: Vec<ItemInfo> = Vec::new();
    let mut file_v: Vec<ItemInfo> = Vec::new();
    let mut i: usize = 0;
    while i < entries.len()
        invariant
            i <= entries.len(),
            total == entries.deep_view(),
            total.len() == entries.len(),
            dir_v.deep_view() == filter_items(
                total.take(i as int),
                |v: ItemView| spec_is_dir(v),
            ),
            file_v.deep_view() == filter_items(
                total.take(i as int),
                |v: ItemView| !spec_is_dir(v),
            ),
        decreases entries.len() - i,
    {
        let x = entries[i].duplicate();
        proof {
            assert(total.take(i + 1 as int).drop_last() =~= total.take(i as int));
            assert(total.take(i + 1 as int).last() == total[i as int]);
        }
        if matches!(x.file_type, crate::item::FileType::Directory) {
            dir_v.push(x);
            assert(dir_v.deep_view() =~= filter_items(
                total.take(i as int),
                |v: ItemView| spec_is_dir(v),
            ).push(total[i as int]));
        } else {
            file_v.push(x);
            assert(file_v.deep_view() =~= filter_items(
                total.take(i as int),
                |v: ItemView| !spec_is_dir(v),
            ).push(total[i as int]));
        }
        i = i + 1;
    }
    proof {
        assert(total.take(entries.len() as int) =~= total);
    }
    let sorted_dirs = sort_items(key, &dir_v);
    let mut result = sorted_dirs;
    let mut sorted_files = sort_items(key, &file_v);
    result.append(&mut sorted_files);
    proof {
        assert(result.deep_view() =~= sort_by_key(
            *key,
            filter_items(total, |v: ItemView| spec_is_dir(v)),
        ) + sort_by_key(*key, filter_items(total, |v: ItemView| !spec_is_dir(v))));
    }
    let listed = if show_hidden {
        result
    } else {
        let ghost sorted = result.deep_view();
        let mut kept: Vec<ItemInfo> = Vec::new();
        let mut j: usize = 0;
        while j < result.len()
            invariant
                j <= result.len(),
                sorted == result.deep_view(),
                sorted.len() == result.len(),
                kept.deep_view() == filter_items(
                    sorted.take(j as int),
                    |v: ItemView| spec_visible(v),
                ),
            decreases result.len() - j,
        {
            proof {
                assert(sorted.take(j + 1 as int).drop_last() =~= sorted.take(j as int));
                assert(sorted.take(j + 1 as int).last() == sorted[j as int]);
            }
            if !result[j].is_hidden {
                kept.push(result[j].duplicate());
                assert(kept.deep_view() =~= filter_items(
                    sorted.take(j as int),
                    |v: ItemView| spec_visible(v),
                ).push(sorted[j as int]));
            }
            j = j + 1;
        }
        proof {
            assert(sorted.take(result.len() as int) =~= sorted);
        }
        kept
    };
    proof {
        lemma_listing_dirs_first(*key, show_hidden, total);
    }
    listed
}

/// Picks, in enumeration order, the entries of a directory whose paths
/// occur among `wanted`, stopping once as many have been found as there
/// are wanted paths.  This is how the engine re-reads the items behind
/// a delete record's trash paths.
pub open spec fn spec_wanted_contains(wanted: Seq<Seq<Seq<char>>>, p: Seq<Seq<char>>) -> bool {
    exists|k: int| 0 <= k < wanted.len() && wanted[k] == p
}

/// The selection of `spec_trash_selection`, scanning `s` from index `i`
/// with `limit` slots left.
pub open spec fn spec_select_at(
    s: Seq<ItemView>,
    wanted: Seq<Seq<Seq<char>>>,
    limit: int,
    i: int,
) -> Seq<ItemView>
    decreases s.len() - i,
{
    if i < 0 || i >= s.len() || limit <= 0 {
        Seq::empty()
    } else if spec_wanted_contains(wanted, s[i].file_path) {
        seq![s[i]] + spec_select_at(s, wanted, limit - 1, i + 1)
    } else {
        spec_select_at(s, wanted, limit, i + 1)
    }
}

fn wanted_contains(wanted: &Vec<FsPath>, p: &FsPath) -> (b: bool)
    ensures
        b == spec_wanted_contains(wanted.deep_view(), p@),
{
    let mut k: usize = 0;
    while k < wanted.len()
        invariant
            k <= wanted.len(),
            forall|j: int| 0 <= j < k ==> wanted.deep_view()[j] != p@,
        decreases wanted.len() - k,
    {
        if wanted[k].same_path(p) {
            assert(wanted.deep_view()[k as int] == p@);
            return true;
        }
        k = k + 1;
    }
    false
}

/// Re-derives the item snapshots behind a set of trash paths from a
/// fresh enumeration of the trash directory: the entries whose paths
/// are wanted, in enumeration order, at most one per wanted path slot.
pub fn trash_to_info(entries: &Vec<ItemInfo>, wanted: &Vec<FsPath>) -> (r: Vec<ItemInfo>)
    ensures
        r.deep_view() == spec_select_at(
            entries.deep_view(),
            wanted.deep_view(),
            wanted.deep_view().len() as int,
            0,
        ),
{
    let ghost total = entries.deep_view();
    let ghost want = wanted.deep_view();
    let total_wanted = wanted.len();
    let mut count: usize = 0;
    let mut r: Vec<ItemInfo> = Vec::new();
    let mut i: usize = 0;
    while i < entries.len() && count < total_wanted
        invariant
            i <= entries.len(),
            count <= total_wanted,
            total == entries.deep_view(),
            want == wanted.deep_view(),
            total.len() == entries.len(),
            total_wanted == want.len(),
            r.deep_view().len() == count,
            spec_select_at(total, want, want.len() as int, 0) == r.deep_view()
                + spec_select_at(total, want, total_wanted - count, i as int),
        decreases entries.len() - i,
    {
        if wanted_contains(wanted, &entries[i].file_path) {
            r.push(entries[i].duplicate());
            count = count + 1;
            assert(r.deep_view() =~= r.deep_view().drop_last().push(total[i as int]));
            assert(r.deep_view().drop_last() + (seq![total[i as int]] + spec_select_at(
                total,
                want,
                total_wanted - count,
                i + 1 as int,
            )) =~= r.deep_view() + spec_select_at(total, want, total_wanted - count, i + 1 as int));
        }
        i = i + 1;
    }
    proof {
        assert(spec_select_at(total, want, total_wanted - count, i as int) =~= Seq::<
            ItemView,
        >::empty());
        assert(r.deep_view() + Seq::<ItemView>::empty() =~= r.deep_view());
    }
    r
}

} // verus!
