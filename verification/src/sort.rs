//! Ordering of directory listings.
//!
//! Sorting is specified as a stable insertion sort at the
//! specification level, so the result of [`sort_items`] is pinned down
//! exactly: equal callers get equal answers, element for element.

use core::cmp::Ordering;
use vstd::prelude::*;
use crate::item::{ItemInfo, ItemView, SortKey};
use crate::text::{compare_opt_str, opt_str_cmp};

verus! {

/// What `natord::compare` answers for two names.  The comparison is a
/// pure function of the two character sequences, so it can be named
/// without writing its algorithm out.
pub uninterp spec fn natural_cmp(a: Seq<char>, b: Seq<char>) -> Ordering;

/// Relies on natord::compare: digit-aware ("natural") ordering of two
/// strings, determined by the two strings alone.
#[verifier::external_body]
fn natord_compare(a: &str, b: &str) -> (r: Ordering)
    ensures
        r == natural_cmp(a@, b@),
{
    natord::compare(a, b)
}

/// How two items compare under a sort key.
///
/// * `Name`: natural comparison of the display names.
/// * `Time`: newest first; an item without a timestamp counts as older
///   than any item with one.
pub open spec fn key_cmp(key: SortKey, a: ItemView, b: ItemView) -> Ordering {
    match key {
        SortKey::Name => natural_cmp(a.file_name, b.file_name),
        SortKey::Time => opt_str_cmp(b.modified, a.modified),
    }
}

fn item_cmp(key: &SortKey, a: &ItemInfo, b: &ItemInfo) -> (r: Ordering)
    ensures
        r == key_cmp(*key, a@, b@),
{
    match key {
        SortKey::Name => natord_compare(a.file_name.as_str(), b.file_name.as_str()),
        SortKey::Time => compare_opt_str(&b.modified, &a.modified),
    }
}

/// `x` placed into `s` directly before the first element that compares
/// strictly greater; after every equal element, which keeps the sort
/// stable.
pub open spec fn insert_sorted(key: SortKey, x: ItemView, s: Seq<ItemView>) -> Seq<ItemView>
    decreases s.len(),
{
    if s.len() == 0 {
        seq![x]
    } else if key_cmp(key, s[0], x) is Greater {
        seq![x] + s
    } else {
        seq![s[0]] + insert_sorted(key, x, s.skip(1))
    }
}

/// Stable insertion sort of `s` under `key`.
pub open spec fn sort_by_key(key: SortKey, s: Seq<ItemView>) -> Seq<ItemView>
    decreases s.len(),
{
    if s.len() == 0 {
        Seq::empty()
    } else {
        insert_sorted(key, s.last(), sort_by_key(key, s.drop_last()))
    }
}

/// Inserting before the first strictly-greater position is the same as
/// inserting at that index.
proof fn lemma_insert_sorted_at(key: SortKey, x: ItemView, s: Seq<ItemView>, j: int)
    requires
        0 <= j <= s.len(),
        forall|k: int| 0 <= k < j ==> !(key_cmp(key, s[k], x) is Greater),
        j < s.len() ==> key_cmp(key, s[j], x) is Greater,
    ensures
        insert_sorted(key, x, s) == s.insert(j, x),
    decreases j,
{
    if j == 0 {
        if s.len() == 0 {
            assert(insert_sorted(key, x, s) =~= s.insert(0, x));
        } else {
            assert(insert_sorted(key, x, s) =~= s.insert(0, x));
        }
    } else {
        let tail = s.skip(1);
        assert(forall|k: int| 0 <= k < j - 1 ==> tail[k] == s[k + 1]);
        lemma_insert_sorted_at(key, x, tail, j - 1);
        assert(seq![s[0]] + tail.insert(j - 1, x) =~= s.insert(j, x));
    }
}

/// Insertion keeps every property that held of every element.
pub proof fn lemma_insert_sorted_all(
    key: SortKey,
    x: ItemView,
    s: Seq<ItemView>,
    p: spec_fn(ItemView) -> bool,
)
    requires
        p(x),
        forall|i: int| 0 <= i < s.len() ==> p(#[trigger] s[i]),
    ensures
        insert_sorted(key, x, s).len() == s.len() + 1,
        forall|i: int|
            0 <= i < s.len() + 1 ==> p(#[trigger] insert_sorted(key, x, s)[i]),
    decreases s.len(),
{
    if s.len() == 0 {
    } else if key_cmp(key, s[0], x) is Greater {
    } else {
        assert(forall|i: int| 0 <= i < s.skip(1).len() ==> p(#[trigger] s.skip(1)[i]));
        lemma_insert_sorted_all(key, x, s.skip(1), p);
    }
}

/// Sorting keeps every property that held of every element, and the
/// length.
pub proof fn lemma_sort_by_key_all(key: SortKey, s: Seq<ItemView>, p: spec_fn(ItemView) -> bool)
    requires
        forall|i: int| 0 <= i < s.len() ==> p(#[trigger] s[i]),
    ensures
        sort_by_key(key, s).len() == s.len(),
        forall|i: int| 0 <= i < s.len() ==> p(#[trigger] sort_by_key(key, s)[i]),
    decreases s.len(),
{
    if s.len() > 0 {
        lemma_sort_by_key_all(key, s.drop_last(), p);
        lemma_insert_sorted_all(key, s.last(), sort_by_key(key, s.drop_last()), p);
    }
}

/// Sorts the given items by the given key.  The result is exactly the
/// specification-level sort of the input, so sorting is deterministic.
pub fn sort_items(key: &SortKey, items: &Vec<ItemInfo>) -> (r: Vec<ItemInfo>)
    ensures
        r.deep_view() == sort_by_key(*key, items.deep_view()),
{
    let ghost total = items.deep_view();
    let mut out: Vec<ItemInfo> = Vec::new();
    let mut i: usize = 0;
    while i < items.len()
        invariant
            i <= items.len(),
            total == items.deep_view(),
            total.len() == items.len(),
            out.deep_view() == sort_by_key(*key, total.take(i as int)),
        decreases items.len() - i,
    {
        let x = items[i].duplicate();
        assert(x@ == total[i as int]);
        let ghost pre = out.deep_view();
        let mut j: usize = 0;
        loop
            invariant
                j <= out.len(),
                out.deep_view() == pre,
                x@ == total[i as int],
                forall|k: int| 0 <= k < j ==> !(key_cmp(*key, pre[k], x@) is Greater),
            ensures
                j <= out.len(),
                out.deep_view() == pre,
                forall|k: int| 0 <= k < j ==> !(key_cmp(*key, pre[k], x@) is Greater),
                j < out.len() ==> key_cmp(*key, pre[j as int], x@) is Greater,
            decreases out.len() - j,
        {
            if j == out.len() {
                break;
            }
            let c = item_cmp(key, &out[j], &x);
            if matches!(c, Ordering::Greater) {
                break;
            }
            j = j + 1;
        }
        out.insert(j, x);
        proof {
            assert(out.deep_view() =~= pre.insert(j as int, total[i as int]));
            lemma_insert_sorted_at(*key, total[i as int], pre, j as int);
            assert(total.take(i + 1 as int).drop_last() =~= total.take(i as int));
            assert(total.take(i + 1 as int).last() == total[i as int]);
        }
        i = i + 1;
    }
    proof {
        assert(total.take(items.len() as int) =~= total);
    }
    out
}

} // verus!
