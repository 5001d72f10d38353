//! Collision-free naming of pasted items.
//!
//! A destination directory owns one flat namespace.  The set of names
//! already taken is collected first; each pasted item then receives its
//! candidate name unchanged when it is free, and otherwise the first
//! free name among `name_1`, `name_2`, … — the chosen name is added to
//! the set at once, so a batch with duplicate names still resolves each
//! to a distinct one.

use vstd::prelude::*;
use vstd::seq_lib::seq_to_set_is_finite;
use vstd::set_lib::lemma_len_subset;
use crate::item::ItemInfo;
use crate::text::{is_prefix, lemma_udec_injective, lemma_udec_nonempty, udec, udec_string};

verus! {

/// The names already taken in one destination directory.
pub struct NameSet {
    pub names: Vec<String>,
}

impl View for NameSet {
    type V = Seq<Seq<char>>;

    open spec fn view(&self) -> Seq<Seq<char>> {
        self.names.deep_view()
    }
}

/// Whether `n` occurs among `taken`.
pub open spec fn spec_name_in(taken: Seq<Seq<char>>, n: Seq<char>) -> bool {
    exists|k: int| 0 <= k < taken.len() && taken[k] == n
}

/// The `k`-th fallback candidate: the name with a numeric disambiguator
/// appended.
pub open spec fn spec_suffixed(name: Seq<char>, k: nat) -> Seq<char> {
    name + seq!['_'] + udec(k)
}

impl NameSet {
    pub fn new() -> (r: NameSet)
        ensures
            r@ == Seq::<Seq<char>>::empty(),
    {
        let r = NameSet { names: Vec::new() };
        assert(r@ =~= Seq::<Seq<char>>::empty());
        r
    }

    /// Collects the display names of the given items.
    pub fn from_items(items: &Vec<ItemInfo>) -> (r: NameSet)
        ensures
            r@.len() == items.deep_view().len(),
            forall|i: int|
                0 <= i < items.deep_view().len() ==> r@[i] == items.deep_view()[i].file_name,
    {
        let mut names: Vec<String> = Vec::new();
        let mut i: usize = 0;
        while i < items.len()
            invariant
                i <= items.len(),
                names.deep_view().len() == i,
                forall|j: int|
                    0 <= j < i ==> names.deep_view()[j] == items.deep_view()[j].file_name,
            decreases items.len() - i,
        {
            let ghost pre = names.deep_view();
            names.push(items[i].file_name.clone());
            proof {
                assert(names.deep_view() =~= pre.push(items.deep_view()[i as int].file_name));
            }
            i = i + 1;
        }
        NameSet { names }
    }

    pub fn contains(&self, name: &String) -> (b: bool)
        ensures
            b == spec_name_in(self@, name@),
    {
        let mut k: usize = 0;
        while k < self.names.len()
            invariant
                k <= self.names.len(),
                forall|j: int| 0 <= j < k ==> self@[j] != name@,
            decreases self.names.len() - k,
        {
            if self.names[k].eq(name) {
                assert(self@[k as int] == name@);
                return true;
            }
            k = k + 1;
        }
        false
    }

    pub fn insert(&mut self, name: String)
        ensures
            final(self)@ == old(self)@.push(name@),
    {
        self.names.push(name);
        assert(self@ =~= old(self)@.push(name@));
    }
}

/// A name occurs in a concatenation exactly when it occurs in one of
/// the halves.
pub proof fn lemma_name_in_concat(a: Seq<Seq<char>>, b: Seq<Seq<char>>, x: Seq<char>)
    ensures
        spec_name_in(a + b, x) <==> (spec_name_in(a, x) || spec_name_in(b, x)),
{
    if spec_name_in(a, x) {
        let k = choose|k: int| 0 <= k < a.len() && a[k] == x;
        assert((a + b)[k] == x);
    }
    if spec_name_in(b, x) {
        let k = choose|k: int| 0 <= k < b.len() && b[k] == x;
        assert((a + b)[k + a.len()] == x);
    }
    if spec_name_in(a + b, x) {
        let k = choose|k: int| 0 <= k < (a + b).len() && (a + b)[k] == x;
        if k < a.len() {
            assert(a[k] == x);
        } else {
            assert(b[k - a.len()] == x);
        }
    }
}

/// Candidates with distinct disambiguators are distinct names, and no
/// suffixed candidate equals the plain one.
proof fn lemma_candidates_distinct(name: Seq<char>, k1: nat, k2: nat)
    requires
        k1 != k2,
    ensures
        spec_suffixed(name, k1) != spec_suffixed(name, k2),
        spec_suffixed(name, k1) != name,
{
    lemma_udec_nonempty(k1);
    lemma_udec_nonempty(k2);
    assert(spec_suffixed(name, k1).len() > name.len());
    if spec_suffixed(name, k1) == spec_suffixed(name, k2) {
        assert(spec_suffixed(name, k1).skip(name.len() as int + 1) =~= udec(k1));
        assert(spec_suffixed(name, k2).skip(name.len() as int + 1) =~= udec(k2));
        lemma_udec_injective(k1, k2);
    }
}

/// Picks a free name for `candidate` in `taken`, records it as taken,
/// and returns it.  The name returned is never one that was already
/// taken; it is the candidate itself whenever that is free, and always
/// begins with the candidate.
pub fn resolve_name(candidate: String, taken: &mut NameSet) -> (r: String)
    ensures
        !spec_name_in(old(taken)@, r@),
        final(taken)@ == old(taken)@.push(r@),
        is_prefix(candidate@, r@),
        !spec_name_in(old(taken)@, candidate@) ==> r@ == candidate@,
        r@ == candidate@ || exists|k: nat| 1 <= k && r@ == spec_suffixed(candidate@, k),
{
    if !taken.contains(&candidate) {
        proof {
            assert(candidate@.take(candidate@.len() as int) =~= candidate@);
        }
        taken.insert(candidate.clone());
        return candidate;
    }
    proof {
        reveal_strlit("_");
        assert("_"@ =~= seq!['_']);
    }
    let n = taken.names.len();
    let ghost taken0 = taken@;
    let mut k: usize = 0;
    while k < n
        invariant
            k <= n,
            n == taken.names.len(),
            taken@ == taken0,
            n == taken0.len(),
            taken0 == old(taken)@,
            spec_name_in(taken0, candidate@),
            forall|j: nat|
                1 <= j <= k ==> spec_name_in(taken0, #[trigger] spec_suffixed(candidate@, j)),
        decreases n - k,
    {
        proof {
            reveal_strlit("_");
        }
        let suffix = udec_string((k as u64) + 1);
        let cand = candidate.clone().concat("_").concat(suffix.as_str());
        assert("_"@ =~= seq!['_']);
        assert(cand@ =~= spec_suffixed(candidate@, (k + 1) as nat));
        if !taken.contains(&cand) {
            proof {
                assert(cand@.take(candidate@.len() as int) =~= candidate@);
            }
            taken.insert(cand.clone());
            return cand;
        }
        k = k + 1;
    }
    proof {
        // Every one of the n + 1 pairwise distinct candidates (the
        // plain name and n suffixed ones) is taken, yet only n names
        // are: impossible.
        let cands = Seq::new(
            (n + 1) as nat,
            |j: int| if j == 0 { candidate@ } else { spec_suffixed(candidate@, j as nat) },
        );
        assert forall|j1: int, j2: int|
            0 <= j1 < j2 < cands.len() implies cands[j1] != cands[j2] by {
            if j1 == 0 {
                lemma_candidates_distinct(candidate@, j2 as nat, (j2 + 1) as nat);
            } else {
                lemma_candidates_distinct(candidate@, j1 as nat, j2 as nat);
            }
        }
        assert(cands.no_duplicates());
        cands.unique_seq_to_set();
        assert forall|x: Seq<char>| cands.to_set().contains(x) implies taken0.to_set().contains(
            x,
        ) by {
            let j = choose|j: int| 0 <= j < cands.len() && cands[j] == x;
            if j == 0 {
                let w = choose|w: int| 0 <= w < taken0.len() && taken0[w] == candidate@;
                assert(taken0.contains(x));
            } else {
                assert(spec_name_in(taken0, spec_suffixed(candidate@, j as nat)));
                let w = choose|w: int|
                    0 <= w < taken0.len() && taken0[w] == spec_suffixed(candidate@, j as nat);
                assert(taken0.contains(x));
            }
        }
        seq_to_set_is_finite(taken0);
        taken0.lemma_cardinality_of_set();
        lemma_len_subset(cands.to_set(), taken0.to_set());
        assert(false);
    }
    candidate
}

} // verus!
