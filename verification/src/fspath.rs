//! Paths modelled as sequences of textual components.
//!
//! The engine never touches the disk itself, so a path is just the list
//! of its components (for an absolute path the first component is the
//! root).  The view of a path is a `Seq<Seq<char>>`, one inner sequence
//! per component.

use vstd::prelude::*;
use crate::errors::FsError;

verus! {

/// A filesystem path as an ordered list of components.
#[derive(Clone, Debug, PartialEq, Eq)]
pub struct FsPath {
    pub components: Vec<String>,
}

impl View for FsPath {
    type V = Seq<Seq<char>>;

    open spec fn view(&self) -> Seq<Seq<char>> {
        self.components.deep_view()
    }
}

impl DeepView for FsPath {
    type V = Seq<Seq<char>>;

    open spec fn deep_view(&self) -> Seq<Seq<char>> {
        self.view()
    }
}

/// The components of `s` after the first `base` ones; empty when `s` is
/// shorter than `base`.  This is how a walked entry is made relative to
/// the root of the walk.
pub open spec fn drop_base(s: Seq<Seq<char>>, base: int) -> Seq<Seq<char>> {
    if 0 <= base <= s.len() {
        s.skip(base)
    } else {
        Seq::empty()
    }
}

/// Making a path relative to its own prefix and re-joining the remainder
/// under a new root keeps the relative part intact.
pub proof fn lemma_drop_base_of_concat(root: Seq<Seq<char>>, rel: Seq<Seq<char>>)
    ensures
        drop_base(root + rel, root.len() as int) == rel,
{
    assert((root + rel).skip(root.len() as int) =~= rel);
}

/// Decides whether a walked path was valid text, component by
/// component: the path of the components when every one is present, and
/// an encoding error exactly when at least one is not.
pub fn decode_components(comps: &Vec<Option<String>>) -> (r: Result<FsPath, FsError>)
    ensures
        match r {
            Ok(p) => {
                &&& forall|j: int| 0 <= j < comps@.len() ==> comps@[j] is Some
                &&& p@.len() == comps@.len()
                &&& forall|j: int| 0 <= j < comps@.len() ==> p@[j] == comps@[j]->Some_0@
            },
            Err(e) => {
                &&& e == FsError::Encoding
                &&& exists|j: int| 0 <= j < comps@.len() && comps@[j] is None
            },
        },
{
    let mut components: Vec<String> = Vec::new();
    let mut j: usize = 0;
    while j < comps.len()
        invariant
            j <= comps.len(),
            components@.len() == j,
            forall|k: int| 0 <= k < j ==> comps@[k] is Some,
            forall|k: int| 0 <= k < j ==> components@[k] == comps@[k]->Some_0,
        decreases comps.len() - j,
    {
        match &comps[j] {
            Some(c) => components.push(c.clone()),
            None => {
                assert(comps@[j as int] is None);
                return Err(FsError::Encoding);
            },
        }
        j = j + 1;
    }
    let p = FsPath { components };
    assert(forall|k: int| 0 <= k < comps@.len() ==> p@[k] == comps@[k]->Some_0@);
    Ok(p)
}

/// A fresh vector holding the same strings, value for value.
pub fn clone_components(v: &Vec<String>) -> (r: Vec<String>)
    ensures
        r@ == v@,
{
    let mut r: Vec<String> = Vec::new();
    let mut i: usize = 0;
    while i < v.len()
        invariant
            i <= v.len(),
            r@ == v@.take(i as int),
        decreases v.len() - i,
    {
        r.push(v[i].clone());
        assert(r@ =~= v@.take(i + 1 as int));
        i = i + 1;
    }
    assert(r@ =~= v@);
    r
}

impl FsPath {
    /// The empty path (no components).
    pub fn empty() -> (r: FsPath)
        ensures
            r@ == Seq::<Seq<char>>::empty(),
    {
        let r = FsPath { components: Vec::new() };
        assert(r@ =~= Seq::<Seq<char>>::empty());
        r
    }

    pub fn from_components(components: Vec<String>) -> (r: FsPath)
        ensures
            r@ == components.deep_view(),
    {
        FsPath { components }
    }

    pub fn len(&self) -> (n: usize)
        ensures
            n == self@.len(),
    {
        self.components.len()
    }

    /// The path extended by one further component.
    pub fn join(&self, name: &String) -> (r: FsPath)
        ensures
            r@ == self@.push(name@),
    {
        let mut components = clone_components(&self.components);
        components.push(name.clone());
        let r = FsPath { components };
        assert(r@ =~= self@.push(name@));
        r
    }

    /// The path extended by every component of `rel`, in order.
    pub fn join_all(&self, rel: &FsPath) -> (r: FsPath)
        ensures
            r@ == self@ + rel@,
    {
        let mut components = clone_components(&self.components);
        let mut i: usize = 0;
        while i < rel.components.len()
            invariant
                i <= rel.components.len(),
                components@ == self.components@ + rel.components@.take(i as int),
            decreases rel.components.len() - i,
        {
            components.push(rel.components[i].clone());
            assert(components@ =~= self.components@ + rel.components@.take(i + 1 as int));
            i = i + 1;
        }
        assert(components@ =~= self.components@ + rel.components@);
        let r = FsPath { components };
        assert(r@ =~= self@ + rel@);
        r
    }

    /// The components from index `base` on, as a path of their own.
    pub fn suffix_from(&self, base: usize) -> (r: FsPath)
        ensures
            r@ == drop_base(self@, base as int),
    {
        let mut components: Vec<String> = Vec::new();
        if base > self.components.len() {
            let r = FsPath { components };
            assert(r@ =~= drop_base(self@, base as int));
            return r;
        }
        let mut i: usize = base;
        while i < self.components.len()
            invariant
                base <= i <= self.components.len(),
                components@ == self.components@.subrange(base as int, i as int),
            decreases self.components.len() - i,
        {
            components.push(self.components[i].clone());
            assert(components@ =~= self.components@.subrange(base as int, i + 1 as int));
            i = i + 1;
        }
        let r = FsPath { components };
        assert(r@ =~= drop_base(self@, base as int));
        r
    }

    /// The path with its final component replaced, as a rename produces
    /// it.
    pub fn with_last(&self, name: &String) -> (r: FsPath)
        requires
            self@.len() > 0,
        ensures
            r@ == self@.drop_last().push(name@),
    {
        let mut components = clone_components(&self.components);
        let n = components.len() - 1;
        components.truncate(n);
        components.push(name.clone());
        let r = FsPath { components };
        assert(r@ =~= self@.drop_last().push(name@));
        r
    }

    /// The final component, when there is one.
    pub fn last_component(&self) -> (r: Option<&String>)
        ensures
            match r {
                Some(name) => self@.len() > 0 && name@ == self@.last(),
                None => self@.len() == 0,
            },
    {
        if self.components.len() == 0 {
            None
        } else {
            Some(&self.components[self.components.len() - 1])
        }
    }

    /// Whether the two paths have the same components.
    pub fn same_path(&self, other: &FsPath) -> (b: bool)
        ensures
            b == (self@ == other@),
    {
        if self.components.len() != other.components.len() {
            assert(self@.len() != other@.len());
            return false;
        }
        let n = self.components.len();
        let mut i: usize = 0;
        while i < n
            invariant
                i <= n,
                n == self@.len() == other@.len(),
                n == self.components.len() == other.components.len(),
                forall|j: int| 0 <= j < i ==> self@[j] == other@[j],
            decreases n - i,
        {
            if !(self.components[i] == other.components[i]) {
                assert(self@[i as int] != other@[i as int]);
                return false;
            }
            i = i + 1;
        }
        assert(self@ =~= other@);
        true
    }

    /// Whether `self` lies directly inside the directory `dir`, i.e.
    /// `dir`'s components followed by exactly one more.
    pub fn is_directly_inside(&self, dir: &FsPath) -> (b: bool)
        ensures
            b == (self@.len() == dir@.len() + 1 && self@.drop_last() == dir@),
    {
        if self.components.len() == 0 || self.components.len() - 1 != dir.components.len() {
            return false;
        }
        let n = dir.components.len();
        let mut i: usize = 0;
        while i < n
            invariant
                i <= n,
                n == dir@.len(),
                self@.len() == n + 1,
                n == dir.components.len(),
                self.components.len() == n + 1,
                forall|j: int| 0 <= j < i ==> self@[j] == dir@[j],
            decreases n - i,
        {
            if !(self.components[i] == dir.components[i]) {
                assert(self@.drop_last()[i as int] != dir@[i as int]);
                return false;
            }
            i = i + 1;
        }
        assert(self@.drop_last() =~= dir@);
        true
    }
}

} // verus!
