//! Sets of paths.

use crate::path::{FsPath, PathView};
use vstd::prelude::*;

verus! {

/// What a sequence of paths is to the contracts.
pub open spec fn path_views(paths: Seq<FsPath>) -> Seq<PathView> {
    Seq::new(paths.len(), |i: int| paths[i]@)
}

/// Whether a set has two members or more.
pub open spec fn has_two(paths: Set<PathView>) -> bool {
    exists|a: PathView, b: PathView| #[trigger]
        paths.contains(a) && #[trigger] paths.contains(b) && a != b
}

/// A set of paths, kept as a list. A path that stands in the list twice is
/// one member.
#[derive(Debug, Clone)]
pub struct PathSet {
    pub paths: Vec<FsPath>,
}

impl View for PathSet {
    type V = Set<PathView>;

    open spec fn view(&self) -> Set<PathView> {
        path_views(self.paths@).to_set()
    }
}

impl PathSet {
    /// The list that the set is kept as.
    pub open spec fn members(&self) -> Seq<PathView> {
        path_views(self.paths@)
    }

    /// The empty set.
    pub fn new() -> (set: PathSet)
        ensures
            set@ == Set::<PathView>::empty(),
            set.members() == Seq::<PathView>::empty(),
    {
        let set = PathSet { paths: Vec::new() };
        set
    }

    /// The length of the list: the number of members, where no path stands in
    /// it twice.
    pub fn len(&self) -> (count: usize)
        ensures
            count == self.members().len(),
            self.members().no_duplicates() ==> count == self@.len(),
    {
        proof {
            if self.members().no_duplicates() {
                self.members().unique_seq_to_set();
            }
        }
        self.paths.len()
    }

    /// Whether the set has no member.
    pub fn is_empty(&self) -> (empty: bool)
        ensures
            empty == (self@ == Set::<PathView>::empty()),
    {
        if self.paths.len() == 0 {
            assert(self@ =~= Set::<PathView>::empty());
            true
        } else {
            assert(self.members()[0] == self.paths[0]@);
            assert(self@.contains(self.paths[0]@));
            false
        }
    }

    /// Whether `path` is a member.
    pub fn contains(&self, path: &FsPath) -> (found: bool)
        ensures
            found == self@.contains(path@),
    {
        let mut i: usize = 0;
        while i < self.paths.len()
            invariant
                i <= self.paths.len(),
                forall|j: int| 0 <= j < i ==> self.paths[j]@ != path@,
            decreases self.paths.len() - i,
        {
            if self.paths[i].same_as(path) {
                assert(self.members()[i as int] == path@);
                return true;
            }
            i += 1;
        }
        false
    }

    /// Adds `path` at the end of the list, unless it is a member already.
    /// Returns whether it was added.
    pub fn insert(&mut self, path: FsPath) -> (added: bool)
        ensures
            final(self)@ == old(self)@.insert(path@),
            added == !old(self)@.contains(path@),
            final(self).members() == if added {
                old(self).members().push(path@)
            } else {
                old(self).members()
            },
            old(self).members().no_duplicates() ==> final(self).members().no_duplicates(),
    {
        if self.contains(&path) {
            false
        } else {
            let ghost before = self.members();
            self.paths.push(path);
            proof {
                assert(self.members() =~= before.push(path@));
                before.lemma_push_to_set_commute(path@);
            }
            true
        }
    }
}

} // verus!
