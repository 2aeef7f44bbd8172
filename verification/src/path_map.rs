//! A map keyed by paths.

use crate::path::{FsPath, PathView};
use vstd::prelude::*;

verus! {

/// A map from paths to values, kept as a list of pairs. A pair overrides the
/// pairs before it that have the same path.
#[derive(Debug, Clone)]
pub struct PathMap<V> {
    pub entries: Vec<(FsPath, V)>,
}

/// The map that a list of pairs stands for.
pub open spec fn table_of<V>(entries: Seq<(FsPath, V)>) -> Map<PathView, V>
    decreases entries.len(),
{
    if entries.len() == 0 {
        Map::empty()
    } else {
        table_of(entries.drop_last()).insert(entries.last().0@, entries.last().1)
    }
}

/// A path's value is that of the last pair that has the path.
pub proof fn lemma_table_lookup<V>(entries: Seq<(FsPath, V)>, key: PathView, at: int)
    requires
        -1 <= at < entries.len(),
        at >= 0 ==> entries[at].0@ == key,
        forall|j: int| at < j < entries.len() ==> (#[trigger] entries[j]).0@ != key,
    ensures
        at >= 0 ==> table_of(entries).contains_key(key) && table_of(entries)[key] == entries[at].1,
        at < 0 ==> !table_of(entries).contains_key(key),
    decreases entries.len(),
{
    if entries.len() > 0 {
        if at < entries.len() - 1 {
            let front = entries.drop_last();
            lemma_table_lookup(front, key, at);
        }
    }
}

impl<V> PathMap<V> {
    /// The map that this value stands for.
    pub open spec fn map(&self) -> Map<PathView, V> {
        table_of(self.entries@)
    }

    /// The empty map.
    pub fn new() -> (map: PathMap<V>)
        ensures
            map.map() == Map::<PathView, V>::empty(),
    {
        PathMap { entries: Vec::new() }
    }

    /// The value of `key`, if it has one.
    pub fn get(&self, key: &FsPath) -> (value: Option<&V>)
        ensures
            match value {
                Some(found) => self.map().contains_key(key@) && self.map()[key@] == *found,
                None => !self.map().contains_key(key@),
            },
    {
        let mut i: usize = self.entries.len();
        while i > 0
            invariant
                i <= self.entries.len(),
                forall|j: int| i <= j < self.entries.len() ==> (#[trigger] self.entries[j]).0@ != key@,
            decreases i,
        {
            i -= 1;
            if self.entries[i].0.same_as(key) {
                proof {
                    lemma_table_lookup(self.entries@, key@, i as int);
                }
                return Some(&self.entries[i].1);
            }
        }
        proof {
            lemma_table_lookup(self.entries@, key@, -1);
        }
        None
    }

    /// Gives `key` the value `value`, in place of the one it had.
    pub fn insert(&mut self, key: FsPath, value: V)
        ensures
            final(self).map() == old(self).map().insert(key@, value),
    {
        self.entries.push((key, value));
        assert(self.entries@.drop_last() =~= old(self).entries@);
    }

    /// Forgets every key.
    pub fn clear(&mut self)
        ensures
            final(self).map() == Map::<PathView, V>::empty(),
    {
        self.entries.clear();
    }
}

} // verus!
