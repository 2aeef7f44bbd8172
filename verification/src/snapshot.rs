//! What is known of the file system: which paths resolve, and what the
//! directories hold.

use crate::config::ConfigView;
use crate::path::{FsPath, PathView};
use crate::path_map::PathMap;
use vstd::prelude::*;

verus! {

/// What an entry of a directory is.
#[derive(Debug, Clone, Copy, PartialEq, Eq)]
pub enum EntryKind {
    /// A directory, or a link to one.
    Directory,
    /// A regular file, or a link to one.
    File,
    /// Anything else.
    Other,
}

/// An entry of a directory: its name and what it is.
#[derive(Debug, Clone, PartialEq, Eq)]
pub struct DirEntry {
    pub name: String,
    pub kind: EntryKind,
}

/// What an entry is to the contracts.
pub struct EntryView {
    pub name: Seq<char>,
    pub kind: EntryKind,
}

impl View for DirEntry {
    type V = EntryView;

    open spec fn view(&self) -> EntryView {
        EntryView { name: self.name@, kind: self.kind }
    }
}

/// The entries of a listing, as the contracts see them.
pub open spec fn entry_views(entries: Seq<DirEntry>) -> Seq<EntryView> {
    Seq::new(entries.len(), |i: int| entries[i]@)
}

/// A record of the file system at one moment.
///
/// A path that has no resolution here does not resolve: it does not exist, or
/// cannot be reached. A directory that has no listing here holds nothing that
/// can be read.
#[derive(Debug, Clone)]
pub struct Snapshot {
    /// For each path that resolves, its absolute form without links.
    pub resolved: PathMap<FsPath>,
    /// For each directory that can be read, its entries in the order in which
    /// the file system gives them.
    pub listings: PathMap<Vec<DirEntry>>,
}

/// What a snapshot is to the contracts.
pub struct SnapshotView {
    pub resolved: Map<PathView, PathView>,
    pub listings: Map<PathView, Seq<EntryView>>,
}

impl View for Snapshot {
    type V = SnapshotView;

    open spec fn view(&self) -> SnapshotView {
        SnapshotView {
            resolved: Map::new(
                |path: PathView| self.resolved.map().contains_key(path),
                |path: PathView| self.resolved.map()[path]@,
            ),
            listings: Map::new(
                |dir: PathView| self.listings.map().contains_key(dir),
                |dir: PathView| entry_views(self.listings.map()[dir]@),
            ),
        }
    }
}

impl SnapshotView {
    /// The resolved form of a path, if it resolves.
    pub open spec fn resolve(self, path: PathView) -> Option<PathView> {
        if self.resolved.contains_key(path) {
            Some(self.resolved[path])
        } else {
            None
        }
    }

    /// The entries of a directory; none if it has no listing.
    pub open spec fn entries(self, dir: PathView) -> Seq<EntryView> {
        if self.listings.contains_key(dir) {
            self.listings[dir]
        } else {
            Seq::empty()
        }
    }

    /// Whether the directory holds an entry whose name is that of a marker.
    pub open spec fn has_marker(self, dir: PathView, config: ConfigView) -> bool {
        exists|i: int|
            0 <= i < self.entries(dir).len() && config.marks((#[trigger] self.entries(dir)[i]).name)
    }
}

impl Snapshot {
    /// The snapshot in which no path resolves and no directory has a listing.
    pub fn new() -> (fs: Snapshot)
        ensures
            fs@.resolved == Map::<PathView, PathView>::empty(),
            fs@.listings == Map::<PathView, Seq<EntryView>>::empty(),
    {
        let fs = Snapshot { resolved: PathMap::new(), listings: PathMap::new() };
        fs
    }

    /// Records that `path` resolves to `target`.
    pub fn record_resolution(&mut self, path: FsPath, target: FsPath)
        ensures
            final(self)@.resolved == old(self)@.resolved.insert(path@, target@),
            final(self)@.listings == old(self)@.listings,
    {
        self.resolved.insert(path, target);
    }

    /// Records that the directory `dir` holds `entries`.
    pub fn record_listing(&mut self, dir: FsPath, entries: Vec<DirEntry>)
        ensures
            final(self)@.resolved == old(self)@.resolved,
            final(self)@.listings == old(self)@.listings.insert(dir@, entry_views(entries@)),
    {
        self.listings.insert(dir, entries);
    }

    /// The resolved form of `path`, if it resolves.
    pub fn resolve(&self, path: &FsPath) -> (target: Option<&FsPath>)
        ensures
            match target {
                Some(found) => self@.resolve(path@) == Some(found@),
                None => self@.resolve(path@).is_none(),
            },
    {
        self.resolved.get(path)
    }

    /// The entries of `dir`, if it has a listing.
    pub fn list(&self, dir: &FsPath) -> (entries: Option<&Vec<DirEntry>>)
        ensures
            match entries {
                Some(found) => self@.listings.contains_key(dir@) && self@.listings[dir@]
                    == entry_views(found@),
                None => !self@.listings.contains_key(dir@),
            },
    {
        self.listings.get(dir)
    }
}

} // verus!
