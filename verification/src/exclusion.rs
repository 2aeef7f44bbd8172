//! Whether a path lies in an exclusion zone, with a cache of the verdicts.

use crate::config::{Config, ConfigView};
use crate::path::{FsPath, PathView};
use crate::path_map::PathMap;
use crate::snapshot::{Snapshot, SnapshotView};
use vstd::prelude::*;

verus! {

/// Verdicts on resolved paths, kept from one check to the next.
///
/// A cache is filled under one configuration and one snapshot. It says nothing
/// true of another: clear it when either changes.
#[derive(Debug, Clone)]
pub struct ExclusionCache {
    pub verdicts: PathMap<bool>,
}

impl View for ExclusionCache {
    type V = Map<PathView, bool>;

    open spec fn view(&self) -> Map<PathView, bool> {
        self.verdicts.map()
    }
}

impl Default for ExclusionCache {
    /// The cache that holds no verdict.
    fn default() -> (cache: ExclusionCache)
        ensures
            cache@ == Map::<PathView, bool>::empty(),
    {
        ExclusionCache::new()
    }
}

impl ExclusionCache {
    /// The cache that holds no verdict.
    pub fn new() -> (cache: ExclusionCache)
        ensures
            cache@ == Map::<PathView, bool>::empty(),
    {
        ExclusionCache { verdicts: PathMap::new() }
    }

    /// Forgets every verdict.
    pub fn clear(&mut self)
        ensures
            final(self)@ == Map::<PathView, bool>::empty(),
    {
        self.verdicts.clear();
    }

    /// The verdict held for a resolved path.
    pub fn get(&self, path: &FsPath) -> (verdict: Option<bool>)
        ensures
            match verdict {
                Some(excluded) => self@.contains_key(path@) && self@[path@] == excluded,
                None => !self@.contains_key(path@),
            },
    {
        match self.verdicts.get(path) {
            Some(excluded) => Some(*excluded),
            None => None,
        }
    }

    /// Keeps a verdict for a resolved path.
    pub fn insert(&mut self, path: FsPath, excluded: bool)
        ensures
            final(self)@ == old(self)@.insert(path@, excluded),
    {
        self.verdicts.insert(path, excluded);
    }
}

/// Whether every verdict that the cache holds is the one that `config` gives.
pub open spec fn cache_agrees(cache: Map<PathView, bool>, config: ConfigView) -> bool {
    forall|path: PathView| #[trigger]
        cache.contains_key(path) ==> cache[path] == config.excludes_path(path)
}

/// The verdict on a path when the cache holds `cache`: excluded if the path
/// does not resolve; else what the cache holds for the resolved path; else
/// whether a name of the resolved path is that of an exclusion zone.
pub open spec fn excluded_with(
    cache: Map<PathView, bool>,
    path: PathView,
    config: ConfigView,
    fs: SnapshotView,
) -> bool {
    match fs.resolve(path) {
        None => true,
        Some(target) => if cache.contains_key(target) {
            cache[target]
        } else {
            config.excludes_path(target)
        },
    }
}

/// The verdict on a path when nothing is cached.
pub open spec fn excluded(path: PathView, config: ConfigView, fs: SnapshotView) -> bool {
    excluded_with(Map::empty(), path, config, fs)
}

/// What the cache holds after a check of `path`: the verdict on the resolved
/// path is added where the cache had none.
pub open spec fn cache_after(
    cache: Map<PathView, bool>,
    path: PathView,
    config: ConfigView,
    fs: SnapshotView,
) -> Map<PathView, bool> {
    match fs.resolve(path) {
        None => cache,
        Some(target) => if cache.contains_key(target) {
            cache
        } else {
            cache.insert(target, config.excludes_path(target))
        },
    }
}

/// Whether some name of `path` is the name of an exclusion zone.
pub fn path_excluded(path: &FsPath, config: &Config) -> (excluded: bool)
    ensures
        excluded == config@.excludes_path(path@),
{
    let mut i: usize = 0;
    while i < path.names.len()
        invariant
            i <= path.names.len(),
            forall|j: int| 0 <= j < i ==> !config@.excludes(#[trigger] path@.names[j]),
        decreases path.names.len() - i,
    {
        if config.matches_exclusion(path.names[i].as_str()) {
            assert(path@.names[i as int] == path.names[i as int]@);
            return true;
        }
        i += 1;
    }
    false
}

/// Whether `path` lies in an exclusion zone.
///
/// A path that does not resolve is excluded. With a cache, a verdict that the
/// cache holds for the resolved path is returned as it is, and a verdict that
/// it lacks is computed and kept.
pub fn is_excluded(
    path: &FsPath,
    config: &Config,
    cache: Option<&mut ExclusionCache>,
    fs: &Snapshot,
) -> (excluded: bool)
    ensures
        cache matches Some(held) ==> excluded == excluded_with(held@, path@, config@, fs@)
            && final(held)@ == cache_after(held@, path@, config@, fs@),
        cache is None ==> excluded == self::excluded(path@, config@, fs@),
{
    let target = match fs.resolve(path) {
        None => {
            return true;
        },
        Some(target) => target,
    };
    match cache {
        Some(held) => {
            match held.get(target) {
                Some(verdict) => verdict,
                None => {
                    let verdict = path_excluded(target, config);
                    held.insert(target.clone(), verdict);
                    verdict
                },
            }
        },
        None => path_excluded(target, config),
    }
}

} // verus!
