//! The project root of a file, and of each file of a batch.

use crate::config::{Config, ConfigView};
use crate::exclusion::{cache_after, cache_agrees, excluded, excluded_with, is_excluded, ExclusionCache};
use crate::lca::{compute_lca, lca};
use crate::marker::{find_marker_root, marker_root};
use crate::orphanage::{find_orphanage, immediate_parent, orphanage, parent_or_self};
use crate::path::{FsPath, PathView};
use crate::path_set::{has_two, path_views, PathSet};
use crate::snapshot::{Snapshot, SnapshotView};
use vstd::prelude::*;

verus! {

/// What a result is to the contracts.
pub open spec fn root_view(root: Option<FsPath>) -> Option<PathView> {
    match root {
        Some(dir) => Some(dir@),
        None => None,
    }
}

/// What an optional set of paths is to the contracts.
pub open spec fn set_view(set: Option<&PathSet>) -> Option<Set<PathView>> {
    match set {
        Some(paths) => Some(paths@),
        None => None,
    }
}

/// The members of a cluster that are not excluded.
pub open spec fn valid_members(
    cluster: Set<PathView>,
    cache: Map<PathView, bool>,
    config: ConfigView,
    fs: SnapshotView,
) -> Set<PathView> {
    Set::new(|path: PathView| cluster.contains(path) && !excluded_with(cache, path, config, fs))
}

/// The root that a cluster gives: the lowest common ancestor of its valid
/// members, where it has two of them or more.
pub open spec fn cluster_root(
    cluster: Option<Set<PathView>>,
    cache: Map<PathView, bool>,
    config: ConfigView,
    fs: SnapshotView,
) -> Option<PathView> {
    match cluster {
        None => None,
        Some(members) => if has_two(valid_members(members, cache, config, fs)) {
            lca(valid_members(members, cache, config, fs), fs)
        } else {
            None
        },
    }
}

/// The root of a file that has neither a marker nor a cluster: its orphanage
/// where the source directories are known, else its immediate parent.
pub open spec fn fallback_root(source: PathView, source_dirs: Option<Set<PathView>>) -> PathView {
    match source_dirs {
        Some(dirs) => orphanage(source, dirs),
        None => immediate_parent(source),
    }
}

/// The project root of `source` when the cache holds `cache`: none for an
/// excluded file; else the marker root; else the root that the cluster gives;
/// else the fallback.
pub open spec fn root_with(
    cache: Map<PathView, bool>,
    source: PathView,
    source_dirs: Option<Set<PathView>>,
    cluster: Option<Set<PathView>>,
    config: ConfigView,
    fs: SnapshotView,
) -> Option<PathView> {
    if excluded_with(cache, source, config, fs) {
        None
    } else if marker_root(source, config, fs) is Some {
        marker_root(source, config, fs)
    } else if cluster_root(cluster, cache, config, fs) is Some {
        cluster_root(cluster, cache, config, fs)
    } else {
        Some(fallback_root(source, source_dirs))
    }
}

/// The project root of `source` when nothing is cached.
pub open spec fn root_of(
    source: PathView,
    source_dirs: Option<Set<PathView>>,
    cluster: Option<Set<PathView>>,
    config: ConfigView,
    fs: SnapshotView,
) -> Option<PathView> {
    root_with(Map::empty(), source, source_dirs, cluster, config, fs)
}

/// The paths that a resolution checks for exclusion: the file, and the
/// members of the cluster where the file is not excluded and has no marker
/// root.
pub open spec fn checked_paths(
    cache: Map<PathView, bool>,
    source: PathView,
    cluster: Option<Set<PathView>>,
    config: ConfigView,
    fs: SnapshotView,
) -> Set<PathView> {
    if excluded_with(cache, source, config, fs) || marker_root(source, config, fs) is Some {
        set![source]
    } else {
        match cluster {
            Some(members) => members.insert(source),
            None => set![source],
        }
    }
}

/// What a cache holds after the paths of `checked` were checked: what it held,
/// and for each resolved path that it had no verdict on, the verdict that
/// `config` gives.
pub open spec fn cache_filled(
    cache: Map<PathView, bool>,
    checked: Set<PathView>,
    config: ConfigView,
    fs: SnapshotView,
) -> Map<PathView, bool> {
    Map::new(
        |target: PathView|
            cache.contains_key(target) || exists|path: PathView| #[trigger]
                checked.contains(path) && fs.resolve(path) == Some(target),
        |target: PathView|
            if cache.contains_key(target) {
                cache[target]
            } else {
                config.excludes_path(target)
            },
    )
}

/// One more check fills the cache with one more path.
pub proof fn lemma_cache_filled_step(
    cache: Map<PathView, bool>,
    checked: Set<PathView>,
    path: PathView,
    config: ConfigView,
    fs: SnapshotView,
)
    ensures
        cache_after(cache_filled(cache, checked, config, fs), path, config, fs) == cache_filled(
            cache,
            checked.insert(path),
            config,
            fs,
        ),
        excluded_with(cache_filled(cache, checked, config, fs), path, config, fs) == excluded_with(
            cache,
            path,
            config,
            fs,
        ),
{
    let before = cache_filled(cache, checked, config, fs);
    let after = cache_after(before, path, config, fs);
    let wanted = cache_filled(cache, checked.insert(path), config, fs);
    assert forall|target: PathView| after.contains_key(target) <==> wanted.contains_key(
        target,
    ) by {
        if after.contains_key(target) && !cache.contains_key(target) {
            if before.contains_key(target) {
                let witness = choose|p: PathView| #[trigger]
                    checked.contains(p) && fs.resolve(p) == Some(target);
                assert(checked.insert(path).contains(witness));
            } else {
                assert(checked.insert(path).contains(path));
            }
        }
    }
}

/// Filling a cache twice fills it with the paths of both rounds.
pub proof fn lemma_cache_filled_twice(
    cache: Map<PathView, bool>,
    first: Set<PathView>,
    second: Set<PathView>,
    config: ConfigView,
    fs: SnapshotView,
)
    ensures
        cache_filled(cache_filled(cache, first, config, fs), second, config, fs) == cache_filled(
            cache,
            first.union(second),
            config,
            fs,
        ),
{
    let once = cache_filled(cache, first, config, fs);
    let twice = cache_filled(once, second, config, fs);
    let both = cache_filled(cache, first.union(second), config, fs);
    assert forall|target: PathView| twice.contains_key(target) <==> both.contains_key(target) by {
        if twice.contains_key(target) && !cache.contains_key(target) {
            if once.contains_key(target) {
                let witness = choose|p: PathView| #[trigger]
                    first.contains(p) && fs.resolve(p) == Some(target);
                assert(first.union(second).contains(witness));
            } else {
                let witness = choose|p: PathView| #[trigger]
                    second.contains(p) && fs.resolve(p) == Some(target);
                assert(first.union(second).contains(witness));
            }
        }
    }
}

/// The source directories of a batch: the parents of its files that are not
/// excluded.
pub open spec fn source_dirs_of(files: Seq<PathView>, config: ConfigView, fs: SnapshotView) -> Set<
    PathView,
> {
    Set::new(
        |dir: PathView|
            exists|i: int|
                0 <= i < files.len() && !excluded(#[trigger] files[i], config, fs)
                    && files[i].has_parent() && files[i].parent() == dir,
    )
}

/// Whether two of the paths differ.
pub fn two_differ(paths: &Vec<FsPath>) -> (differ: bool)
    ensures
        differ == has_two(path_views(paths@).to_set()),
{
    let ghost views = path_views(paths@);
    let mut i: usize = 1;
    while i < paths.len()
        invariant
            1 <= i,
            views == path_views(paths@),
            forall|j: int| 0 <= j < i && j < paths.len() ==> #[trigger] views[j] == views[0],
        decreases paths.len() - i,
    {
        if !paths[i].same_as(&paths[0]) {
            assert(views.to_set().contains(views[i as int]));
            assert(views.to_set().contains(views[0]));
            return true;
        }
        i += 1;
    }
    false
}

/// Collects the members of `cluster` that are not excluded, checking each
/// against the cache.
fn valid_files(
    cluster: &PathSet,
    config: &Config,
    cache: &mut ExclusionCache,
    fs: &Snapshot,
) -> (valid: Vec<FsPath>)
    ensures
        path_views(valid@).to_set() == valid_members(cluster@, old(cache)@, config@, fs@),
        final(cache)@ == cache_filled(old(cache)@, cluster@, config@, fs@),
{
    let ghost start = cache@;
    let ghost members = cluster.members();
    let mut valid: Vec<FsPath> = Vec::new();
    let mut i: usize = 0;
    while i < cluster.paths.len()
        invariant
            i <= cluster.paths.len(),
            members == cluster.members(),
            cache@ == cache_filled(start, members.take(i as int).to_set(), config@, fs@),
            path_views(valid@).to_set() == valid_members(
                members.take(i as int).to_set(),
                start,
                config@,
                fs@,
            ),
        decreases cluster.paths.len() - i,
    {
        let member = &cluster.paths[i];
        let ghost done = members.take(i as int).to_set();
        let ghost held = path_views(valid@);
        proof {
            lemma_cache_filled_step(start, done, member@, config@, fs@);
            assert(members.take(i + 1) =~= members.take(i as int).push(member@));
            members.take(i as int).lemma_push_to_set_commute(member@);
        }
        if !is_excluded(member, config, Some(&mut *cache), fs) {
            valid.push(member.clone());
            proof {
                assert(path_views(valid@) =~= held.push(member@));
                held.lemma_push_to_set_commute(member@);
            }
        }
        i += 1;
    }
    assert(members.take(members.len() as int) =~= members);
    valid
}

/// Resolves one file against a cache.
fn resolve_root(
    source_file: &FsPath,
    source_dirs: Option<&PathSet>,
    dependency_cluster: Option<&PathSet>,
    config: &Config,
    cache: &mut ExclusionCache,
    fs: &Snapshot,
) -> (root: Option<FsPath>)
    ensures
        root_view(root) == root_with(
            old(cache)@,
            source_file@,
            set_view(source_dirs),
            set_view(dependency_cluster),
            config@,
            fs@,
        ),
        final(cache)@ == cache_filled(
            old(cache)@,
            checked_paths(old(cache)@, source_file@, set_view(dependency_cluster), config@, fs@),
            config@,
            fs@,
        ),
{
    let ghost start = cache@;
    proof {
        lemma_cache_filled_step(start, Set::empty(), source_file@, config@, fs@);
    }
    if is_excluded(source_file, config, Some(&mut *cache), fs) {
        return None;
    }
    if let Some(root) = find_marker_root(source_file, config, fs) {
        return Some(root);
    }
    if let Some(cluster) = dependency_cluster {
        let ghost filled = cache@;
        let valid = valid_files(cluster, config, cache, fs);
        proof {
            assert(valid_members(cluster@, filled, config@, fs@) =~= valid_members(
                cluster@,
                start,
                config@,
                fs@,
            ));
            lemma_cache_filled_twice(start, set![source_file@], cluster@, config@, fs@);
            assert(set![source_file@].union(cluster@) =~= cluster@.insert(source_file@));
        }
        if two_differ(&valid) {
            if let Some(dir) = compute_lca(&valid, fs) {
                return Some(dir);
            }
        }
    }
    match source_dirs {
        Some(dirs) => Some(find_orphanage(source_file, dirs)),
        None => Some(parent_or_self(source_file)),
    }
}

/// Finds the project root of `source_file`, keeping the verdicts on exclusion
/// in `cache` where one is given.
///
/// The result is `None` for an excluded file. Else it is the innermost
/// directory above the file that holds a marker. Else, where the cluster has
/// two valid members or more and they have a lowest common ancestor, it is
/// that. Else it is the orphanage where the source directories are given, and
/// the file's immediate parent where they are not.
pub fn find_root_with_cache(
    source_file: &FsPath,
    source_dirs: Option<&PathSet>,
    dependency_cluster: Option<&PathSet>,
    config: &Config,
    cache: Option<&mut ExclusionCache>,
    fs: &Snapshot,
) -> (root: Option<FsPath>)
    ensures
        cache matches Some(held) ==> root_view(root) == root_with(
            held@,
            source_file@,
            set_view(source_dirs),
            set_view(dependency_cluster),
            config@,
            fs@,
        ) && final(held)@ == cache_filled(
            held@,
            checked_paths(held@, source_file@, set_view(dependency_cluster), config@, fs@),
            config@,
            fs@,
        ),
        cache is None ==> root_view(root) == root_of(
            source_file@,
            set_view(source_dirs),
            set_view(dependency_cluster),
            config@,
            fs@,
        ),
{
    match cache {
        Some(held) => resolve_root(source_file, source_dirs, dependency_cluster, config, held, fs),
        None => {
            let mut scratch = ExclusionCache::new();
            resolve_root(source_file, source_dirs, dependency_cluster, config, &mut scratch, fs)
        },
    }
}

/// Finds the project root of `source_file`.
pub fn find_root(
    source_file: &FsPath,
    source_dirs: Option<&PathSet>,
    dependency_cluster: Option<&PathSet>,
    config: &Config,
    fs: &Snapshot,
) -> (root: Option<FsPath>)
    ensures
        root_view(root) == root_of(
            source_file@,
            set_view(source_dirs),
            set_view(dependency_cluster),
            config@,
            fs@,
        ),
{
    find_root_with_cache(source_file, source_dirs, dependency_cluster, config, None, fs)
}

/// The source directories of a batch, file by file: one more file adds its
/// parent where it has one and is not excluded, and nothing otherwise.
proof fn lemma_source_dirs_step(
    files: Seq<PathView>,
    count: int,
    config: ConfigView,
    fs: SnapshotView,
)
    requires
        0 <= count < files.len(),
    ensures
        source_dirs_of(files.take(count + 1), config, fs) == if !excluded(files[count], config, fs)
            && files[count].has_parent() {
            source_dirs_of(files.take(count), config, fs).insert(files[count].parent())
        } else {
            source_dirs_of(files.take(count), config, fs)
        },
{
    let done = files.take(count);
    let next = files.take(count + 1);
    let adds = !excluded(files[count], config, fs) && files[count].has_parent();
    let wanted = if adds {
        source_dirs_of(done, config, fs).insert(files[count].parent())
    } else {
        source_dirs_of(done, config, fs)
    };
    assert forall|dir: PathView| source_dirs_of(next, config, fs).contains(dir) <==> wanted.contains(
        dir,
    ) by {
        if adds && dir == files[count].parent() {
            assert(next[count] == files[count]);
        }
    }
}

/// Collects the source directories of a batch: the parent of each file that
/// is not excluded, each once and in the order of the files. The verdicts go
/// through the cache, which must hold none that the configuration would not
/// give.
pub(crate) fn source_dirs(
    source_files: &[FsPath],
    config: &Config,
    cache: &mut ExclusionCache,
    fs: &Snapshot,
) -> (dirs: PathSet)
    requires
        cache_agrees(old(cache)@, config@),
    ensures
        dirs@ == source_dirs_of(path_views(source_files@), config@, fs@),
        dirs.members().no_duplicates(),
        cache_agrees(final(cache)@, config@),
        final(cache)@ == cache_filled(
            old(cache)@,
            path_views(source_files@).to_set(),
            config@,
            fs@,
        ),
{
    let ghost start = cache@;
    let ghost files = path_views(source_files@);
    let mut dirs = PathSet::new();
    let mut i: usize = 0;
    while i < source_files.len()
        invariant
            i <= source_files.len(),
            files == path_views(source_files@),
            cache_agrees(start, config@),
            cache@ == cache_filled(start, files.take(i as int).to_set(), config@, fs@),
            dirs@ == source_dirs_of(files.take(i as int), config@, fs@),
            dirs.members().no_duplicates(),
        decreases source_files.len() - i,
    {
        let file = &source_files[i];
        proof {
            let done = files.take(i as int);
            assert(files.take(i + 1) =~= done.push(file@));
            done.lemma_push_to_set_commute(file@);
            lemma_cache_filled_step(start, done.to_set(), file@, config@, fs@);
            lemma_source_dirs_step(files, i as int, config@, fs@);
        }
        if !is_excluded(file, config, Some(&mut *cache), fs) {
            if let Some(parent) = file.parent() {
                dirs.insert(parent);
            }
        }
        i += 1;
    }
    assert(files.take(files.len() as int) =~= files);
    dirs
}

/// Finds the project root of each file of a batch.
///
/// The source directories are computed from the whole batch first, so that
/// the files of one unmarked tree get one root. The results come in the order
/// of the files.
pub fn find_roots_batch(source_files: &[FsPath], config: &Config, fs: &Snapshot) -> (results: Vec<
    (FsPath, Option<FsPath>),
>)
    ensures
        results.len() == source_files.len(),
        forall|i: int|
            0 <= i < results.len() ==> (#[trigger] results[i]).0@ == source_files[i]@ && root_view(
                results[i].1,
            ) == root_of(
                source_files[i]@,
                Some(source_dirs_of(path_views(source_files@), config@, fs@)),
                None,
                config@,
                fs@,
            ),
{
    let mut cache = ExclusionCache::new();
    let dirs = source_dirs(source_files, config, &mut cache, fs);
    let mut results: Vec<(FsPath, Option<FsPath>)> = Vec::new();
    let mut i: usize = 0;
    while i < source_files.len()
        invariant
            i <= source_files.len(),
            results.len() == i,
            cache_agrees(cache@, config@),
            dirs@ == source_dirs_of(path_views(source_files@), config@, fs@),
            forall|k: int|
                0 <= k < i ==> (#[trigger] results[k]).0@ == source_files[k]@ && root_view(
                    results[k].1,
                ) == root_of(source_files[k]@, Some(dirs@), None, config@, fs@),
        decreases source_files.len() - i,
    {
        let file = &source_files[i];
        let root = find_root_with_cache(file, Some(&dirs), None, config, Some(&mut cache), fs);
        results.push((file.clone(), root));
        i += 1;
    }
    results
}

} // verus!
