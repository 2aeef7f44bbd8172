//! What a snapshot must hold before a resolution can be trusted, and which
//! directories are still to be listed.
//!
//! A snapshot is filled step by step: ask which directory is needed next, list
//! it, record the listing, and ask again. When nothing is needed any more, the
//! snapshot gives the results that the whole file system would give.

use crate::config::{Config, ConfigView};
use crate::exclusion::{excluded, is_excluded};
use crate::lca::{is_common_ancestor, is_lca, lca, resolving};
use crate::marker::marker_root_from;
use crate::path::{FsPath, PathView};
use crate::path_set::path_views;
use crate::resolve::{root_of, root_view, source_dirs_of, valid_members};
use crate::snapshot::{entry_views, EntryKind, Snapshot, SnapshotView};
use crate::traverse::{walk_dir, walk_entries, OptionsView, TraversalOptions};
use vstd::prelude::*;

verus! {

/// Whether every listing of `fs` is the listing that `world` has.
pub open spec fn listings_agree(fs: SnapshotView, world: SnapshotView) -> bool {
    forall|dir: PathView| #[trigger]
        fs.listings.contains_key(dir) ==> fs.entries(dir) == world.entries(dir)
}

/// The directory that the search for a marker root needs listed next, when it
/// starts at the ancestor of `source` with `start` names: the first directory
/// without a listing that the search reaches. There is none where the search
/// ends with what the snapshot holds.
pub open spec fn unlisted_from(
    source: PathView,
    start: int,
    config: ConfigView,
    fs: SnapshotView,
) -> Option<PathView>
    decreases start + 1,
{
    if start < 0 {
        None
    } else if config.is_boundary(source.ancestor(start)) {
        None
    } else if !fs.listings.contains_key(source.ancestor(start)) {
        Some(source.ancestor(start))
    } else if fs.has_marker(source.ancestor(start), config) {
        None
    } else {
        unlisted_from(source, start - 1, config, fs)
    }
}

/// The directory that the search for the marker root of `source` needs listed
/// next.
pub open spec fn unlisted_ancestor(source: PathView, config: ConfigView, fs: SnapshotView) -> Option<
    PathView,
> {
    unlisted_from(source, source.names.len() - 1, config, fs)
}

/// Where the search needs no further listing, it finds in the snapshot what it
/// would find in the whole file system.
pub proof fn covered_search_is_exact(
    source: PathView,
    start: int,
    config: ConfigView,
    fs: SnapshotView,
    world: SnapshotView,
)
    requires
        listings_agree(fs, world),
        unlisted_from(source, start, config, fs).is_none(),
    ensures
        marker_root_from(source, start, config, fs) == marker_root_from(source, start, config, world),
    decreases start + 1,
{
    if start >= 0 && !config.is_boundary(source.ancestor(start)) {
        let dir = source.ancestor(start);
        if !fs.has_marker(dir, config) {
            covered_search_is_exact(source, start - 1, config, fs, world);
        }
    }
}

/// Whether `fs` and `world` resolve every path of `paths` alike.
pub open spec fn resolutions_agree(paths: Set<PathView>, fs: SnapshotView, world: SnapshotView) -> bool {
    forall|path: PathView| #[trigger] paths.contains(path) ==> fs.resolve(path) == world.resolve(path)
}

/// Two snapshots that resolve the paths of a set alike give the set the same
/// lowest common ancestor.
proof fn lemma_lca_covered(paths: Set<PathView>, fs: SnapshotView, world: SnapshotView)
    requires
        resolutions_agree(paths, fs, world),
    ensures
        lca(paths, fs) == lca(paths, world),
{
    assert(forall|dir: PathView|
        is_common_ancestor(dir, paths, fs) == is_common_ancestor(dir, paths, world));
    assert(resolving(paths, fs) =~= resolving(paths, world));
    assert(forall|dir: PathView| is_lca(dir, paths, fs) == is_lca(dir, paths, world));
}

/// The directory that the resolution of `source` needs listed next: none for
/// an excluded file, whose resolution reads no listing; else the one that the
/// search for its marker root needs.
pub open spec fn needed_listing(source: PathView, config: ConfigView, fs: SnapshotView) -> Option<
    PathView,
> {
    if excluded(source, config, fs) {
        None
    } else {
        unlisted_ancestor(source, config, fs)
    }
}

/// A snapshot that holds enough gives the true root: where the snapshot
/// resolves the file and the members of its cluster as the whole file system
/// does, its listings are those of the file system, and the resolution needs
/// no further listing, the root that the snapshot gives is the root that the
/// file system gives.
pub proof fn covered_root_is_exact(
    source: PathView,
    source_dirs: Option<Set<PathView>>,
    cluster: Option<Set<PathView>>,
    config: ConfigView,
    fs: SnapshotView,
    world: SnapshotView,
)
    requires
        listings_agree(fs, world),
        needed_listing(source, config, fs).is_none(),
        fs.resolve(source) == world.resolve(source),
        cluster matches Some(members) ==> resolutions_agree(members, fs, world),
    ensures
        root_of(source, source_dirs, cluster, config, fs) == root_of(
            source,
            source_dirs,
            cluster,
            config,
            world,
        ),
{
    if !excluded(source, config, fs) {
        covered_search_is_exact(source, source.names.len() - 1, config, fs, world);
    }
    match cluster {
        Some(members) => {
            let here = valid_members(members, Map::empty(), config, fs);
            let there = valid_members(members, Map::empty(), config, world);
            assert(here =~= there);
            lemma_lca_covered(here, fs, world);
        },
        None => {},
    }
}

/// Two snapshots that resolve the files of a batch alike give the batch the
/// same source directories.
pub proof fn covered_source_dirs_are_exact(
    files: Seq<PathView>,
    config: ConfigView,
    fs: SnapshotView,
    world: SnapshotView,
)
    requires
        resolutions_agree(files.to_set(), fs, world),
    ensures
        source_dirs_of(files, config, fs) == source_dirs_of(files, config, world),
{
    assert forall|i: int| 0 <= i < files.len() implies excluded(#[trigger] files[i], config, fs)
        == excluded(files[i], config, world) by {
        assert(files.to_set().contains(files[i]));
    }
}

/// A snapshot that holds enough gives a batch its true roots: where the
/// snapshot resolves the files of a batch as the whole file system does, its
/// listings are those of the file system, and no file's resolution needs a
/// further listing, each file has in the snapshot the root that it has in the
/// file system.
pub proof fn covered_batch_is_exact(
    files: Seq<PathView>,
    index: int,
    config: ConfigView,
    fs: SnapshotView,
    world: SnapshotView,
)
    requires
        0 <= index < files.len(),
        listings_agree(fs, world),
        resolutions_agree(files.to_set(), fs, world),
        needed_listing(files[index], config, fs).is_none(),
    ensures
        root_of(files[index], Some(source_dirs_of(files, config, fs)), None, config, fs) == root_of(
            files[index],
            Some(source_dirs_of(files, config, world)),
            None,
            config,
            world,
        ),
{
    covered_source_dirs_are_exact(files, config, fs, world);
    assert(files.to_set().contains(files[index]));
    covered_root_is_exact(
        files[index],
        Some(source_dirs_of(files, config, fs)),
        None,
        config,
        fs,
        world,
    );
}

/// Finds the directory that the resolution of `source` needs listed next.
pub fn next_needed_listing(source: &FsPath, config: &Config, fs: &Snapshot) -> (dir: Option<FsPath>)
    ensures
        root_view(dir) == needed_listing(source@, config@, fs@),
{
    if is_excluded(source, config, None, fs) {
        None
    } else {
        next_unlisted_ancestor(source, config, fs)
    }
}

/// Finds the directory that the search for the marker root of `source` needs
/// listed next.
pub fn next_unlisted_ancestor(source: &FsPath, config: &Config, fs: &Snapshot) -> (dir: Option<
    FsPath,
>)
    ensures
        root_view(dir) == unlisted_ancestor(source@, config@, fs@),
{
    let mut dir = source.clone();
    let mut depth: usize = source.names.len();
    assert(source@.ancestor(depth as int).names =~= source@.names);
    while depth > 0
        invariant
            depth <= source.names.len(),
            dir@ == source@.ancestor(depth as int),
            unlisted_from(source@, depth - 1, config@, fs@) == unlisted_ancestor(
                source@,
                config@,
                fs@,
            ),
        decreases depth,
    {
        let ghost longer = dir@;
        dir.names.pop();
        depth -= 1;
        assert(dir@.names =~= longer.names.drop_last());
        assert(dir@.names =~= source@.ancestor(depth as int).names);
        if depth > 0 && config.matches_exclusion(dir.names[depth - 1].as_str()) {
            return None;
        }
        if fs.list(&dir).is_none() {
            return Some(dir);
        }
        if config.marker_exists_in(&dir, fs) {
            return None;
        }
    }
    None
}

/// The directories that a walk needs listed: those that it reaches from `dir`
/// and that have no listing, in the order in which it reaches them.
pub open spec fn gaps_dir(
    fs: SnapshotView,
    config: ConfigView,
    options: OptionsView,
    dir: PathView,
    depth: nat,
) -> Seq<PathView>
    decreases options.levels_left(depth), 1nat, 0nat,
{
    if depth > options.depth_limit() || config.is_boundary(dir) {
        Seq::empty()
    } else if !fs.listings.contains_key(dir) {
        seq![dir]
    } else {
        gaps_entries(fs, config, options, dir, depth, fs.entries(dir).len())
    }
}

/// The directories that a walk needs listed below the first `count` entries
/// of `dir`.
pub open spec fn gaps_entries(
    fs: SnapshotView,
    config: ConfigView,
    options: OptionsView,
    dir: PathView,
    depth: nat,
    count: nat,
) -> Seq<PathView>
    decreases options.levels_left(depth), 0nat, count,
{
    if count == 0 || count > fs.entries(dir).len() || depth > options.depth_limit() {
        Seq::empty()
    } else {
        let entry = fs.entries(dir)[count - 1];
        let before = gaps_entries(fs, config, options, dir, depth, (count - 1) as nat);
        match entry.kind {
            EntryKind::Directory => before + gaps_dir(
                fs,
                config,
                options,
                dir.child(entry.name),
                depth + 1,
            ),
            _ => before,
        }
    }
}

/// Where a walk needs no further listing, it collects from the snapshot what
/// it would collect from the whole file system.
pub proof fn covered_walk_is_exact(
    fs: SnapshotView,
    world: SnapshotView,
    config: ConfigView,
    options: OptionsView,
    dir: PathView,
    depth: nat,
)
    requires
        listings_agree(fs, world),
        gaps_dir(fs, config, options, dir, depth).len() == 0,
    ensures
        walk_dir(fs, config, options, dir, depth) == walk_dir(world, config, options, dir, depth),
    decreases options.levels_left(depth), 1nat, 0nat,
{
    if !(depth > options.depth_limit() || config.is_boundary(dir)) {
        covered_entries_are_exact(fs, world, config, options, dir, depth, fs.entries(dir).len());
    }
}

/// Where a walk needs no further listing below the first `count` entries of
/// a directory, it collects from them what it would collect in the whole file
/// system.
pub proof fn covered_entries_are_exact(
    fs: SnapshotView,
    world: SnapshotView,
    config: ConfigView,
    options: OptionsView,
    dir: PathView,
    depth: nat,
    count: nat,
)
    requires
        listings_agree(fs, world),
        fs.entries(dir) == world.entries(dir),
        gaps_entries(fs, config, options, dir, depth, count).len() == 0,
    ensures
        walk_entries(fs, config, options, dir, depth, count) == walk_entries(
            world,
            config,
            options,
            dir,
            depth,
            count,
        ),
    decreases options.levels_left(depth), 0nat, count,
{
    if !(count == 0 || count > fs.entries(dir).len() || depth > options.depth_limit()) {
        let entry = fs.entries(dir)[count - 1];
        covered_entries_are_exact(fs, world, config, options, dir, depth, (count - 1) as nat);
        match entry.kind {
            EntryKind::Directory => {
                covered_walk_is_exact(fs, world, config, options, dir.child(entry.name), depth + 1);
            },
            _ => {},
        }
    }
}

/// Collects into `gaps` the directories that a walk from `dir` needs listed.
pub fn collect_gaps(
    dir: &FsPath,
    config: &Config,
    options: &TraversalOptions,
    depth: usize,
    gaps: &mut Vec<FsPath>,
    fs: &Snapshot,
)
    ensures
        path_views(final(gaps)@) == path_views(old(gaps)@) + gaps_dir(
            fs@,
            config@,
            options@,
            dir@,
            depth as nat,
        ),
    decreases options@.levels_left(depth as nat),
{
    let ghost start = path_views(gaps@);
    if let Some(limit) = options.max_depth {
        if depth > limit {
            return ;
        }
    }
    if let Some(name) = dir.file_name() {
        if config.matches_exclusion(name) {
            return ;
        }
    }
    let entries = match fs.list(dir) {
        Some(entries) => entries,
        None => {
            gaps.push(dir.clone());
            return ;
        },
    };
    let mut i: usize = 0;
    while i < entries.len()
        invariant
            i <= entries.len(),
            depth <= options@.depth_limit(),
            fs@.entries(dir@) == entry_views(entries@),
            path_views(gaps@) == start + gaps_entries(
                fs@,
                config@,
                options@,
                dir@,
                depth as nat,
                i as nat,
            ),
        decreases entries.len() - i,
    {
        let entry = &entries[i];
        let ghost before = gaps_entries(fs@, config@, options@, dir@, depth as nat, i as nat);
        match entry.kind {
            EntryKind::Directory => {
                let path = dir.join(entry.name.as_str());
                if depth < usize::MAX {
                    collect_gaps(&path, config, options, depth + 1, gaps, fs);
                }
                assert(path_views(gaps@) =~= start + (before + gaps_dir(
                    fs@,
                    config@,
                    options@,
                    path@,
                    (depth + 1) as nat,
                )));
            },
            _ => {},
        }
        i += 1;
    }
}

/// The directories that a walk from `start_path` needs listed before it can
/// be trusted; none when the snapshot holds all that the walk reads.
pub fn unlisted_directories(
    start_path: &FsPath,
    config: &Config,
    options: &TraversalOptions,
    fs: &Snapshot,
) -> (gaps: Vec<FsPath>)
    ensures
        path_views(gaps@) == gaps_dir(fs@, config@, options@, start_path@, 0),
{
    let mut gaps: Vec<FsPath> = Vec::new();
    collect_gaps(start_path, config, options, 0, &mut gaps, fs);
    gaps
}

} // verus!
