//! What holds of every resolution.

use crate::config::ConfigView;
use crate::exclusion::{cache_agrees, excluded, excluded_with};
use crate::lca::{is_common_ancestor, is_lca, resolving};
use crate::marker::{found_from, lemma_marker_root_from, marker_root};
use crate::orphanage::{immediate_parent, is_orphanage, start_depth};
use crate::path::PathView;
use crate::path_set::has_two;
use crate::resolve::{
    cache_filled, checked_paths, root_of, root_with, source_dirs_of, valid_members,
};
use crate::snapshot::{EntryKind, EntryView, SnapshotView};
use crate::traverse::{walk, walk_dir, walk_entries, OptionsView};
use vstd::prelude::*;

verus! {

/// Whether no directory from the parent of `file` up to its ancestor with
/// `depth` names is an exclusion zone.
pub open spec fn clear_down_to(file: PathView, depth: int, config: ConfigView) -> bool {
    forall|d: int| depth <= d < file.names.len() ==> !config.is_boundary(#[trigger] file.ancestor(d))
}

/// Whether no directory from the parent of `file` up to, but without, its
/// ancestor with `depth` names holds a marker.
pub open spec fn unmarked_below(
    file: PathView,
    depth: int,
    config: ConfigView,
    fs: SnapshotView,
) -> bool {
    forall|d: int| depth < d < file.names.len() ==> !fs.has_marker(#[trigger] file.ancestor(d), config)
}

/// A directory above a file is the file's ancestor with as many names as the
/// directory has.
pub proof fn lemma_ancestor_at_depth(file: PathView, dir: PathView)
    requires
        file.has_ancestor(dir),
    ensures
        file.ancestor(dir.names.len() as int) == dir,
        0 <= dir.names.len() < file.names.len(),
{
}

/// One marker, any depth: where a directory above a file holds a marker, and
/// no directory between the two holds one, the file's root is that directory,
/// however deep below it the file lies. The file must not be excluded, and no
/// directory from its parent up to the root may be an exclusion zone.
pub proof fn single_marker_is_root(
    file: PathView,
    root: PathView,
    source_dirs: Option<Set<PathView>>,
    cluster: Option<Set<PathView>>,
    config: ConfigView,
    fs: SnapshotView,
)
    requires
        file.has_ancestor(root),
        fs.has_marker(root, config),
        unmarked_below(file, root.names.len() as int, config, fs),
        clear_down_to(file, root.names.len() as int, config),
        !excluded(file, config, fs),
    ensures
        root_of(file, source_dirs, cluster, config, fs) == Some(root),
{
    assert(found_from(file, file.names.len() - 1, root.names.len() as int, config, fs));
    lemma_marker_root_from(file, file.names.len() - 1, config, fs);
}

/// Innermost wins: where two directories above a file hold markers, the
/// file's root is never the outer one. It is a directory that holds a marker
/// and lies at the inner one or below it; it is the inner one where no
/// directory between the inner one and the file holds a marker. The file must
/// not be excluded, and no directory from its parent up to the inner one may
/// be an exclusion zone.
pub proof fn innermost_marker_wins(
    file: PathView,
    outer: PathView,
    inner: PathView,
    source_dirs: Option<Set<PathView>>,
    cluster: Option<Set<PathView>>,
    config: ConfigView,
    fs: SnapshotView,
)
    requires
        file.has_ancestor(outer),
        file.has_ancestor(inner),
        outer.names.len() < inner.names.len(),
        fs.has_marker(outer, config),
        fs.has_marker(inner, config),
        clear_down_to(file, inner.names.len() as int, config),
        !excluded(file, config, fs),
    ensures
        root_of(file, source_dirs, cluster, config, fs) matches Some(root) && root != outer
            && file.has_ancestor(root) && root.is_under(inner) && fs.has_marker(root, config),
        unmarked_below(file, inner.names.len() as int, config, fs) ==> root_of(
            file,
            source_dirs,
            cluster,
            config,
            fs,
        ) == Some(inner),
{
    lemma_marker_root_from(file, file.names.len() - 1, config, fs);
    lemma_marked_from(file, file.names.len() - 1, inner.names.len() as int, config, fs);
}

/// A search that meets a marker before it meets an exclusion zone ends at a
/// marker, at that depth or deeper.
proof fn lemma_marked_from(
    file: PathView,
    start: int,
    depth: int,
    config: ConfigView,
    fs: SnapshotView,
)
    requires
        0 <= depth <= start,
        fs.has_marker(file.ancestor(depth), config),
        forall|d: int| depth <= d <= start ==> !config.is_boundary(#[trigger] file.ancestor(d)),
    ensures
        exists|at: int|
            depth <= at <= start && found_from(file, start, at, config, fs),
    decreases start - depth,
{
    if fs.has_marker(file.ancestor(start), config) {
        assert(found_from(file, start, start, config, fs));
    } else {
        let below = start - 1;
        lemma_marked_from(file, below, depth, config, fs);
        let at = choose|at: int| depth <= at <= below && found_from(file, below, at, config, fs);
        assert(found_from(file, start, at, config, fs));
    }
}

/// Exclusion dominance, for the search: a marker at an exclusion zone above a
/// file, or above that zone, is never the file's marker root.
pub proof fn marker_above_boundary_is_not_found(
    file: PathView,
    boundary: PathView,
    marked: PathView,
    config: ConfigView,
    fs: SnapshotView,
)
    requires
        file.has_ancestor(boundary),
        config.is_boundary(boundary),
        boundary.is_under(marked),
    ensures
        marker_root(file, config, fs) != Some(marked),
{
    lemma_ancestor_at_depth(file, boundary);
    lemma_marker_root_from(file, file.names.len() - 1, config, fs);
}

/// Exclusion dominance, for the result: a file whose resolved form lies in an
/// exclusion zone, or below one, has no root, whatever markers there are.
pub proof fn exclusion_dominates(
    file: PathView,
    boundary: PathView,
    source_dirs: Option<Set<PathView>>,
    cluster: Option<Set<PathView>>,
    config: ConfigView,
    fs: SnapshotView,
)
    requires
        config.is_boundary(boundary),
        fs.resolve(file) matches Some(target) ==> target.is_under(boundary),
    ensures
        root_of(file, source_dirs, cluster, config, fs).is_none(),
{
}

/// A set of paths has at most one lowest common ancestor.
pub proof fn lowest_common_ancestor_is_unique(
    a: PathView,
    b: PathView,
    paths: Set<PathView>,
    fs: SnapshotView,
)
    requires
        is_lca(a, paths, fs),
        is_lca(b, paths, fs),
    ensures
        a == b,
{
}

/// Where two files of a set or more resolve, and those that resolve share a
/// directory above them, the set has a lowest common ancestor.
pub proof fn lemma_lca_exists(shared: PathView, paths: Set<PathView>, fs: SnapshotView)
    requires
        has_two(resolving(paths, fs)),
        is_common_ancestor(shared, paths, fs),
    ensures
        exists|dir: PathView| is_lca(dir, paths, fs),
{
    let (path, other) = choose|a: PathView, b: PathView| #[trigger]
        resolving(paths, fs).contains(a) && #[trigger] resolving(paths, fs).contains(b) && a != b;
    let target = fs.resolve(path).unwrap();
    lemma_lca_search(shared, target, paths, fs);
}

/// The induction behind `lemma_lca_exists`, on how far `shared` lies above
/// one resolved member.
proof fn lemma_lca_search(
    shared: PathView,
    target: PathView,
    paths: Set<PathView>,
    fs: SnapshotView,
)
    requires
        has_two(resolving(paths, fs)),
        is_common_ancestor(shared, paths, fs),
        target.has_ancestor(shared),
        exists|path: PathView| #[trigger] paths.contains(path) && fs.resolve(path) == Some(target),
    ensures
        exists|dir: PathView| is_lca(dir, paths, fs),
    decreases target.names.len() - shared.names.len(),
{
    if exists|deeper: PathView|
        is_common_ancestor(deeper, paths, fs) && deeper.names.len() > shared.names.len() {
        let deeper = choose|deeper: PathView|
            is_common_ancestor(deeper, paths, fs) && deeper.names.len() > shared.names.len();
        lemma_lca_search(deeper, target, paths, fs);
    } else {
        assert(is_lca(shared, paths, fs));
    }
}

/// The cluster decides: for a file that is not excluded and has no marker
/// root, with a cluster of two valid members or more that share a directory
/// above them, the root is the deepest directory that lies above every valid
/// member of the cluster.
pub proof fn cluster_resolves_to_lca(
    file: PathView,
    shared: PathView,
    source_dirs: Option<Set<PathView>>,
    cluster: Set<PathView>,
    config: ConfigView,
    fs: SnapshotView,
)
    requires
        !excluded(file, config, fs),
        marker_root(file, config, fs).is_none(),
        has_two(valid_members(cluster, Map::empty(), config, fs)),
        is_common_ancestor(shared, valid_members(cluster, Map::empty(), config, fs), fs),
    ensures
        root_of(file, source_dirs, Some(cluster), config, fs) matches Some(root) && is_lca(
            root,
            valid_members(cluster, Map::empty(), config, fs),
            fs,
        ),
        forall|dir: PathView|
            is_lca(dir, valid_members(cluster, Map::empty(), config, fs), fs) ==> root_of(
                file,
                source_dirs,
                Some(cluster),
                config,
                fs,
            ) == Some(dir),
{
    let valid = valid_members(cluster, Map::empty(), config, fs);
    assert(resolving(valid, fs) =~= valid);
    lemma_lca_exists(shared, valid, fs);
}

/// A file has at most one orphanage among its ancestors.
pub proof fn orphanage_is_unique(source: PathView, dirs: Set<PathView>, a: int, b: int)
    requires
        is_orphanage(source, dirs, a),
        is_orphanage(source, dirs, b),
    ensures
        a == b,
{
}

/// Orphans converge: in a batch whose files all lie below one directory, with
/// a file that is not excluded directly in that directory, every file of the
/// batch that is not excluded and has no marker root has that directory as
/// its root, however deep below it the file lies.
pub proof fn orphans_converge(
    files: Seq<PathView>,
    top: PathView,
    index: int,
    anchor_index: int,
    config: ConfigView,
    fs: SnapshotView,
)
    requires
        forall|i: int| 0 <= i < files.len() ==> (#[trigger] files[i]).has_ancestor(top),
        0 <= index < files.len(),
        0 <= anchor_index < files.len(),
        files[anchor_index].parent() == top,
        !excluded(files[anchor_index], config, fs),
        !excluded(files[index], config, fs),
        marker_root(files[index], config, fs).is_none(),
    ensures
        root_of(files[index], Some(source_dirs_of(files, config, fs)), None, config, fs) == Some(
            top,
        ),
{
    let file = files[index];
    let dirs = source_dirs_of(files, config, fs);
    let depth = top.names.len() as int;
    assert forall|d: int| 0 <= d < depth implies !dirs.contains(#[trigger] file.ancestor(d)) by {
        if dirs.contains(file.ancestor(d)) {
            let i = choose|i: int|
                0 <= i < files.len() && !excluded(#[trigger] files[i], config, fs)
                    && files[i].has_parent() && files[i].parent() == file.ancestor(d);
            assert(files[i].parent().names.len() == d);
        }
    }
    assert(is_orphanage(file, dirs, depth));
}

/// The lone orphan falls back: a file that is not excluded and has neither a
/// marker root nor a cluster has its immediate parent as its root, where the
/// source directories are not known or none of them lies above that parent.
pub proof fn isolated_orphan_falls_back(
    file: PathView,
    source_dirs: Option<Set<PathView>>,
    config: ConfigView,
    fs: SnapshotView,
)
    requires
        !excluded(file, config, fs),
        marker_root(file, config, fs).is_none(),
        source_dirs matches Some(dirs) ==> forall|d: int|
            0 <= d < start_depth(file) ==> !dirs.contains(#[trigger] file.ancestor(d)),
    ensures
        root_of(file, source_dirs, None, config, fs) == Some(immediate_parent(file)),
{
}

/// The lone orphan falls back, for a batch: the only file of a batch, if it
/// is not excluded and has no marker root, has its immediate parent as its
/// root.
pub proof fn single_file_batch_falls_back(file: PathView, config: ConfigView, fs: SnapshotView)
    requires
        !excluded(file, config, fs),
        marker_root(file, config, fs).is_none(),
    ensures
        root_of(file, Some(source_dirs_of(seq![file], config, fs)), None, config, fs) == Some(
            immediate_parent(file),
        ),
{
    isolated_orphan_falls_back(file, Some(source_dirs_of(seq![file], config, fs)), config, fs);
}

/// Without a cluster, the root lies above the file: it is one of the file's
/// ancestors, or the file itself where the file is a bare anchor.
pub proof fn root_lies_above_file(
    file: PathView,
    source_dirs: Option<Set<PathView>>,
    config: ConfigView,
    fs: SnapshotView,
)
    ensures
        root_of(file, source_dirs, None, config, fs) matches Some(root) ==> file.is_under(root) && (
        file.has_parent() ==> file.has_ancestor(root)),
{
    lemma_marker_root_from(file, file.names.len() - 1, config, fs);
}

/// Whether the listing of the parent of `path` holds the last name of `path`
/// as an entry of the given kind.
pub open spec fn is_listed_as(fs: SnapshotView, path: PathView, kind: EntryKind) -> bool {
    path.has_parent() && fs.entries(path.parent()).contains(
        EntryView { name: path.names.last(), kind },
    )
}

/// Whether a walk that reaches `dir` at `depth` may collect `file`: the file
/// lies below `dir`, no more levels below it than the walk may still enter;
/// its parent lists it as a file and the options accept it; and every
/// directory from `dir` down to the file's parent is listed as a directory
/// by the one above it, `dir` apart, and is no exclusion zone.
pub open spec fn may_collect(
    fs: SnapshotView,
    config: ConfigView,
    options: OptionsView,
    dir: PathView,
    depth: nat,
    file: PathView,
) -> bool {
    &&& file.has_ancestor(dir)
    &&& depth + file.names.len() - dir.names.len() - 1 <= options.depth_limit()
    &&& is_listed_as(fs, file, EntryKind::File)
    &&& options.accepts(file)
    &&& clear_down_to(file, dir.names.len() as int, config)
    &&& forall|d: int|
        dir.names.len() < d < file.names.len() ==> is_listed_as(
            fs,
            #[trigger] file.ancestor(d),
            EntryKind::Directory,
        )
}

/// A walk collects only what it may: no file from outside the starting
/// directory, from an exclusion zone, from beyond the depth limit or with an
/// extension that was not asked for, and none that the listings do not lead
/// to.
pub proof fn walk_collects_only_what_it_may(
    fs: SnapshotView,
    config: ConfigView,
    options: OptionsView,
    start: PathView,
    index: int,
)
    requires
        0 <= index < walk(fs, config, options, start).len(),
    ensures
        may_collect(fs, config, options, start, 0, walk(fs, config, options, start)[index]),
{
    lemma_walk_dir_may(fs, config, options, start, 0, index);
}

/// `walk_collects_only_what_it_may`, for a directory that the walk reaches at
/// any depth.
proof fn lemma_walk_dir_may(
    fs: SnapshotView,
    config: ConfigView,
    options: OptionsView,
    dir: PathView,
    depth: nat,
    index: int,
)
    requires
        0 <= index < walk_dir(fs, config, options, dir, depth).len(),
    ensures
        may_collect(fs, config, options, dir, depth, walk_dir(fs, config, options, dir, depth)[index]),
    decreases options.levels_left(depth), 1nat, 0nat,
{
    lemma_walk_entries_may(fs, config, options, dir, depth, fs.entries(dir).len(), index);
}

/// `walk_collects_only_what_it_may`, for the first `count` entries of a
/// directory that is no exclusion zone.
proof fn lemma_walk_entries_may(
    fs: SnapshotView,
    config: ConfigView,
    options: OptionsView,
    dir: PathView,
    depth: nat,
    count: nat,
    index: int,
)
    requires
        !config.is_boundary(dir),
        0 <= index < walk_entries(fs, config, options, dir, depth, count).len(),
    ensures
        may_collect(
            fs,
            config,
            options,
            dir,
            depth,
            walk_entries(fs, config, options, dir, depth, count)[index],
        ),
    decreases options.levels_left(depth), 0nat, count,
{
    let entry = fs.entries(dir)[count - 1];
    let before = walk_entries(fs, config, options, dir, depth, (count - 1) as nat);
    let path = dir.child(entry.name);
    if index < before.len() {
        lemma_walk_entries_may(fs, config, options, dir, depth, (count - 1) as nat, index);
    } else {
        assert(path.ancestor(dir.names.len() as int).names =~= dir.names);
        if entry.kind is Directory {
            lemma_walk_dir_may(fs, config, options, path, depth + 1, index - before.len());
        }
    }
}

/// What a walk collects from the first entries of a directory stays in
/// front when it goes on to more of them.
proof fn lemma_entries_grow(
    fs: SnapshotView,
    config: ConfigView,
    options: OptionsView,
    dir: PathView,
    depth: nat,
    count: nat,
    more: nat,
)
    requires
        count <= more <= fs.entries(dir).len(),
        depth <= options.depth_limit(),
    ensures
        walk_entries(fs, config, options, dir, depth, count).is_prefix_of(
            walk_entries(fs, config, options, dir, depth, more),
        ),
    decreases more - count,
{
    if count < more {
        lemma_entries_grow(fs, config, options, dir, depth, count, (more - 1) as nat);
    }
}

/// A walk collects all that it may: every file that the listings lead to
/// from the starting directory, through no exclusion zone and within the depth
/// limit, with an extension that was asked for.
pub proof fn walk_collects_all_that_it_may(
    fs: SnapshotView,
    config: ConfigView,
    options: OptionsView,
    start: PathView,
    file: PathView,
)
    requires
        may_collect(fs, config, options, start, 0, file),
    ensures
        walk(fs, config, options, start).contains(file),
{
    lemma_may_is_collected(fs, config, options, start, 0, file);
}

/// `walk_collects_all_that_it_may`, for a directory that the walk reaches at
/// any depth.
proof fn lemma_may_is_collected(
    fs: SnapshotView,
    config: ConfigView,
    options: OptionsView,
    dir: PathView,
    depth: nat,
    file: PathView,
)
    requires
        may_collect(fs, config, options, dir, depth, file),
    ensures
        walk_dir(fs, config, options, dir, depth).contains(file),
    decreases file.names.len() - dir.names.len(),
{
    let entries = fs.entries(dir);
    assert(file.ancestor(dir.names.len() as int) == dir);
    if file.names.len() == dir.names.len() + 1 {
        let wanted = EntryView { name: file.names.last(), kind: EntryKind::File };
        let i = choose|i: int| 0 <= i < entries.len() && entries[i] == wanted;
        let upto = walk_entries(fs, config, options, dir, depth, (i + 1) as nat);
        assert(dir.child(wanted.name).names =~= file.names);
        assert(upto.last() == file);
        lemma_entries_grow(fs, config, options, dir, depth, (i + 1) as nat, entries.len());
    } else {
        let next = file.ancestor(dir.names.len() as int + 1);
        assert(next.parent().names =~= dir.names);
        let wanted = EntryView { name: next.names.last(), kind: EntryKind::Directory };
        let j = choose|j: int| 0 <= j < entries.len() && entries[j] == wanted;
        assert(dir.child(wanted.name).names =~= next.names);
        lemma_may_is_collected(fs, config, options, next, depth + 1, file);
        let below = walk_dir(fs, config, options, next, depth + 1);
        let at = choose|at: int| 0 <= at < below.len() && below[at] == file;
        let before = walk_entries(fs, config, options, dir, depth, j as nat);
        let upto = walk_entries(fs, config, options, dir, depth, (j + 1) as nat);
        assert(upto[before.len() + at] == file);
        lemma_entries_grow(fs, config, options, dir, depth, (j + 1) as nat, entries.len());
    }
}

/// A cache that holds only verdicts of the configuration still does after a
/// resolution has filled it.
pub proof fn filled_cache_still_agrees(
    cache: Map<PathView, bool>,
    checked: Set<PathView>,
    config: ConfigView,
    fs: SnapshotView,
)
    requires
        cache_agrees(cache, config),
    ensures
        cache_agrees(cache_filled(cache, checked, config, fs), config),
{
}

/// The cache is transparent: with a cache that holds only verdicts of the
/// configuration, every root is the one that an empty cache gives.
pub proof fn agreeing_cache_is_transparent(
    cache: Map<PathView, bool>,
    file: PathView,
    source_dirs: Option<Set<PathView>>,
    cluster: Option<Set<PathView>>,
    config: ConfigView,
    fs: SnapshotView,
)
    requires
        cache_agrees(cache, config),
    ensures
        excluded_with(cache, file, config, fs) == excluded(file, config, fs),
        root_with(cache, file, source_dirs, cluster, config, fs) == root_of(
            file,
            source_dirs,
            cluster,
            config,
            fs,
        ),
{
    if let Some(members) = cluster {
        assert(valid_members(members, cache, config, fs) =~= valid_members(
            members,
            Map::empty(),
            config,
            fs,
        ));
    }
}

/// The cache is transparent, for a file resolved twice: the cache that a
/// first resolution leaves, when it started from an empty one, gives the same
/// root to a second resolution of the same file, and to a resolution of any
/// other.
pub proof fn warm_cache_is_transparent(
    first: PathView,
    first_cluster: Option<Set<PathView>>,
    file: PathView,
    source_dirs: Option<Set<PathView>>,
    cluster: Option<Set<PathView>>,
    config: ConfigView,
    fs: SnapshotView,
)
    ensures
        root_with(
            cache_filled(
                Map::empty(),
                checked_paths(Map::empty(), first, first_cluster, config, fs),
                config,
                fs,
            ),
            file,
            source_dirs,
            cluster,
            config,
            fs,
        ) == root_of(file, source_dirs, cluster, config, fs),
{
    agreeing_cache_is_transparent(
        cache_filled(
            Map::empty(),
            checked_paths(Map::empty(), first, first_cluster, config, fs),
            config,
            fs,
        ),
        file,
        source_dirs,
        cluster,
        config,
        fs,
    );
}

} // verus!
