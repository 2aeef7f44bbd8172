//! The innermost directory above a file that holds a marker.

use crate::config::{Config, ConfigView};
use crate::path::{FsPath, PathView};
use crate::snapshot::{entry_views, Snapshot, SnapshotView};
use vstd::prelude::*;

verus! {

/// What the search finds when it starts at the ancestor of `source` with
/// `start` names and climbs: nothing at an exclusion zone, the first directory
/// that holds a marker otherwise, nothing when the anchor is passed.
pub open spec fn marker_root_from(
    source: PathView,
    start: int,
    config: ConfigView,
    fs: SnapshotView,
) -> Option<PathView>
    decreases start + 1,
{
    if start < 0 {
        None
    } else if config.is_boundary(source.ancestor(start)) {
        None
    } else if fs.has_marker(source.ancestor(start), config) {
        Some(source.ancestor(start))
    } else {
        marker_root_from(source, start - 1, config, fs)
    }
}

/// The marker root of a file: what the search finds when it starts at the
/// file's parent.
pub open spec fn marker_root(source: PathView, config: ConfigView, fs: SnapshotView) -> Option<
    PathView,
> {
    marker_root_from(source, source.names.len() - 1, config, fs)
}

/// Whether the ancestor of `source` with `depth` names is the innermost one
/// that holds a marker, with no exclusion zone from the file's parent up to it.
pub open spec fn is_marker_root(
    source: PathView,
    depth: int,
    config: ConfigView,
    fs: SnapshotView,
) -> bool {
    found_from(source, source.names.len() - 1, depth, config, fs)
}

/// `is_marker_root`, for a search that starts at the ancestor with `start`
/// names.
pub open spec fn found_from(
    source: PathView,
    start: int,
    depth: int,
    config: ConfigView,
    fs: SnapshotView,
) -> bool {
    &&& 0 <= depth <= start
    &&& fs.has_marker(source.ancestor(depth), config)
    &&& forall|d: int| depth <= d <= start ==> !config.is_boundary(#[trigger] source.ancestor(d))
    &&& forall|d: int| depth < d <= start ==> !fs.has_marker(#[trigger] source.ancestor(d), config)
}

/// The search finds the one ancestor that `found_from` describes, and nothing
/// where there is none.
pub proof fn lemma_marker_root_from(
    source: PathView,
    start: int,
    config: ConfigView,
    fs: SnapshotView,
)
    requires
        start >= -1,
    ensures
        match marker_root_from(source, start, config, fs) {
            Some(dir) => exists|depth: int|
                found_from(source, start, depth, config, fs) && dir == source.ancestor(depth),
            None => forall|depth: int| !found_from(source, start, depth, config, fs),
        },
        forall|depth: int| #[trigger]
            found_from(source, start, depth, config, fs) ==> marker_root_from(
                source,
                start,
                config,
                fs,
            ) == Some(source.ancestor(depth)),
    decreases start + 1,
{
    if start >= 0 {
        let here = source.ancestor(start);
        if !config.is_boundary(here) && !fs.has_marker(here, config) {
            lemma_marker_root_from(source, start - 1, config, fs);
            assert forall|depth: int|
                found_from(source, start, depth, config, fs) == found_from(
                    source,
                    start - 1,
                    depth,
                    config,
                    fs,
                ) by {}
        }
    }
}

impl Config {
    /// Whether the directory `dir` holds an entry whose name is that of a
    /// marker.
    pub fn marker_exists_in(&self, dir: &FsPath, fs: &Snapshot) -> (found: bool)
        ensures
            found == fs@.has_marker(dir@, self@),
    {
        match fs.list(dir) {
            None => false,
            Some(entries) => {
                let mut i: usize = 0;
                while i < entries.len()
                    invariant
                        i <= entries.len(),
                        fs@.entries(dir@) == entry_views(entries@),
                        forall|j: int|
                            0 <= j < i ==> !self@.marks((#[trigger] fs@.entries(dir@)[j]).name),
                    decreases entries.len() - i,
                {
                    assert(fs@.entries(dir@)[i as int].name == entries[i as int].name@);
                    if self.matches_marker(entries[i].name.as_str()) {
                        return true;
                    }
                    i += 1;
                }
                false
            },
        }
    }
}

/// Finds the innermost directory above `source` that holds a marker.
///
/// The search starts at the parent of `source` and climbs. It ends without a
/// result at a directory whose name is that of an exclusion zone, and when it
/// has passed the anchor.
pub fn find_marker_root(source: &FsPath, config: &Config, fs: &Snapshot) -> (root: Option<FsPath>)
    ensures
        match root {
            Some(dir) => marker_root(source@, config@, fs@) == Some(dir@) && exists|depth: int|
                is_marker_root(source@, depth, config@, fs@) && dir@ == source@.ancestor(depth),
            None => marker_root(source@, config@, fs@).is_none() && forall|depth: int|
                !is_marker_root(source@, depth, config@, fs@),
        },
{
    let mut dir = source.clone();
    let mut depth: usize = source.names.len();
    assert(source@.ancestor(depth as int).names =~= source@.names);
    while depth > 0
        invariant
            depth <= source.names.len(),
            dir@ == source@.ancestor(depth as int),
            marker_root_from(source@, depth - 1, config@, fs@) == marker_root(
                source@,
                config@,
                fs@,
            ),
        decreases depth,
    {
        let ghost longer = dir@;
        dir.names.pop();
        depth -= 1;
        assert(dir@.names =~= longer.names.drop_last());
        assert(dir@.names =~= source@.ancestor(depth as int).names);
        if depth > 0 && config.matches_exclusion(dir.names[depth - 1].as_str()) {
            proof {
                lemma_marker_root_from(source@, source@.names.len() - 1, config@, fs@);
            }
            return None;
        }
        if config.marker_exists_in(&dir, fs) {
            proof {
                lemma_marker_root_from(source@, source@.names.len() - 1, config@, fs@);
            }
            return Some(dir);
        }
    }
    proof {
        lemma_marker_root_from(source@, source@.names.len() - 1, config@, fs@);
    }
    None
}

} // verus!
