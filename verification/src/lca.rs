//! The deepest directory above every file of a cluster.

use crate::path::{FsPath, PathView};
use crate::path_set::{has_two, path_views};
use crate::snapshot::{Snapshot, SnapshotView};
use vstd::prelude::*;

verus! {

/// The paths of `paths` that resolve.
pub open spec fn resolving(paths: Set<PathView>, fs: SnapshotView) -> Set<PathView> {
    Set::new(|path: PathView| paths.contains(path) && fs.resolve(path) is Some)
}

/// Whether `dir` is above the resolved form of every path of `paths` that
/// resolves.
pub open spec fn is_common_ancestor(dir: PathView, paths: Set<PathView>, fs: SnapshotView) -> bool {
    forall|path: PathView| #[trigger]
        paths.contains(path) && fs.resolve(path) is Some ==> fs.resolve(path).unwrap().has_ancestor(
            dir,
        )
}

/// Whether `dir` is the lowest common ancestor of `paths`: two of the paths
/// or more resolve, `dir` is above every one that does, and no directory with
/// more names is.
pub open spec fn is_lca(dir: PathView, paths: Set<PathView>, fs: SnapshotView) -> bool {
    &&& has_two(resolving(paths, fs))
    &&& is_common_ancestor(dir, paths, fs)
    &&& forall|other: PathView| #[trigger]
        is_common_ancestor(other, paths, fs) ==> other.names.len() <= dir.names.len()
}

/// The lowest common ancestor of `paths`, if there is one.
pub open spec fn lca(paths: Set<PathView>, fs: SnapshotView) -> Option<PathView> {
    if exists|dir: PathView| is_lca(dir, paths, fs) {
        Some(choose|dir: PathView| is_lca(dir, paths, fs))
    } else {
        None
    }
}

/// The number of leading names that two lists share, up to `limit`.
fn shared_depth(a: &Vec<String>, b: &Vec<String>, limit: usize) -> (depth: usize)
    requires
        limit <= b.len(),
    ensures
        depth <= a.len(),
        depth <= limit,
        forall|j: int| 0 <= j < depth ==> a[j]@ == b[j]@,
        depth == a.len() || depth == limit || a[depth as int]@ != b[depth as int]@,
{
    let mut depth: usize = 0;
    while depth < a.len() && depth < limit
        invariant
            depth <= a.len(),
            depth <= limit <= b.len(),
            forall|j: int| 0 <= j < depth ==> a[j]@ == b[j]@,
        decreases a.len() - depth,
    {
        if a[depth] != b[depth] {
            return depth;
        }
        depth += 1;
    }
    depth
}

/// Computes the lowest common ancestor of the paths that resolve.
///
/// Each path is resolved, and one that does not resolve is passed over. The
/// result is the deepest directory that lies above the resolved form of each
/// of the others. There is none where fewer than two of the paths resolve,
/// where a resolved path is a bare anchor, or where two of them have
/// different anchors. A path that stands in the list twice is one path.
pub fn compute_lca(paths: &Vec<FsPath>, fs: &Snapshot) -> (dir: Option<FsPath>)
    ensures
        dir matches Some(found) ==> is_lca(found@, path_views(paths@).to_set(), fs@),
        dir is None <==> !has_two(resolving(path_views(paths@).to_set(), fs@)) || forall|
            other: PathView,
        |
            !is_common_ancestor(other, path_views(paths@).to_set(), fs@),
        match dir {
            Some(found) => lca(path_views(paths@).to_set(), fs@) == Some(found@),
            None => lca(path_views(paths@).to_set(), fs@).is_none(),
        },
{
    let ghost views = path_views(paths@);
    let ghost all = views.to_set();
    let mut common: Option<FsPath> = None;
    // The first path that resolved: the candidate lies above its resolved form.
    let mut first: usize = 0;
    // Whether a path other than the first resolved, and which one.
    let mut several: bool = false;
    let ghost mut second: int = 0;
    // A path whose resolved form leaves that of `first` right below the
    // candidate: it shows that no deeper directory lies above them all.
    let ghost mut blocker: int = 0;
    let mut i: usize = 0;
    while i < paths.len()
        invariant
            i <= paths.len(),
            views == path_views(paths@),
            all == views.to_set(),
            common is None ==> !several && forall|j: int|
                0 <= j < i ==> fs@.resolve(#[trigger] views[j]) is None,
            common matches Some(dir) ==> {
                &&& first < i
                &&& fs@.resolve(views[first as int]) is Some
                &&& forall|j: int|
                    0 <= j < i && fs@.resolve(#[trigger] views[j]) is Some ==> fs@.resolve(
                        views[j],
                    ).unwrap().has_ancestor(dir@)
                &&& dir@.names.len() + 1 < fs@.resolve(views[first as int]).unwrap().names.len()
                    ==> {
                    &&& 0 <= blocker < i
                    &&& fs@.resolve(views[blocker]) is Some
                    &&& !fs@.resolve(views[blocker]).unwrap().has_ancestor(
                        fs@.resolve(views[first as int]).unwrap().ancestor(
                            dir@.names.len() as int + 1,
                        ),
                    )
                }
                &&& several ==> 0 <= second < i && fs@.resolve(views[second]) is Some
                    && views[second] != views[first as int]
                &&& !several ==> forall|j: int|
                    0 <= j < i && fs@.resolve(#[trigger] views[j]) is Some ==> views[j]
                        == views[first as int]
            },
        decreases paths.len() - i,
    {
        match fs.resolve(&paths[i]) {
            None => {},
            Some(target) => {
                if target.names.len() == 0 {
                    assert(all.contains(views[i as int]));
                    return None;
                }
                let next = match &common {
                    None => {
                        first = i;
                        target.ancestor(target.names.len() - 1)
                    },
                    Some(dir) => {
                        if dir.anchor != target.anchor {
                            assert(all.contains(views[i as int]));
                            assert(all.contains(views[first as int]));
                            return None;
                        }
                        if !several && !paths[i].same_as(&paths[first]) {
                            several = true;
                            proof {
                                second = i as int;
                            }
                        }
                        let depth = shared_depth(&dir.names, &target.names, target.names.len() - 1);
                        let shorter = dir.ancestor(depth);
                        proof {
                            if depth < dir.names.len() {
                                let leader = fs@.resolve(views[first as int]).unwrap();
                                let step = leader.ancestor(depth + 1);
                                assert(step.names[depth as int] == dir@.names[depth as int]);
                                blocker = i as int;
                            }
                        }
                        shorter
                    },
                };
                common = Some(next);
            },
        }
        i += 1;
    }
    if !several {
        return None;
    }
    proof {
        if let Some(dir) = &common {
            assert(resolving(all, fs@).contains(views[first as int]));
            assert(resolving(all, fs@).contains(views[second]));
            assert forall|other: PathView| #[trigger]
                is_common_ancestor(other, all, fs@) implies other.names.len()
                <= dir@.names.len() by {
                if other.names.len() > dir@.names.len() {
                    assert(all.contains(views[blocker]));
                }
            }
            assert(is_lca(dir@, all, fs@));
        }
    }
    common
}

} // verus!
