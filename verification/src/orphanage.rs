//! The outermost known source directory above a file.

use crate::path::{FsPath, PathView};
use crate::path_set::PathSet;
use vstd::prelude::*;

verus! {

/// The number of names of the directory that a search above `source` starts
/// at.
pub open spec fn start_depth(source: PathView) -> int {
    if source.names.len() > 0 {
        source.names.len() - 1
    } else {
        0
    }
}

/// The parent of `source`, or `source` itself where it has none.
pub open spec fn immediate_parent(source: PathView) -> PathView {
    source.ancestor(start_depth(source))
}

/// Whether the ancestor of `source` with `depth` names is a source directory
/// and no ancestor with fewer names is one.
pub open spec fn is_orphanage(source: PathView, dirs: Set<PathView>, depth: int) -> bool {
    &&& 0 <= depth <= start_depth(source)
    &&& dirs.contains(source.ancestor(depth))
    &&& forall|d: int| 0 <= d < depth ==> !dirs.contains(#[trigger] source.ancestor(d))
}

/// The orphanage of a file: the outermost source directory among the
/// directories from its immediate parent up to the anchor, and the immediate
/// parent where none of them is a source directory.
pub open spec fn orphanage(source: PathView, dirs: Set<PathView>) -> PathView {
    if exists|depth: int| is_orphanage(source, dirs, depth) {
        source.ancestor(choose|depth: int| is_orphanage(source, dirs, depth))
    } else {
        immediate_parent(source)
    }
}

/// The parent of `source`, or `source` itself where it has none.
pub fn parent_or_self(source: &FsPath) -> (dir: FsPath)
    ensures
        dir@ == immediate_parent(source@),
{
    if source.names.len() > 0 {
        source.ancestor(source.names.len() - 1)
    } else {
        source.ancestor(0)
    }
}

/// Finds the orphanage of `source` among the source directories.
pub fn find_orphanage(source: &FsPath, source_dirs: &PathSet) -> (dir: FsPath)
    ensures
        dir@ == orphanage(source@, source_dirs@),
        forall|depth: int|
            is_orphanage(source@, source_dirs@, depth) ==> dir@ == source@.ancestor(depth),
        (forall|depth: int| !is_orphanage(source@, source_dirs@, depth)) ==> dir@
            == immediate_parent(source@),
{
    let start: usize = if source.names.len() > 0 {
        source.names.len() - 1
    } else {
        0
    };
    let mut dir = source.ancestor(0);
    let mut depth: usize = 0;
    loop
        invariant
            start == start_depth(source@),
            depth <= start <= source.names.len(),
            dir@ == source@.ancestor(depth as int),
            forall|d: int| 0 <= d < depth ==> !source_dirs@.contains(#[trigger] source@.ancestor(d)),
        decreases start - depth,
    {
        if source_dirs.contains(&dir) {
            assert(is_orphanage(source@, source_dirs@, depth as int));
            return dir;
        }
        if depth == start {
            return dir;
        }
        let ghost shorter = dir@;
        dir.names.push(source.names[depth].clone());
        depth += 1;
        assert(dir@.names =~= shorter.names.push(source@.names[depth - 1]));
        assert(dir@.names =~= source@.ancestor(depth as int).names);
    }
}

} // verus!
