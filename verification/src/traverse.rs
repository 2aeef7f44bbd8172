//! Walking a directory tree and resolving the files that it holds.

use crate::config::{Config, ConfigView};
use crate::exclusion::{cache_agrees, ExclusionCache};
use crate::names::{slice_texts, NameSet};
use crate::path::{FsPath, PathView};
use crate::path_set::{path_views, PathSet};
use crate::resolve::{find_root_with_cache, root_of, root_view, source_dirs, source_dirs_of};
use crate::snapshot::{entry_views, EntryKind, Snapshot, SnapshotView};
use vstd::prelude::*;

verus! {

/// A file that a walk found, and its project root.
#[derive(Debug, Clone, PartialEq, Eq)]
pub struct TraversalResult {
    /// The file.
    pub file: FsPath,
    /// Its project root; `None` if the file is excluded.
    pub root: Option<FsPath>,
}

/// Which files a walk collects and how deep it goes.
#[derive(Debug, Clone)]
pub struct TraversalOptions {
    /// The extensions of the files to collect; every file where the set is
    /// empty.
    pub extensions: NameSet,
    /// How many levels below the starting directory the walk enters; no limit
    /// where it is `None`.
    pub max_depth: Option<usize>,
}

/// What the options are to the contracts.
pub struct OptionsView {
    pub extensions: Set<Seq<char>>,
    pub max_depth: Option<usize>,
}

impl View for TraversalOptions {
    type V = OptionsView;

    open spec fn view(&self) -> OptionsView {
        OptionsView { extensions: self.extensions@, max_depth: self.max_depth }
    }
}

impl OptionsView {
    /// Whether a file is collected: always where no extension is asked for,
    /// else where the file's extension is one of those asked for.
    pub open spec fn accepts(self, file: PathView) -> bool {
        self.extensions == Set::<Seq<char>>::empty() || (file.extension() matches Some(extension)
            && self.extensions.contains(extension))
    }

    /// The deepest level that the walk enters. A depth is a machine integer,
    /// so a walk without a limit ends at the largest of them.
    pub open spec fn depth_limit(self) -> nat {
        match self.max_depth {
            Some(limit) => limit as nat,
            None => usize::MAX as nat,
        }
    }

    /// How many levels the walk may still enter from `depth`.
    pub open spec fn levels_left(self, depth: nat) -> nat {
        if depth <= self.depth_limit() {
            (self.depth_limit() + 1 - depth) as nat
        } else {
            0
        }
    }
}

impl Default for TraversalOptions {
    /// Every file, at every depth.
    fn default() -> (options: TraversalOptions)
        ensures
            options@.extensions == Set::<Seq<char>>::empty(),
            options@.max_depth.is_none(),
    {
        TraversalOptions { extensions: NameSet::new(), max_depth: None }
    }
}

impl TraversalOptions {
    /// The same options, collecting the files with the given extensions.
    pub fn with_extensions(self, extensions: &[&str]) -> (options: TraversalOptions)
        ensures
            options@.extensions == slice_texts(extensions@).to_set(),
            options@.max_depth == self@.max_depth,
            options.extensions.members().no_duplicates(),
    {
        let mut options = self;
        options.extensions = NameSet::from_names(extensions);
        options
    }

    /// The same options, entering at most `depth` levels below the starting
    /// directory.
    pub fn with_max_depth(self, depth: usize) -> (options: TraversalOptions)
        ensures
            options@.extensions == self@.extensions,
            options@.max_depth == Some(depth),
    {
        let mut options = self;
        options.max_depth = Some(depth);
        options
    }

    /// Whether the file at `path` is collected.
    pub fn matches_extension(&self, path: &FsPath) -> (accepted: bool)
        ensures
            accepted == self@.accepts(path@),
    {
        if self.extensions.is_empty() {
            return true;
        }
        match path.extension() {
            Some(extension) => self.extensions.contains(extension.as_str()),
            None => false,
        }
    }
}

/// The files that a walk collects from the directory `dir`, which it reaches
/// at `depth`: none beyond the depth limit and none from an exclusion zone;
/// else what it collects from the entries of `dir`.
pub open spec fn walk_dir(
    fs: SnapshotView,
    config: ConfigView,
    options: OptionsView,
    dir: PathView,
    depth: nat,
) -> Seq<PathView>
    decreases options.levels_left(depth), 1nat, 0nat,
{
    if depth > options.depth_limit() || config.is_boundary(dir) {
        Seq::empty()
    } else {
        walk_entries(fs, config, options, dir, depth, fs.entries(dir).len())
    }
}

/// The files that a walk collects from the first `count` entries of `dir`, in
/// the order of the entries: from a directory what the walk collects one
/// level deeper, a file itself where the options accept it.
pub open spec fn walk_entries(
    fs: SnapshotView,
    config: ConfigView,
    options: OptionsView,
    dir: PathView,
    depth: nat,
    count: nat,
) -> Seq<PathView>
    decreases options.levels_left(depth), 0nat, count,
{
    if count == 0 || count > fs.entries(dir).len() || depth > options.depth_limit() {
        Seq::empty()
    } else {
        let entry = fs.entries(dir)[count - 1];
        let before = walk_entries(fs, config, options, dir, depth, (count - 1) as nat);
        let path = dir.child(entry.name);
        match entry.kind {
            EntryKind::Directory => before + walk_dir(fs, config, options, path, depth + 1),
            EntryKind::File => if options.accepts(path) {
                before.push(path)
            } else {
                before
            },
            EntryKind::Other => before,
        }
    }
}

/// Collects into `files` the files that a walk finds in `dir` and below.
pub fn collect_files_recursive(
    dir: &FsPath,
    config: &Config,
    options: &TraversalOptions,
    depth: usize,
    files: &mut Vec<FsPath>,
    fs: &Snapshot,
)
    ensures
        path_views(final(files)@) == path_views(old(files)@) + walk_dir(
            fs@,
            config@,
            options@,
            dir@,
            depth as nat,
        ),
    decreases options@.levels_left(depth as nat),
{
    let ghost start = path_views(files@);
    if let Some(limit) = options.max_depth {
        if depth > limit {
            return ;
        }
    }
    if let Some(name) = dir.file_name() {
        if config.matches_exclusion(name) {
            return ;
        }
    }
    let entries = match fs.list(dir) {
        Some(entries) => entries,
        None => {
            return ;
        },
    };
    let mut i: usize = 0;
    while i < entries.len()
        invariant
            i <= entries.len(),
            depth <= options@.depth_limit(),
            fs@.entries(dir@) == entry_views(entries@),
            path_views(files@) == start + walk_entries(
                fs@,
                config@,
                options@,
                dir@,
                depth as nat,
                i as nat,
            ),
        decreases entries.len() - i,
    {
        let entry = &entries[i];
        let path = dir.join(entry.name.as_str());
        let ghost before = walk_entries(fs@, config@, options@, dir@, depth as nat, i as nat);
        match entry.kind {
            EntryKind::Directory => {
                if depth < usize::MAX {
                    collect_files_recursive(&path, config, options, depth + 1, files, fs);
                }
                assert(path_views(files@) =~= start + (before + walk_dir(
                    fs@,
                    config@,
                    options@,
                    path@,
                    (depth + 1) as nat,
                )));
            },
            EntryKind::File => {
                if options.matches_extension(&path) {
                    let ghost held = path_views(files@);
                    files.push(path);
                    assert(path_views(files@) =~= held.push(path@));
                }
            },
            EntryKind::Other => {},
        }
        i += 1;
    }
}

/// The files that a walk from `start` collects, in the order in which it
/// visits them.
pub open spec fn walk(
    fs: SnapshotView,
    config: ConfigView,
    options: OptionsView,
    start: PathView,
) -> Seq<PathView> {
    walk_dir(fs, config, options, start, 0)
}

/// Walks the tree below `start_path` and finds the project root of each file
/// that the walk collects.
///
/// The walk goes depth first and takes the entries of a directory in their
/// order. It does not enter an exclusion zone, nor a level beyond the depth
/// limit, and passes over a directory without a listing. The roots are those
/// of the collected files as one batch.
pub fn traverse_and_detect(
    start_path: &FsPath,
    config: &Config,
    options: &TraversalOptions,
    fs: &Snapshot,
) -> (results: Vec<TraversalResult>)
    ensures
        results.len() == walk(fs@, config@, options@, start_path@).len(),
        forall|i: int|
            0 <= i < results.len() ==> (#[trigger] results[i]).file@ == walk(
                fs@,
                config@,
                options@,
                start_path@,
            )[i] && root_view(results[i].root) == root_of(
                results[i].file@,
                Some(source_dirs_of(walk(fs@, config@, options@, start_path@), config@, fs@)),
                None,
                config@,
                fs@,
            ),
{
    let mut files: Vec<FsPath> = Vec::new();
    collect_files_recursive(start_path, config, options, 0, &mut files, fs);
    let ghost found = walk(fs@, config@, options@, start_path@);
    let mut cache = ExclusionCache::new();
    let dirs = source_dirs(files.as_slice(), config, &mut cache, fs);
    let mut results: Vec<TraversalResult> = Vec::new();
    let mut i: usize = 0;
    while i < files.len()
        invariant
            i <= files.len(),
            results.len() == i,
            path_views(files@) == found,
            cache_agrees(cache@, config@),
            dirs@ == source_dirs_of(found, config@, fs@),
            forall|k: int|
                0 <= k < i ==> (#[trigger] results[k]).file@ == found[k] && root_view(
                    results[k].root,
                ) == root_of(found[k], Some(dirs@), None, config@, fs@),
        decreases files.len() - i,
    {
        let file = &files[i];
        let root = find_root_with_cache(file, Some(&dirs), None, config, Some(&mut cache), fs);
        results.push(TraversalResult { file: file.clone(), root });
        i += 1;
    }
    results
}

/// The roots that a walk from `start` finds: the roots of the collected files
/// that have one.
pub open spec fn roots_found(
    fs: SnapshotView,
    config: ConfigView,
    options: OptionsView,
    start: PathView,
) -> Set<PathView> {
    Set::new(
        |dir: PathView|
            exists|i: int|
                0 <= i < walk(fs, config, options, start).len() && root_of(
                    #[trigger] walk(fs, config, options, start)[i],
                    Some(source_dirs_of(walk(fs, config, options, start), config, fs)),
                    None,
                    config,
                    fs,
                ) == Some(dir),
    )
}

/// Walks the tree below `start_path` and returns the project roots that it
/// finds, each once.
pub fn discover_roots(
    start_path: &FsPath,
    config: &Config,
    options: &TraversalOptions,
    fs: &Snapshot,
) -> (roots: PathSet)
    ensures
        roots@ == roots_found(fs@, config@, options@, start_path@),
        roots.members().no_duplicates(),
{
    let results = traverse_and_detect(start_path, config, options, fs);
    let ghost found = walk(fs@, config@, options@, start_path@);
    let ghost dirs = source_dirs_of(found, config@, fs@);
    let mut roots = PathSet::new();
    let mut i: usize = 0;
    while i < results.len()
        invariant
            i <= results.len(),
            found == walk(fs@, config@, options@, start_path@),
            dirs == source_dirs_of(found, config@, fs@),
            results.len() == found.len(),
            forall|k: int|
                0 <= k < results.len() ==> (#[trigger] results[k]).file@ == found[k] && root_view(
                    results[k].root,
                ) == root_of(found[k], Some(dirs), None, config@, fs@),
            roots.members().no_duplicates(),
            forall|dir: PathView|
                roots@.contains(dir) <==> exists|k: int|
                    0 <= k < i && root_of(#[trigger] found[k], Some(dirs), None, config@, fs@)
                        == Some(dir),
        decreases results.len() - i,
    {
        match &results[i].root {
            Some(root) => {
                roots.insert(root.clone());
            },
            None => {},
        }
        i += 1;
    }
    roots
}

} // verus!
