//! Whole resolutions on trees laid out in memory: the order of the rules, the
//! walk, and what a snapshot still needs.

use project_root_detector::coverage::{
    next_needed_listing, next_unlisted_ancestor, unlisted_directories,
};
use project_root_detector::traverse::collect_files_recursive;
use project_root_detector::{
    compute_lca, discover_roots, find_marker_root, find_orphanage, find_root,
    find_root_with_cache, find_roots_batch, traverse_and_detect, Config, DirEntry, EntryKind,
    ExclusionCache, FsPath, PathSet, Snapshot, TraversalOptions,
};

fn abs(text: &str) -> FsPath {
    let names: Vec<&str> = text.split('/').filter(|name| !name.is_empty()).collect();
    FsPath::new("/", &names)
}

fn add_entry(dirs: &mut Vec<(FsPath, Vec<DirEntry>)>, dir: &FsPath, name: &str, kind: EntryKind) {
    if !dirs.iter().any(|(known, _)| known == dir) {
        dirs.push((dir.clone(), Vec::new()));
    }
    let entries = &mut dirs.iter_mut().find(|(known, _)| known == dir).unwrap().1;
    if !entries.iter().any(|entry| entry.name == name) {
        entries.push(DirEntry { name: name.to_string(), kind });
    }
}

fn add_dirs(dirs: &mut Vec<(FsPath, Vec<DirEntry>)>, path: &FsPath) {
    for depth in 0..path.names.len() {
        add_entry(dirs, &path.ancestor(depth), &path.names[depth], EntryKind::Directory);
    }
    if !dirs.iter().any(|(known, _)| known == path) {
        dirs.push((path.clone(), Vec::new()));
    }
}

/// The listings of a tree: a path that ends in `/` is a directory, any other
/// a file.
fn listings(paths: &[&str]) -> Vec<(FsPath, Vec<DirEntry>)> {
    let mut dirs: Vec<(FsPath, Vec<DirEntry>)> = Vec::new();
    for text in paths {
        let path = abs(text);
        if text.ends_with('/') {
            add_dirs(&mut dirs, &path);
        } else {
            let parent = path.parent().unwrap();
            add_dirs(&mut dirs, &parent);
            add_entry(&mut dirs, &parent, path.file_name().unwrap(), EntryKind::File);
        }
    }
    dirs
}

/// The snapshot of a tree in which every path resolves to itself.
fn tree(paths: &[&str]) -> Snapshot {
    let mut fs = Snapshot::new();
    for (dir, entries) in listings(paths) {
        for entry in &entries {
            let path = dir.join(&entry.name);
            fs.record_resolution(path.clone(), path);
        }
        fs.record_resolution(dir.clone(), dir.clone());
        fs.record_listing(dir, entries);
    }
    fs
}

fn set_of(paths: &[&str]) -> PathSet {
    let mut set = PathSet::new();
    for path in paths {
        set.insert(abs(path));
    }
    set
}

fn small_config() -> Config {
    Config::new(&["node_modules"], &[".git", "pkg.json"])
}

#[test]
fn marker_at_the_top_is_the_root() {
    let fs = tree(&["/P/.git/", "/P/src/main.x"]);
    let root = find_root(&abs("/P/src/main.x"), None, None, &small_config(), &fs);
    assert_eq!(root, Some(abs("/P")));
}

#[test]
fn nested_manifest_is_the_root() {
    let fs = tree(&[
        "/P/.git/",
        "/P/pkg.json",
        "/P/packages/api/pkg.json",
        "/P/packages/api/src/index.x",
    ]);
    let root =
        find_root(&abs("/P/packages/api/src/index.x"), None, None, &small_config(), &fs);
    assert_eq!(root, Some(abs("/P/packages/api")));
}

#[test]
fn file_in_an_exclusion_zone_has_no_root() {
    let fs = tree(&["/P/.git/", "/P/node_modules/lib/index.x"]);
    let root = find_root(&abs("/P/node_modules/lib/index.x"), None, None, &small_config(), &fs);
    assert_eq!(root, None);
}

#[test]
fn cluster_without_markers_resolves_to_the_shared_directory() {
    let fs = tree(&["/P/scripts/a.x", "/P/scripts/b.x", "/P/scripts/utils/c.x"]);
    let cluster = set_of(&["/P/scripts/a.x", "/P/scripts/b.x", "/P/scripts/utils/c.x"]);
    let root = find_root(&abs("/P/scripts/a.x"), None, Some(&cluster), &small_config(), &fs);
    assert_eq!(root, Some(abs("/P/scripts")));
}

#[test]
fn one_marker_is_the_root_at_every_depth() {
    let fs = tree(&["/w/P/.git/", "/w/P/a.x", "/w/P/s/b.x", "/w/P/s/t/u/v/c.x"]);
    let config = small_config();
    for file in ["/w/P/a.x", "/w/P/s/b.x", "/w/P/s/t/u/v/c.x"] {
        assert_eq!(find_root(&abs(file), None, None, &config, &fs), Some(abs("/w/P")));
        let dirs = set_of(&["/w/P/s/t"]);
        assert_eq!(find_root(&abs(file), Some(&dirs), None, &config, &fs), Some(abs("/w/P")));
    }
}

#[test]
fn inner_marker_wins_over_outer() {
    let fs = tree(&["/P/.git/", "/P/in/pkg.json", "/P/in/deep/er/f.x", "/P/out/g.x"]);
    let config = small_config();
    assert_eq!(find_marker_root(&abs("/P/in/deep/er/f.x"), &config, &fs), Some(abs("/P/in")));
    assert_eq!(find_marker_root(&abs("/P/out/g.x"), &config, &fs), Some(abs("/P")));
    assert_eq!(find_marker_root(&abs("/P/in/pkg.json"), &config, &fs), Some(abs("/P/in")));
}

#[test]
fn marker_search_starts_at_the_parent() {
    let fs = tree(&["/P/dir/.git/", "/P/dir/f.x"]);
    let config = small_config();
    assert_eq!(find_marker_root(&abs("/P/dir"), &config, &fs), None);
    assert_eq!(find_marker_root(&abs("/P/dir/f.x"), &config, &fs), Some(abs("/P/dir")));
    assert_eq!(find_marker_root(&abs("/"), &config, &fs), None);
}

#[test]
fn marker_at_the_anchor_is_found() {
    let fs = tree(&["/.git/", "/a/b/f.x"]);
    let config = small_config();
    assert_eq!(find_marker_root(&abs("/a/b/f.x"), &config, &fs), Some(abs("/")));
}

#[test]
fn marker_above_an_exclusion_zone_is_not_found() {
    let mut fs = tree(&["/P/.git/", "/P/node_modules/lib/pkg.json", "/P/node_modules/lib/s/f.x"]);
    let config = small_config();
    let below = abs("/P/node_modules/lib/s/f.x");
    assert_eq!(find_marker_root(&below, &config, &fs), Some(abs("/P/node_modules/lib")));
    assert_eq!(find_marker_root(&abs("/P/node_modules/x.x"), &config, &fs), None);
    assert_eq!(find_marker_root(&abs("/P/node_modules/q/x.x"), &config, &fs), None);
    assert_eq!(find_root(&below, None, None, &config, &fs), None);
    // A file that is reached through an exclusion zone and lives elsewhere is
    // not excluded, and still finds no marker above the zone.
    let linked = abs("/P/node_modules/q/x.x");
    fs.record_resolution(linked.clone(), abs("/home/dev/q/x.x"));
    assert_eq!(find_root(&linked, None, None, &config, &fs), Some(abs("/P/node_modules/q")));
}

#[test]
fn marker_names_are_compared_as_the_config_says() {
    let fs = tree(&["/P/.GIT/", "/P/src/f.x"]);
    let strict = small_config();
    let loose = small_config().with_case_insensitive(true);
    assert_eq!(find_marker_root(&abs("/P/src/f.x"), &strict, &fs), None);
    assert_eq!(find_marker_root(&abs("/P/src/f.x"), &loose, &fs), Some(abs("/P")));
    assert!(loose.marker_exists_in(&abs("/P"), &fs));
    assert!(!strict.marker_exists_in(&abs("/P"), &fs));
    assert!(!loose.marker_exists_in(&abs("/P/src"), &fs));
    assert!(!loose.marker_exists_in(&abs("/nowhere"), &fs));
}

#[test]
fn exclusion_zone_is_found_without_regard_to_case_when_asked() {
    let fs = tree(&["/P/.git/", "/P/Node_Modules/lib/f.x"]);
    let file = abs("/P/Node_Modules/lib/f.x");
    let strict = small_config();
    let loose = small_config().with_case_insensitive(true);
    assert_eq!(find_root(&file, None, None, &strict, &fs), Some(abs("/P")));
    assert_eq!(find_root(&file, None, None, &loose, &fs), None);
}

#[test]
fn orphanage_is_the_outermost_source_directory() {
    let file = abs("/w/P/a/b/c/f.x");
    let dirs = set_of(&["/w/P/a/b/c", "/w/P/a", "/w/other"]);
    assert_eq!(find_orphanage(&file, &dirs), abs("/w/P/a"));
    let dirs = set_of(&["/w/P/a/b/c"]);
    assert_eq!(find_orphanage(&file, &dirs), abs("/w/P/a/b/c"));
    let dirs = set_of(&["/"]);
    assert_eq!(find_orphanage(&file, &dirs), abs("/"));
}

#[test]
fn orphanage_falls_back_to_the_parent() {
    let file = abs("/w/P/a/f.x");
    assert_eq!(find_orphanage(&file, &PathSet::new()), abs("/w/P/a"));
    let unrelated = set_of(&["/w/Q", "/w/P/a/f.x", "/w/P/a/deeper"]);
    assert_eq!(find_orphanage(&file, &unrelated), abs("/w/P/a"));
    assert_eq!(find_orphanage(&abs("/"), &PathSet::new()), abs("/"));
    assert_eq!(find_orphanage(&abs("/"), &set_of(&["/"])), abs("/"));
    assert_eq!(find_orphanage(&abs("/f.x"), &PathSet::new()), abs("/"));
}

#[test]
fn lca_of_resolved_paths() {
    let fs = tree(&["/P/s/a.x", "/P/s/b.x", "/P/s/u/c.x", "/P/t/d.x", "/Q/e.x"]);
    let paths = |texts: &[&str]| texts.iter().map(|text| abs(text)).collect::<Vec<_>>();
    assert_eq!(compute_lca(&paths(&["/P/s/a.x", "/P/s/b.x"]), &fs), Some(abs("/P/s")));
    assert_eq!(compute_lca(&paths(&["/P/s/a.x", "/P/s/u/c.x"]), &fs), Some(abs("/P/s")));
    assert_eq!(compute_lca(&paths(&["/P/s/u/c.x", "/P/t/d.x"]), &fs), Some(abs("/P")));
    assert_eq!(compute_lca(&paths(&["/P/s/a.x", "/Q/e.x"]), &fs), Some(abs("/")));
    assert_eq!(
        compute_lca(&paths(&["/P/s/a.x", "/P/s/a.x", "/P/s/b.x", "/P/s/a.x"]), &fs),
        Some(abs("/P/s"))
    );
}

#[test]
fn lca_needs_two_paths_that_resolve() {
    let fs = tree(&["/P/s/a.x", "/P/s/b.x"]);
    let paths = |texts: &[&str]| texts.iter().map(|text| abs(text)).collect::<Vec<_>>();
    assert_eq!(compute_lca(&paths(&[]), &fs), None);
    assert_eq!(compute_lca(&paths(&["/P/s/a.x"]), &fs), None);
    assert_eq!(compute_lca(&paths(&["/P/s/a.x", "/P/s/a.x"]), &fs), None);
    assert_eq!(compute_lca(&paths(&["/gone/x.x", "/P/s/a.x", "/gone/y.x"]), &fs), None);
    assert_eq!(compute_lca(&paths(&["/gone/x.x", "/gone/y.x"]), &fs), None);
    assert_eq!(compute_lca(&paths(&["/P/s/a.x", "/P/s/b.x"]), &fs), Some(abs("/P/s")));
}

#[test]
fn lca_passes_over_what_does_not_resolve() {
    let fs = tree(&["/P/s/a.x", "/P/s/u/c.x"]);
    let paths = vec![abs("/gone/x.x"), abs("/P/s/a.x"), abs("/also/gone.x"), abs("/P/s/u/c.x")];
    assert_eq!(compute_lca(&paths, &fs), Some(abs("/P/s")));
    assert_eq!(compute_lca(&[abs("/gone/x.x")].to_vec(), &fs), None);
    let one_left = vec![abs("/gone/x.x"), abs("/P/s/u/c.x"), abs("/also/gone.x")];
    assert_eq!(compute_lca(&one_left, &fs), None);
}

#[test]
fn lca_goes_by_resolved_forms() {
    let mut fs = tree(&["/real/lib/a.x", "/real/lib/sub/b.x"]);
    fs.record_resolution(abs("/links/one.x"), abs("/real/lib/a.x"));
    fs.record_resolution(abs("/elsewhere/two.x"), abs("/real/lib/sub/b.x"));
    let paths = vec![abs("/links/one.x"), abs("/elsewhere/two.x")];
    assert_eq!(compute_lca(&paths, &fs), Some(abs("/real/lib")));
    // Two paths that resolve to one file are two members.
    fs.record_resolution(abs("/links/again.x"), abs("/real/lib/sub/b.x"));
    let same_target = vec![abs("/links/again.x"), abs("/elsewhere/two.x")];
    assert_eq!(compute_lca(&same_target, &fs), Some(abs("/real/lib/sub")));
}

#[test]
fn lca_needs_a_shared_anchor_and_a_parent() {
    let mut fs = Snapshot::new();
    let on_c = FsPath::new("C:\\", &["p", "a.x"]);
    let on_d = FsPath::new("D:\\", &["p", "b.x"]);
    fs.record_resolution(on_c.clone(), on_c.clone());
    fs.record_resolution(on_d.clone(), on_d.clone());
    let also_c = FsPath::new("C:\\", &["p", "q", "c.x"]);
    fs.record_resolution(also_c.clone(), also_c.clone());
    fs.record_resolution(abs("/"), abs("/"));
    fs.record_resolution(abs("/a.x"), abs("/a.x"));
    fs.record_resolution(abs("/b.x"), abs("/b.x"));
    assert_eq!(compute_lca(&vec![on_c.clone(), on_d.clone()], &fs), None);
    assert_eq!(compute_lca(&vec![on_c.clone(), also_c.clone(), on_d], &fs), None);
    assert_eq!(compute_lca(&vec![on_c, also_c], &fs), Some(FsPath::new("C:\\", &["p"])));
    assert_eq!(compute_lca(&vec![abs("/a.x"), abs("/")], &fs), None);
    assert_eq!(compute_lca(&vec![abs("/"), abs("/a.x"), abs("/b.x")], &fs), None);
    assert_eq!(compute_lca(&vec![abs("/a.x"), abs("/b.x")], &fs), Some(abs("/")));
}

#[test]
fn marker_outranks_cluster_and_orphanage() {
    let fs = tree(&["/P/.git/", "/P/s/a.x", "/P/s/b.x"]);
    let cluster = set_of(&["/P/s/a.x", "/P/s/b.x"]);
    let dirs = set_of(&["/P/s"]);
    let root = find_root(&abs("/P/s/a.x"), Some(&dirs), Some(&cluster), &small_config(), &fs);
    assert_eq!(root, Some(abs("/P")));
}

#[test]
fn cluster_outranks_orphanage() {
    let fs = tree(&["/w/P/s/a.x", "/w/P/s/u/b.x", "/w/P/top.x"]);
    let cluster = set_of(&["/w/P/s/a.x", "/w/P/s/u/b.x"]);
    let dirs = set_of(&["/w/P", "/w/P/s", "/w/P/s/u"]);
    let config = small_config();
    let file = abs("/w/P/s/u/b.x");
    assert_eq!(find_root(&file, Some(&dirs), Some(&cluster), &config, &fs), Some(abs("/w/P/s")));
    assert_eq!(find_root(&file, Some(&dirs), None, &config, &fs), Some(abs("/w/P")));
    assert_eq!(find_root(&file, None, None, &config, &fs), Some(abs("/w/P/s/u")));
}

#[test]
fn cluster_of_one_valid_member_is_not_used() {
    let fs = tree(&["/w/P/s/a.x", "/w/P/node_modules/m/b.x", "/w/P/top.x"]);
    let config = small_config();
    let file = abs("/w/P/s/a.x");
    let dirs = set_of(&["/w/P"]);
    let alone = set_of(&["/w/P/top.x"]);
    assert_eq!(find_root(&file, Some(&dirs), Some(&alone), &config, &fs), Some(abs("/w/P")));
    assert_eq!(find_root(&file, None, Some(&alone), &config, &fs), Some(abs("/w/P/s")));
    let one_excluded = set_of(&["/w/P/top.x", "/w/P/node_modules/m/b.x", "/w/gone.x"]);
    assert_eq!(find_root(&file, None, Some(&one_excluded), &config, &fs), Some(abs("/w/P/s")));
    let empty = PathSet::new();
    assert_eq!(find_root(&file, None, Some(&empty), &config, &fs), Some(abs("/w/P/s")));
    let two = set_of(&["/w/P/top.x", "/w/P/node_modules/m/b.x", "/w/P/s/a.x"]);
    assert_eq!(find_root(&file, None, Some(&two), &config, &fs), Some(abs("/w/P")));
}

#[test]
fn cluster_root_is_the_deepest_directory_above_all_members() {
    let fs = tree(&["/w/P/a/b/c/one.x", "/w/P/a/b/d/two.x", "/w/P/a/b/d/e/three.x", "/w/P/x.x"]);
    let cluster = set_of(&["/w/P/a/b/c/one.x", "/w/P/a/b/d/two.x", "/w/P/a/b/d/e/three.x"]);
    let config = small_config();
    for file in ["/w/P/a/b/c/one.x", "/w/P/a/b/d/e/three.x", "/w/P/x.x"] {
        assert_eq!(
            find_root(&abs(file), None, Some(&cluster), &config, &fs),
            Some(abs("/w/P/a/b"))
        );
    }
}

#[test]
fn scattered_orphans_share_the_top_directory() {
    let fs = tree(&["/w/P/main.x", "/w/P/a/b/c/deep.x", "/w/P/lib/core.x", "/w/P/a/mid.x"]);
    let files = vec![
        abs("/w/P/a/b/c/deep.x"),
        abs("/w/P/main.x"),
        abs("/w/P/lib/core.x"),
        abs("/w/P/a/mid.x"),
    ];
    let results = find_roots_batch(&files, &small_config(), &fs);
    assert_eq!(results.len(), 4);
    for (index, (file, root)) in results.iter().enumerate() {
        assert_eq!(file, &files[index]);
        assert_eq!(root, &Some(abs("/w/P")));
    }
}

#[test]
fn excluded_files_give_no_source_directory() {
    let fs = tree(&["/w/P/node_modules/m.x", "/w/P/a/b/f.x"]);
    let files = vec![abs("/w/P/node_modules/m.x"), abs("/w/P/a/b/f.x"), abs("/w/P/gone.x")];
    let results = find_roots_batch(&files, &small_config(), &fs);
    assert_eq!(results[0].1, None);
    assert_eq!(results[1].1, Some(abs("/w/P/a/b")));
    assert_eq!(results[2].1, None);
}

#[test]
fn lone_orphan_resolves_to_its_parent() {
    let fs = tree(&["/w/P/a/b/only.x"]);
    let config = small_config();
    let file = abs("/w/P/a/b/only.x");
    assert_eq!(find_root(&file, None, None, &config, &fs), Some(abs("/w/P/a/b")));
    let results = find_roots_batch(&[file.clone()], &config, &fs);
    assert_eq!(results, vec![(file, Some(abs("/w/P/a/b")))]);
}

#[test]
fn file_without_parent_resolves_to_itself() {
    let fs = tree(&["/f.x"]);
    let config = small_config();
    assert_eq!(find_root(&abs("/"), None, None, &config, &fs), Some(abs("/")));
    assert_eq!(find_root(&abs("/"), Some(&PathSet::new()), None, &config, &fs), Some(abs("/")));
    assert_eq!(find_root(&abs("/f.x"), None, None, &config, &fs), Some(abs("/")));
}

#[test]
fn warm_cache_gives_the_same_roots() {
    let fs = tree(&[
        "/w/P/.git/",
        "/w/P/s/a.x",
        "/w/P/node_modules/m/b.x",
        "/w/Q/s/c.x",
        "/w/Q/s/u/d.x",
    ]);
    let config = small_config();
    let dirs = set_of(&["/w/Q/s"]);
    let cluster = set_of(&["/w/Q/s/c.x", "/w/Q/s/u/d.x", "/w/P/node_modules/m/b.x"]);
    let files = ["/w/P/s/a.x", "/w/P/node_modules/m/b.x", "/w/Q/s/u/d.x", "/w/gone.x"];
    let mut cache = ExclusionCache::new();
    for _ in 0..2 {
        for file in files {
            let file = abs(file);
            let cold = find_root(&file, Some(&dirs), Some(&cluster), &config, &fs);
            let warm = find_root_with_cache(
                &file,
                Some(&dirs),
                Some(&cluster),
                &config,
                Some(&mut cache),
                &fs,
            );
            assert_eq!(warm, cold);
            let uncached =
                find_root_with_cache(&file, Some(&dirs), Some(&cluster), &config, None, &fs);
            assert_eq!(uncached, cold);
        }
    }
    assert_eq!(cache.get(&abs("/w/P/s/a.x")), Some(false));
    assert_eq!(cache.get(&abs("/w/P/node_modules/m/b.x")), Some(true));
    assert_eq!(cache.get(&abs("/w/Q/s/c.x")), Some(false));
    assert_eq!(cache.get(&abs("/w/gone.x")), None);
}

#[test]
fn resolution_fills_the_cache_with_what_it_checked() {
    let fs = tree(&["/w/P/.git/", "/w/P/s/a.x", "/w/Q/s/c.x", "/w/Q/s/d.x"]);
    let config = small_config();
    let cluster = set_of(&["/w/Q/s/c.x", "/w/Q/s/d.x"]);
    let mut cache = ExclusionCache::new();
    let marked =
        find_root_with_cache(&abs("/w/P/s/a.x"), None, Some(&cluster), &config, Some(&mut cache), &fs);
    assert_eq!(marked, Some(abs("/w/P")));
    assert_eq!(cache.get(&abs("/w/P/s/a.x")), Some(false));
    assert_eq!(cache.get(&abs("/w/Q/s/c.x")), None);
    let orphan =
        find_root_with_cache(&abs("/w/Q/s/c.x"), None, Some(&cluster), &config, Some(&mut cache), &fs);
    assert_eq!(orphan, Some(abs("/w/Q/s")));
    assert_eq!(cache.get(&abs("/w/Q/s/c.x")), Some(false));
    assert_eq!(cache.get(&abs("/w/Q/s/d.x")), Some(false));
}

#[test]
fn walk_visits_depth_first_in_listing_order() {
    let fs = tree(&["/P/b/one.x", "/P/a.x", "/P/b/c/two.x", "/P/b/three.x", "/P/z.x"]);
    let config = small_config();
    let options = TraversalOptions::default();
    let mut files = Vec::new();
    collect_files_recursive(&abs("/P"), &config, &options, 0, &mut files, &fs);
    assert_eq!(
        files,
        vec![
            abs("/P/b/one.x"),
            abs("/P/b/c/two.x"),
            abs("/P/b/three.x"),
            abs("/P/a.x"),
            abs("/P/z.x")
        ]
    );
    let results = traverse_and_detect(&abs("/P"), &config, &options, &fs);
    let visited: Vec<FsPath> = results.iter().map(|result| result.file.clone()).collect();
    assert_eq!(visited, files);
    for result in &results {
        assert_eq!(result.root, Some(abs("/P")));
    }
}

#[test]
fn walk_adds_to_the_files_it_is_given() {
    let fs = tree(&["/P/a.x"]);
    let mut files = vec![abs("/kept.x")];
    let options = TraversalOptions::default();
    collect_files_recursive(&abs("/P"), &small_config(), &options, 0, &mut files, &fs);
    assert_eq!(files, vec![abs("/kept.x"), abs("/P/a.x")]);
}

#[test]
fn walk_takes_only_files_and_enters_only_directories() {
    let mut fs = Snapshot::new();
    fs.record_listing(
        abs("/P"),
        vec![
            DirEntry { name: "socket".to_string(), kind: EntryKind::Other },
            DirEntry { name: "file.x".to_string(), kind: EntryKind::File },
            DirEntry { name: "dir".to_string(), kind: EntryKind::Directory },
            DirEntry { name: "unread".to_string(), kind: EntryKind::Directory },
        ],
    );
    fs.record_listing(
        abs("/P/dir"),
        vec![DirEntry { name: "inner.x".to_string(), kind: EntryKind::File }],
    );
    fs.record_listing(
        abs("/P/socket"),
        vec![DirEntry { name: "never.x".to_string(), kind: EntryKind::File }],
    );
    let mut files = Vec::new();
    let options = TraversalOptions::default();
    collect_files_recursive(&abs("/P"), &small_config(), &options, 0, &mut files, &fs);
    assert_eq!(files, vec![abs("/P/file.x"), abs("/P/dir/inner.x")]);
}

#[test]
fn walk_does_not_enter_an_exclusion_zone() {
    let fs = tree(&["/P/node_modules/m/a.x", "/P/s/b.x", "/P/s/node_modules/c.x"]);
    let config = small_config();
    let options = TraversalOptions::default();
    let mut files = Vec::new();
    collect_files_recursive(&abs("/P"), &config, &options, 0, &mut files, &fs);
    assert_eq!(files, vec![abs("/P/s/b.x")]);
    let mut files = Vec::new();
    collect_files_recursive(&abs("/P/node_modules"), &config, &options, 0, &mut files, &fs);
    assert!(files.is_empty());
    let mut files = Vec::new();
    collect_files_recursive(&abs("/P/node_modules/m"), &config, &options, 0, &mut files, &fs);
    assert_eq!(files, vec![abs("/P/node_modules/m/a.x")]);
}

#[test]
fn walk_stops_at_the_depth_limit() {
    let fs = tree(&["/P/a.x", "/P/s/b.x", "/P/s/t/c.x"]);
    let config = small_config();
    let count = |limit: usize, depth: usize| {
        let options = TraversalOptions::default().with_max_depth(limit);
        let mut files = Vec::new();
        collect_files_recursive(&abs("/P"), &config, &options, depth, &mut files, &fs);
        files.len()
    };
    assert_eq!(count(0, 0), 1);
    assert_eq!(count(1, 0), 2);
    assert_eq!(count(2, 0), 3);
    assert_eq!(count(9, 0), 3);
    assert_eq!(count(1, 1), 1);
    assert_eq!(count(1, 2), 0);
    assert_eq!(count(usize::MAX, usize::MAX), 1);
}

#[test]
fn roots_of_a_walk_are_unique() {
    let fs = tree(&[
        "/w/.git/",
        "/w/a/pkg.json",
        "/w/a/s/one.x",
        "/w/a/s/two.x",
        "/w/b/three.x",
        "/w/node_modules/m/pkg.json",
        "/w/node_modules/m/four.x",
    ]);
    let config = small_config();
    let options = TraversalOptions::default().with_extensions(&["x"]);
    let roots = discover_roots(&abs("/w"), &config, &options, &fs);
    assert_eq!(roots.paths, vec![abs("/w/a"), abs("/w")]);
    assert_eq!(roots.len(), 2);
    let nothing = discover_roots(&abs("/w/node_modules"), &config, &options, &fs);
    assert!(nothing.is_empty());
}

#[test]
fn walk_through_a_link_reports_the_excluded_target() {
    let mut fs = tree(&["/P/.git/", "/P/s/a.x", "/P/s/linked.x"]);
    fs.record_resolution(abs("/P/s/linked.x"), abs("/opt/node_modules/m/real.x"));
    let options = TraversalOptions::default();
    let results = traverse_and_detect(&abs("/P"), &small_config(), &options, &fs);
    let roots: Vec<(FsPath, Option<FsPath>)> =
        results.into_iter().map(|result| (result.file, result.root)).collect();
    assert!(roots.contains(&(abs("/P/s/a.x"), Some(abs("/P")))));
    assert!(roots.contains(&(abs("/P/s/linked.x"), None)));
    assert_eq!(roots.len(), 2);
}

#[test]
fn marker_search_asks_for_one_listing_at_a_time() {
    let whole = listings(&["/w/P/.git/", "/w/P/s/t/f.x"]);
    let listing_of = |dir: &FsPath| {
        whole
            .iter()
            .find(|(known, _)| known == dir)
            .map(|(_, entries)| entries.clone())
            .unwrap_or_default()
    };
    let config = small_config();
    let file = abs("/w/P/s/t/f.x");
    let mut fs = Snapshot::new();
    let mut asked = Vec::new();
    while let Some(dir) = next_unlisted_ancestor(&file, &config, &fs) {
        asked.push(dir.clone());
        let entries = listing_of(&dir);
        fs.record_listing(dir, entries);
    }
    assert_eq!(asked, vec![abs("/w/P/s/t"), abs("/w/P/s"), abs("/w/P")]);
    assert_eq!(find_marker_root(&file, &config, &fs), Some(abs("/w/P")));
}

#[test]
fn marker_search_asks_for_nothing_above_an_exclusion_zone() {
    let config = small_config();
    let fs = Snapshot::new();
    assert_eq!(
        next_unlisted_ancestor(&abs("/P/node_modules/m/f.x"), &config, &fs),
        Some(abs("/P/node_modules/m"))
    );
    assert_eq!(next_unlisted_ancestor(&abs("/P/node_modules/f.x"), &config, &fs), None);
    assert_eq!(next_unlisted_ancestor(&abs("/"), &config, &fs), None);
    assert_eq!(next_unlisted_ancestor(&abs("/f.x"), &config, &fs), Some(abs("/")));
    let mut listed = Snapshot::new();
    listed.record_listing(abs("/P/node_modules/m"), Vec::new());
    assert_eq!(next_unlisted_ancestor(&abs("/P/node_modules/m/f.x"), &config, &listed), None);
}

#[test]
fn excluded_file_needs_no_listing() {
    let config = small_config();
    let mut fs = Snapshot::new();
    let gone = abs("/P/s/gone.x");
    let zone = abs("/P/node_modules/m/f.x");
    let plain = abs("/P/s/f.x");
    fs.record_resolution(zone.clone(), zone.clone());
    fs.record_resolution(plain.clone(), plain.clone());
    assert_eq!(next_needed_listing(&gone, &config, &fs), None);
    assert_eq!(next_needed_listing(&zone, &config, &fs), None);
    assert_eq!(next_needed_listing(&plain, &config, &fs), Some(abs("/P/s")));
}

#[test]
fn walk_asks_for_the_directories_it_reaches() {
    let whole = listings(&[
        "/P/a/one.x",
        "/P/b/c/two.x",
        "/P/node_modules/m/three.x",
        "/P/b/d/e/four.x",
    ]);
    let listing_of = |dir: &FsPath| {
        whole
            .iter()
            .find(|(known, _)| known == dir)
            .map(|(_, entries)| entries.clone())
            .unwrap_or_default()
    };
    let config = small_config();
    let options = TraversalOptions::default().with_max_depth(2);
    let start = abs("/P");
    let mut fs = Snapshot::new();
    let mut rounds = Vec::new();
    loop {
        let gaps = unlisted_directories(&start, &config, &options, &fs);
        if gaps.is_empty() {
            break;
        }
        rounds.push(gaps.clone());
        for dir in gaps {
            let entries = listing_of(&dir);
            fs.record_listing(dir, entries);
        }
    }
    assert_eq!(
        rounds,
        vec![
            vec![abs("/P")],
            vec![abs("/P/a"), abs("/P/b")],
            vec![abs("/P/b/c"), abs("/P/b/d")],
        ]
    );
    let mut files = Vec::new();
    collect_files_recursive(&start, &config, &options, 0, &mut files, &fs);
    assert_eq!(files, vec![abs("/P/a/one.x"), abs("/P/b/c/two.x")]);
    assert!(unlisted_directories(&abs("/P/node_modules"), &config, &options, &fs).is_empty());
}
