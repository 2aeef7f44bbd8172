//! What counts as an exclusion zone and what marks a project root.

use crate::names::{slice_texts, some_member_agrees, NameSet};
use crate::path::PathView;
use vstd::prelude::*;

verus! {

/// The directory names that are exclusion zones unless the caller says
/// otherwise: virtual environments, dependency directories, build output and
/// caches.
pub const DEFAULT_EXCLUSIONS: [&'static str; 15] = [
    ".venv",
    "venv",
    "node_modules",
    "__pycache__",
    "site-packages",
    ".tox",
    "dist",
    "build",
    ".egg-info",
    ".mypy_cache",
    ".pytest_cache",
    ".ruff_cache",
    "target",
    "vendor",
    ".gradle",
];

/// The file names that mark a project root unless the caller says otherwise:
/// version-control directories and package or build manifests.
pub const DEFAULT_MARKERS: [&'static str; 13] = [
    ".git",
    ".hg",
    "pyproject.toml",
    "setup.py",
    "package.json",
    "Cargo.toml",
    "go.mod",
    "pom.xml",
    "build.gradle",
    "CMakeLists.txt",
    "deno.json",
    "composer.json",
    "mix.exs",
];

/// The names of exclusion zones, the names of markers, and whether names are
/// compared without regard to case.
#[derive(Debug, Clone)]
pub struct Config {
    /// Directory names that mark exclusion zones.
    pub exclusions: NameSet,
    /// File names that mark project roots.
    pub markers: NameSet,
    /// Whether names are compared without regard to case.
    pub case_insensitive: bool,
}

/// What a configuration is to the contracts.
pub struct ConfigView {
    pub exclusions: Set<Seq<char>>,
    pub markers: Set<Seq<char>>,
    pub case_insensitive: bool,
}

impl View for Config {
    type V = ConfigView;

    open spec fn view(&self) -> ConfigView {
        ConfigView {
            exclusions: self.exclusions@,
            markers: self.markers@,
            case_insensitive: self.case_insensitive,
        }
    }
}

impl ConfigView {
    /// Whether `name` is the name of an exclusion zone.
    pub open spec fn excludes(self, name: Seq<char>) -> bool {
        some_member_agrees(self.exclusions, name, self.case_insensitive)
    }

    /// Whether `name` is the name of a marker.
    pub open spec fn marks(self, name: Seq<char>) -> bool {
        some_member_agrees(self.markers, name, self.case_insensitive)
    }

    /// Whether some name of `path` is the name of an exclusion zone.
    pub open spec fn excludes_path(self, path: PathView) -> bool {
        exists|i: int| 0 <= i < path.names.len() && self.excludes(#[trigger] path.names[i])
    }

    /// Whether the directory is itself an exclusion zone: it has a name, and
    /// the name is excluded.
    pub open spec fn is_boundary(self, dir: PathView) -> bool {
        dir.names.len() > 0 && self.excludes(dir.names.last())
    }
}

impl Default for Config {
    /// The default exclusions and markers, compared letter for letter.
    fn default() -> (config: Config)
        ensures
            config@.exclusions == slice_texts(DEFAULT_EXCLUSIONS@).to_set(),
            config@.markers == slice_texts(DEFAULT_MARKERS@).to_set(),
            !config@.case_insensitive,
            config.exclusions.members().no_duplicates(),
            config.markers.members().no_duplicates(),
    {
        Config::new(&DEFAULT_EXCLUSIONS, &DEFAULT_MARKERS)
    }
}

impl Config {
    /// The configuration with the given exclusions and markers, compared
    /// letter for letter.
    pub fn new(exclusions: &[&str], markers: &[&str]) -> (config: Config)
        ensures
            config@.exclusions == slice_texts(exclusions@).to_set(),
            config@.markers == slice_texts(markers@).to_set(),
            !config@.case_insensitive,
            config.exclusions.members().no_duplicates(),
            config.markers.members().no_duplicates(),
    {
        Config {
            exclusions: NameSet::from_names(exclusions),
            markers: NameSet::from_names(markers),
            case_insensitive: false,
        }
    }

    /// The same configuration with more exclusions.
    pub fn with_exclusions(self, exclusions: &[&str]) -> (config: Config)
        ensures
            config@.exclusions == self@.exclusions.union(slice_texts(exclusions@).to_set()),
            config@.markers == self@.markers,
            config@.case_insensitive == self@.case_insensitive,
            self.exclusions.members().no_duplicates()
                ==> config.exclusions.members().no_duplicates(),
            config.markers.members() == self.markers.members(),
    {
        let mut config = self;
        config.exclusions.extend(exclusions);
        config
    }

    /// The same configuration with more markers.
    pub fn with_markers(self, markers: &[&str]) -> (config: Config)
        ensures
            config@.exclusions == self@.exclusions,
            config@.markers == self@.markers.union(slice_texts(markers@).to_set()),
            config@.case_insensitive == self@.case_insensitive,
            self.markers.members().no_duplicates() ==> config.markers.members().no_duplicates(),
            config.exclusions.members() == self.exclusions.members(),
    {
        let mut config = self;
        config.markers.extend(markers);
        config
    }

    /// The same configuration, comparing names without regard to case or
    /// letter for letter.
    pub fn with_case_insensitive(self, case_insensitive: bool) -> (config: Config)
        ensures
            config@.exclusions == self@.exclusions,
            config@.markers == self@.markers,
            config@.case_insensitive == case_insensitive,
    {
        let mut config = self;
        config.case_insensitive = case_insensitive;
        config
    }

    /// Whether `name` is the name of an exclusion zone.
    pub fn matches_exclusion(&self, name: &str) -> (excluded: bool)
        ensures
            excluded == self@.excludes(name@),
    {
        self.exclusions.matches(name, self.case_insensitive)
    }

    /// Whether `name` is the name of a marker.
    pub fn matches_marker(&self, name: &str) -> (marked: bool)
        ensures
            marked == self@.marks(name@),
    {
        self.markers.matches(name, self.case_insensitive)
    }
}

} // verus!
