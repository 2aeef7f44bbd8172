//! Finds the project root of a source file: the directory that a tool should
//! take as the boundary of the project the file belongs to.
//!
//! A root is found in this order: a file in an exclusion zone has none; else
//! it is the innermost directory above the file that holds a marker; else the
//! lowest common ancestor of the file's dependency cluster; else the
//! outermost known source directory above the file; else the file's parent.
//!
//! The file system is read through a [`Snapshot`]: a record of which paths
//! resolve and what the directories hold. Every function here is a function of
//! its arguments alone. The module [`coverage`] says which directories a
//! snapshot still lacks, so that a caller lists no more than a resolution
//! reads; [`theorems`] states what holds of every resolution; [`report`]
//! holds what a command-line front end decides.

pub mod config;
pub mod coverage;
pub mod error;
pub mod exclusion;
pub mod lca;
pub mod marker;
pub mod names;
pub mod orphanage;
pub mod path;
pub mod path_map;
pub mod path_set;
pub mod report;
pub mod resolve;
pub mod snapshot;
pub mod theorems;
pub mod traverse;

pub use config::{Config, DEFAULT_EXCLUSIONS, DEFAULT_MARKERS};
pub use error::RootDetectionError;
pub use exclusion::{is_excluded, ExclusionCache};
pub use lca::compute_lca;
pub use marker::find_marker_root;
pub use names::NameSet;
pub use orphanage::find_orphanage;
pub use path::FsPath;
pub use path_map::PathMap;
pub use path_set::PathSet;
pub use resolve::{find_root, find_root_with_cache, find_roots_batch};
pub use snapshot::{DirEntry, EntryKind, Snapshot};
pub use traverse::{discover_roots, traverse_and_detect, TraversalOptions, TraversalResult};
