//! Paths as sequences of names below an anchor.

use crate::names::{slice_texts, texts};
use vstd::prelude::*;

verus! {

/// A path: an anchor and the names that lead down from it, outermost first.
///
/// The anchor is the text of the root that the path starts at (`/`, or a drive
/// with its root), and empty for a relative path. It is no name: a path whose
/// `names` are empty has no parent and no file name.
#[derive(Debug, PartialEq, Eq, Hash)]
pub struct FsPath {
    pub anchor: String,
    pub names: Vec<String>,
}

/// What a path is to the contracts: the text of its anchor and of its names.
pub struct PathView {
    pub anchor: Seq<char>,
    pub names: Seq<Seq<char>>,
}

impl View for FsPath {
    type V = PathView;

    open spec fn view(&self) -> PathView {
        PathView { anchor: self.anchor@, names: texts(self.names@) }
    }
}

impl PathView {
    /// The number of names.
    pub open spec fn depth(self) -> nat {
        self.names.len()
    }

    /// Whether the path has a parent: it has one unless it is a bare anchor.
    pub open spec fn has_parent(self) -> bool {
        self.names.len() > 0
    }

    /// The path made of the anchor and the first `depth` names.
    pub open spec fn ancestor(self, depth: int) -> PathView {
        PathView { anchor: self.anchor, names: self.names.take(depth) }
    }

    /// The path without its last name.
    pub open spec fn parent(self) -> PathView
        recommends
            self.has_parent(),
    {
        self.ancestor(self.names.len() - 1)
    }

    /// The path that `name` has inside this directory.
    pub open spec fn child(self, name: Seq<char>) -> PathView {
        PathView { anchor: self.anchor, names: self.names.push(name) }
    }

    /// The last name, if there is one.
    pub open spec fn file_name(self) -> Option<Seq<char>> {
        if self.names.len() > 0 {
            Some(self.names.last())
        } else {
            None
        }
    }

    /// The extension of the last name, if there is a name and it has one.
    pub open spec fn extension(self) -> Option<Seq<char>> {
        match self.file_name() {
            Some(name) => extension_of(name),
            None => None,
        }
    }

    /// Whether the path is `dir` or lies below it.
    pub open spec fn is_under(self, dir: PathView) -> bool {
        dir.anchor == self.anchor && dir.names.is_prefix_of(self.names)
    }

    /// Whether `dir` is one of the directories above the path: its parent, the
    /// parent of that, and so on up to the anchor.
    pub open spec fn has_ancestor(self, dir: PathView) -> bool {
        self.is_under(dir) && dir.names.len() < self.names.len()
    }
}

/// The index of the last `.` of a name, or -1 if it has none.
pub open spec fn last_dot(name: Seq<char>) -> int
    decreases name.len(),
{
    if name.len() == 0 {
        -1
    } else if name.last() == '.' {
        name.len() - 1
    } else {
        last_dot(name.drop_last())
    }
}

/// The extension of a file name: what follows its last `.`, unless the name is
/// `..`, has no `.`, or has its only `.` in front.
pub open spec fn extension_of(name: Seq<char>) -> Option<Seq<char>> {
    if name == seq!['.', '.'] || last_dot(name) <= 0 {
        None
    } else {
        Some(name.skip(last_dot(name) + 1))
    }
}

/// What an optional string is to the contracts.
pub open spec fn text_of(text: Option<String>) -> Option<Seq<char>> {
    match text {
        Some(held) => Some(held@),
        None => None,
    }
}

/// `last_dot` is the one index that holds a `.` and has none behind it.
pub proof fn lemma_last_dot(name: Seq<char>, dot: int)
    requires
        -1 <= dot < name.len(),
        dot >= 0 ==> name[dot] == '.',
        forall|i: int| dot < i < name.len() ==> name[i] != '.',
    ensures
        last_dot(name) == dot,
    decreases name.len(),
{
    if name.len() > 0 && name.last() != '.' {
        lemma_last_dot(name.drop_last(), dot);
    }
}

/// Copies the first `count` names of a list.
fn copy_names(names: &Vec<String>, count: usize) -> (copy: Vec<String>)
    requires
        count <= names.len(),
    ensures
        texts(copy@) == texts(names@).take(count as int),
{
    let mut copy: Vec<String> = Vec::new();
    let mut i: usize = 0;
    while i < count
        invariant
            i <= count <= names.len(),
            copy.len() == i,
            forall|j: int| 0 <= j < i ==> copy[j]@ == names[j]@,
        decreases count - i,
    {
        copy.push(names[i].clone());
        i += 1;
    }
    copy
}

impl Clone for FsPath {
    fn clone(&self) -> (copy: FsPath)
        ensures
            copy@ == self@,
    {
        let names = copy_names(&self.names, self.names.len());
        assert(texts(self.names@).take(self.names.len() as int) =~= texts(self.names@));
        FsPath { anchor: self.anchor.clone(), names }
    }
}

impl FsPath {
    /// The path with the given anchor and names.
    pub fn new(anchor: &str, names: &[&str]) -> (path: FsPath)
        ensures
            path@.anchor == anchor@,
            path@.names == slice_texts(names@),
    {
        let mut owned: Vec<String> = Vec::new();
        let mut i: usize = 0;
        while i < names.len()
            invariant
                i <= names.len(),
                owned.len() == i,
                forall|j: int| 0 <= j < i ==> owned[j]@ == names[j]@,
            decreases names.len() - i,
        {
            owned.push(names[i].to_owned());
            i += 1;
        }
        FsPath { anchor: anchor.to_owned(), names: owned }
    }

    /// The number of names.
    pub fn depth(&self) -> (depth: usize)
        ensures
            depth == self@.depth(),
    {
        self.names.len()
    }

    /// Whether the two paths have the same anchor and the same names.
    pub fn same_as(&self, other: &FsPath) -> (same: bool)
        ensures
            same == (self@ == other@),
    {
        if self.anchor != other.anchor || self.names.len() != other.names.len() {
            assert(self@.names.len() == self.names.len());
            return false;
        }
        let mut i: usize = 0;
        while i < self.names.len()
            invariant
                i <= self.names.len(),
                self.names.len() == other.names.len(),
                forall|j: int| 0 <= j < i ==> self.names[j]@ == other.names[j]@,
            decreases self.names.len() - i,
        {
            if self.names[i] != other.names[i] {
                assert(self@.names[i as int] != other@.names[i as int]);
                return false;
            }
            i += 1;
        }
        assert(self@.names =~= other@.names);
        true
    }

    /// The path made of the anchor and the first `depth` names; the path
    /// itself if it has no more than `depth` names.
    pub fn ancestor(&self, depth: usize) -> (dir: FsPath)
        ensures
            depth <= self@.depth() ==> dir@ == self@.ancestor(depth as int),
            depth > self@.depth() ==> dir@ == self@,
    {
        let count = if depth < self.names.len() {
            depth
        } else {
            self.names.len()
        };
        let names = copy_names(&self.names, count);
        assert(texts(self.names@).take(self.names.len() as int) =~= texts(self.names@));
        FsPath { anchor: self.anchor.clone(), names }
    }

    /// The path without its last name; `None` for a bare anchor.
    pub fn parent(&self) -> (parent: Option<FsPath>)
        ensures
            parent is Some == self@.has_parent(),
            parent matches Some(dir) ==> dir@ == self@.parent(),
    {
        if self.names.len() == 0 {
            None
        } else {
            Some(self.ancestor(self.names.len() - 1))
        }
    }

    /// The last name; `None` for a bare anchor.
    pub fn file_name(&self) -> (name: Option<&str>)
        ensures
            match name {
                Some(text) => self@.file_name() == Some(text@),
                None => self@.file_name().is_none(),
            },
    {
        if self.names.len() == 0 {
            None
        } else {
            Some(self.names[self.names.len() - 1].as_str())
        }
    }

    /// The path that `name` has inside this directory.
    pub fn join(&self, name: &str) -> (path: FsPath)
        ensures
            path@ == self@.child(name@),
    {
        let mut names = copy_names(&self.names, self.names.len());
        assert(texts(self.names@).take(self.names.len() as int) =~= texts(self.names@));
        let ghost copied = names@;
        names.push(name.to_owned());
        assert(texts(names@) =~= texts(copied).push(name@));
        FsPath { anchor: self.anchor.clone(), names }
    }

    /// Whether the path is `dir` or lies below it.
    pub fn is_under(&self, dir: &FsPath) -> (under: bool)
        ensures
            under == self@.is_under(dir@),
    {
        if dir.names.len() > self.names.len() {
            return false;
        }
        let prefix = self.ancestor(dir.names.len());
        prefix.same_as(dir)
    }

    /// The extension of the path's file name.
    pub fn extension(&self) -> (extension: Option<String>)
        ensures
            text_of(extension) == self@.extension(),
    {
        match self.file_name() {
            None => None,
            Some(name) => extension_of_name(name),
        }
    }
}

/// The extension of a file name.
pub fn extension_of_name(name: &str) -> (extension: Option<String>)
    ensures
        text_of(extension) == extension_of(name@),
{
    let len = name.unicode_len();
    let mut dot: usize = len;
    while dot > 0
        invariant
            dot <= len == name@.len(),
            forall|i: int| dot <= i < len ==> name@[i] != '.',
        decreases dot,
    {
        dot -= 1;
        if name.get_char(dot) == '.' {
            proof {
                lemma_last_dot(name@, dot as int);
            }
            if dot == 0 {
                return None;
            }
            if len == 2 && dot == 1 && name.get_char(0) == '.' {
                assert(name@ =~= seq!['.', '.']);
                return None;
            }
            let text = name.substring_char(dot + 1, len).to_owned();
            return Some(text);
        }
    }
    proof {
        lemma_last_dot(name@, -1);
    }
    None
}

} // verus!
