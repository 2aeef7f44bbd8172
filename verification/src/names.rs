//! Names of files and directories, and sets of them.

use vstd::prelude::*;

verus! {

/// The lowercase form of a name.
pub uninterp spec fn lowercase_of(name: Seq<char>) -> Seq<char>;

/// Calls `str::to_lowercase` of the standard library. Not proved: that the
/// string it returns is the lowercase form of `name`, which depends on the
/// characters of `name` and on nothing else.
#[verifier::external_body]
fn to_lowercase(name: &str) -> (lowered: String)
    ensures
        lowered@ == lowercase_of(name@),
{
    name.to_lowercase()
}

/// The text under which a name is compared: the name itself, or its lowercase
/// form when case is ignored.
pub open spec fn name_key(name: Seq<char>, case_insensitive: bool) -> Seq<char> {
    if case_insensitive {
        lowercase_of(name)
    } else {
        name
    }
}

/// Two names agree when their keys are equal.
pub open spec fn names_agree(a: Seq<char>, b: Seq<char>, case_insensitive: bool) -> bool {
    name_key(a, case_insensitive) == name_key(b, case_insensitive)
}

/// The texts of a sequence of strings.
pub open spec fn texts(names: Seq<String>) -> Seq<Seq<char>> {
    Seq::new(names.len(), |i: int| names[i]@)
}

/// The texts of a sequence of string slices.
pub open spec fn slice_texts(names: Seq<&str>) -> Seq<Seq<char>> {
    Seq::new(names.len(), |i: int| names[i]@)
}

/// Computes the key of a name.
pub fn key_of(name: &str, case_insensitive: bool) -> (key: String)
    ensures
        key@ == name_key(name@, case_insensitive),
{
    if case_insensitive {
        to_lowercase(name)
    } else {
        name.to_owned()
    }
}

/// Whether `key` is one of `keys`.
pub fn holds_key(keys: &Vec<String>, key: &String) -> (found: bool)
    ensures
        found == texts(keys@).contains(key@),
{
    let mut i: usize = 0;
    while i < keys.len()
        invariant
            i <= keys.len(),
            forall|j: int| 0 <= j < i ==> keys[j]@ != key@,
        decreases keys.len() - i,
    {
        if keys[i] == *key {
            assert(texts(keys@)[i as int] == key@);
            return true;
        }
        i += 1;
    }
    false
}

/// A set of names, kept as a list. A name that stands in the list twice is
/// one member; the functions of the set put none in twice.
#[derive(Debug, Clone)]
pub struct NameSet {
    pub names: Vec<String>,
}

impl View for NameSet {
    type V = Set<Seq<char>>;

    open spec fn view(&self) -> Set<Seq<char>> {
        texts(self.names@).to_set()
    }
}

/// Whether some member of `members` agrees with `name`.
pub open spec fn some_member_agrees(
    members: Set<Seq<char>>,
    name: Seq<char>,
    case_insensitive: bool,
) -> bool {
    exists|member: Seq<char>| #[trigger]
        members.contains(member) && names_agree(member, name, case_insensitive)
}

impl NameSet {
    /// The list that the set is kept as.
    pub open spec fn members(&self) -> Seq<Seq<char>> {
        texts(self.names@)
    }

    /// The empty set.
    pub fn new() -> (set: NameSet)
        ensures
            set@ == Set::<Seq<char>>::empty(),
            set.members() == Seq::<Seq<char>>::empty(),
    {
        let set = NameSet { names: Vec::new() };
        set
    }

    /// The set of the given names, each once and in the order in which it
    /// first comes.
    pub fn from_names(names: &[&str]) -> (set: NameSet)
        ensures
            set@ == slice_texts(names@).to_set(),
            set.members().no_duplicates(),
    {
        let mut set = NameSet::new();
        set.extend(names);
        set
    }

    /// Adds a name at the end of the list, unless it is a member already.
    /// Returns whether it was added.
    pub fn insert(&mut self, name: &str) -> (added: bool)
        ensures
            final(self)@ == old(self)@.insert(name@),
            added == !old(self)@.contains(name@),
            final(self).members() == if added {
                old(self).members().push(name@)
            } else {
                old(self).members()
            },
            old(self).members().no_duplicates() ==> final(self).members().no_duplicates(),
    {
        let owned = name.to_owned();
        if holds_key(&self.names, &owned) {
            false
        } else {
            self.names.push(owned);
            proof {
                assert(self.members() =~= old(self).members().push(name@));
                old(self).members().lemma_push_to_set_commute(name@);
            }
            true
        }
    }

    /// Adds every name of `names` that is no member yet, in their order.
    pub fn extend(&mut self, names: &[&str])
        ensures
            final(self)@ == old(self)@.union(slice_texts(names@).to_set()),
            old(self).members().no_duplicates() ==> final(self).members().no_duplicates(),
    {
        let ghost all = slice_texts(names@);
        let mut i: usize = 0;
        while i < names.len()
            invariant
                i <= names.len(),
                all == slice_texts(names@),
                self@ == old(self)@.union(all.take(i as int).to_set()),
                old(self).members().no_duplicates() ==> self.members().no_duplicates(),
            decreases names.len() - i,
        {
            self.insert(names[i]);
            proof {
                assert(all.take(i + 1) =~= all.take(i as int).push(names[i as int]@));
                all.take(i as int).lemma_push_to_set_commute(names[i as int]@);
            }
            i += 1;
        }
        assert(all.take(names.len() as int) =~= all);
    }

    /// Whether the set has no member.
    pub fn is_empty(&self) -> (empty: bool)
        ensures
            empty == (self@ == Set::<Seq<char>>::empty()),
    {
        if self.names.len() == 0 {
            assert(self@ =~= Set::<Seq<char>>::empty());
            true
        } else {
            assert(texts(self.names@)[0] == self.names[0]@);
            assert(self@.contains(self.names[0]@));
            false
        }
    }

    /// Whether `name` is a member, letter for letter.
    pub fn contains(&self, name: &str) -> (found: bool)
        ensures
            found == self@.contains(name@),
    {
        let owned = name.to_owned();
        holds_key(&self.names, &owned)
    }

    /// The keys of the members, in the order in which the set holds them.
    pub fn keys(&self, case_insensitive: bool) -> (keys: Vec<String>)
        ensures
            keys.len() == self.names.len(),
            forall|i: int|
                0 <= i < keys.len() ==> #[trigger] keys[i]@ == name_key(
                    self.names[i]@,
                    case_insensitive,
                ),
    {
        let mut keys: Vec<String> = Vec::new();
        let mut i: usize = 0;
        while i < self.names.len()
            invariant
                i <= self.names.len(),
                keys.len() == i,
                forall|j: int|
                    0 <= j < i ==> #[trigger] keys[j]@ == name_key(
                        self.names[j]@,
                        case_insensitive,
                    ),
            decreases self.names.len() - i,
        {
            keys.push(key_of(self.names[i].as_str(), case_insensitive));
            i += 1;
        }
        keys
    }

    /// Whether some member agrees with `name`: letter for letter, or without
    /// regard to case.
    pub fn matches(&self, name: &str, case_insensitive: bool) -> (found: bool)
        ensures
            found == some_member_agrees(self@, name@, case_insensitive),
    {
        let keys = self.keys(case_insensitive);
        let key = key_of(name, case_insensitive);
        let found = holds_key(&keys, &key);
        proof {
            if found {
                let i = choose|i: int| 0 <= i < keys.len() && texts(keys@)[i] == key@;
                assert(texts(self.names@)[i] == self.names[i]@);
                assert(self@.contains(self.names[i]@));
            }
            if some_member_agrees(self@, name@, case_insensitive) {
                let member = choose|member: Seq<char>| #[trigger]
                    self@.contains(member) && names_agree(member, name@, case_insensitive);
                let i = choose|i: int|
                    0 <= i < self.names.len() && texts(self.names@)[i] == member;
                assert(texts(keys@)[i] == key@);
            }
        }
        found
    }
}

} // verus!
