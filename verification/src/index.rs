//! Sets of versions and indexes from package names to the versions present.
use crate::text::str_eq;
use crate::version::{range_accepts, Version, VersionRange};
use vstd::prelude::*;

verus! {

/// A set of versions, told apart by their texts.
#[derive(Debug)]
pub struct VersionSet {
    versions: Vec<Version>,
}

impl View for VersionSet {
    type V = Set<Seq<char>>;

    closed spec fn view(&self) -> Set<Seq<char>> {
        Set::new(|t: Seq<char>| exists|i: int| 0 <= i < self.versions@.len() && self.versions@[i]@ == t)
    }
}

impl VersionSet {
    /// The number of versions held.
    pub closed spec fn size(&self) -> nat {
        self.versions@.len()
    }

    /// The empty set.
    pub fn new() -> (r: VersionSet)
        ensures
            r@ == Set::<Seq<char>>::empty(),
    {
        let r = VersionSet { versions: Vec::new() };
        assert(r@ =~= Set::<Seq<char>>::empty());
        r
    }

    /// Whether `version` is in the set.
    pub fn contains(&self, version: &Version) -> (r: bool)
        ensures
            r == self@.contains(version@),
    {
        let mut i: usize = 0;
        while i < self.versions.len()
            invariant
                i <= self.versions@.len(),
                forall|k: int| 0 <= k < i ==> self.versions@[k]@ != version@,
            decreases self.versions.len() - i,
        {
            if self.versions[i].same_as(version) {
                return true;
            }
            i = i + 1;
        }
        false
    }

    /// Adds `version` to the set.
    pub fn insert(&mut self, version: &Version)
        ensures
            final(self)@ == old(self)@.insert(version@),
    {
        if !self.contains(version) {
            let ghost before = self.versions@;
            self.versions.push(version.clone());
            assert(self.versions@ == before.push(self.versions@.last()));
        }
        assert(self@ =~= old(self)@.insert(version@)) by {
            if old(self)@.contains(version@) {
                assert(self.versions@ == old(self).versions@);
            } else {
                assert forall|t: Seq<char>| old(self)@.insert(version@).contains(t) implies self@.contains(t) by {
                    if t == version@ {
                        assert(self.versions@[self.versions@.len() - 1]@ == t);
                    } else {
                        let i = choose|i: int| 0 <= i < old(self).versions@.len() && old(self).versions@[i]@ == t;
                        assert(self.versions@[i]@ == t);
                    }
                }
                assert forall|t: Seq<char>| self@.contains(t) implies old(self)@.insert(version@).contains(t) by {
                    let i = choose|i: int| 0 <= i < self.versions@.len() && self.versions@[i]@ == t;
                    if i < old(self).versions@.len() {
                        assert(old(self).versions@[i]@ == t);
                    }
                }
            }
        }
    }

    /// Whether some version of the set lies in `range`.
    pub fn any_in_range(&self, range: &VersionRange) -> (r: bool)
        ensures
            r == exists|t: Seq<char>| self@.contains(t) && range_accepts(range@, t),
    {
        let mut i: usize = 0;
        while i < self.versions.len()
            invariant
                i <= self.versions@.len(),
                forall|k: int| 0 <= k < i ==> !range_accepts(range@, #[trigger] self.versions@[k]@),
            decreases self.versions.len() - i,
        {
            if range.compare(&self.versions[i]) {
                assert(self@.contains(self.versions@[i as int]@));
                return true;
            }
            i = i + 1;
        }
        assert forall|t: Seq<char>| self@.contains(t) implies !range_accepts(range@, t) by {
            let k = choose|k: int| 0 <= k < self.versions@.len() && self.versions@[k]@ == t;
            assert(!range_accepts(range@, self.versions@[k]@));
        }
        false
    }
}

/// One name of an index with the versions present under it.
#[derive(Debug)]
struct IndexEntry {
    name: String,
    set: VersionSet,
}

/// An index from package names to the versions present under each name,
/// viewed as the set of its (name, version text) pairs.
#[derive(Debug)]
pub struct PackageIndex {
    entries: Vec<IndexEntry>,
}

impl View for PackageIndex {
    type V = Set<(Seq<char>, Seq<char>)>;

    closed spec fn view(&self) -> Set<(Seq<char>, Seq<char>)> {
        Set::new(
            |p: (Seq<char>, Seq<char>)|
                exists|i: int|
                    0 <= i < self.entries@.len() && self.entries@[i].name@ == p.0
                        && #[trigger] self.entries@[i].set@.contains(p.1),
        )
    }
}

/// The versions present under `name` in the pairs `s`.
pub open spec fn versions_named(s: Set<(Seq<char>, Seq<char>)>, name: Seq<char>) -> Set<Seq<char>> {
    Set::new(|t: Seq<char>| s.contains((name, t)))
}

/// Whether some version is present under `name` in the pairs `s`.
pub open spec fn has_name(s: Set<(Seq<char>, Seq<char>)>, name: Seq<char>) -> bool {
    exists|t: Seq<char>| s.contains((name, t))
}

impl PackageIndex {
    #[verifier::type_invariant]
    spec fn well_formed(self) -> bool {
        &&& forall|i: int, j: int|
            0 <= i < self.entries@.len() && 0 <= j < self.entries@.len() && i != j
                ==> self.entries@[i].name@ != self.entries@[j].name@
        &&& forall|i: int| 0 <= i < self.entries@.len() ==> self.entries@[i].set.versions@.len() > 0
    }

    /// The empty index.
    pub fn new() -> (r: PackageIndex)
        ensures
            r@ == Set::<(Seq<char>, Seq<char>)>::empty(),
    {
        let r = PackageIndex { entries: Vec::new() };
        assert(r@ =~= Set::<(Seq<char>, Seq<char>)>::empty());
        r
    }

    fn find(&self, name: &str) -> (r: Option<usize>)
        ensures
            match r {
                Some(i) => i < self.entries@.len() && self.entries@[i as int].name@ == name@,
                None => forall|k: int| 0 <= k < self.entries@.len() ==> self.entries@[k].name@ != name@,
            },
    {
        let mut i: usize = 0;
        while i < self.entries.len()
            invariant
                i <= self.entries@.len(),
                forall|k: int| 0 <= k < i ==> self.entries@[k].name@ != name@,
            decreases self.entries.len() - i,
        {
            if str_eq(self.entries[i].name.as_str(), name) {
                return Some(i);
            }
            i = i + 1;
        }
        None
    }

    /// Whether some version is present under `name`.
    pub fn contains_key(&self, name: &str) -> (r: bool)
        ensures
            r == has_name(self@, name@),
    {
        proof {
            use_type_invariant(self);
        }
        match self.find(name) {
            Some(i) => {
                proof {
                    let t = self.entries@[i as int].set.versions@[0]@;
                    let p = (name@, t);
                    assert(self.entries@[i as int].set@.contains(p.1));
                    assert(self.entries@[i as int].name@ == p.0);
                    assert(self@.contains(p));
                }
                true
            },
            None => {
                assert forall|t: Seq<char>| !self@.contains((name@, t)) by {
                    if self@.contains((name@, t)) {
                        let i = choose|i: int|
                            0 <= i < self.entries@.len() && self.entries@[i].name@ == name@
                                && #[trigger] self.entries@[i].set@.contains(t);
                        assert(self.entries@[i].name@ != name@);
                    }
                }
                false
            },
        }
    }

    /// The versions present under `name`, if any is.
    pub fn get(&self, name: &str) -> (r: Option<&VersionSet>)
        ensures
            match r {
                Some(s) => has_name(self@, name@) && s@ == versions_named(self@, name@),
                None => !has_name(self@, name@),
            },
    {
        proof {
            use_type_invariant(self);
        }
        match self.find(name) {
            Some(i) => {
                let s = &self.entries[i].set;
                proof {
                    let t = s.versions@[0]@;
                    let p = (name@, t);
                    assert(self.entries@[i as int].set@.contains(p.1));
                    assert(self.entries@[i as int].name@ == p.0);
                    assert(self@.contains(p));
                    assert forall|t: Seq<char>| s@.contains(t) == self@.contains((name@, t)) by {
                        let q = (name@, t);
                        if s@.contains(t) {
                            assert(self.entries@[i as int].set@.contains(q.1));
                            assert(self.entries@[i as int].name@ == q.0);
                        }
                        if self@.contains((name@, t)) {
                            let j = choose|j: int|
                                0 <= j < self.entries@.len() && self.entries@[j].name@ == name@
                                    && #[trigger] self.entries@[j].set@.contains(t);
                            assert(j == i);
                        }
                    }
                    assert(s@ =~= versions_named(self@, name@));
                }
                Some(s)
            },
            None => {
                assert forall|t: Seq<char>| !self@.contains((name@, t)) by {
                    if self@.contains((name@, t)) {
                        let i = choose|i: int|
                            0 <= i < self.entries@.len() && self.entries@[i].name@ == name@
                                && #[trigger] self.entries@[i].set@.contains(t);
                        assert(self.entries@[i].name@ != name@);
                    }
                }
                None
            },
        }
    }

    /// Adds the pair (`name`, `version`).
    pub fn insert(&mut self, name: &str, version: &Version)
        ensures
            final(self)@ == old(self)@.insert((name@, version@)),
    {
        proof {
            use_type_invariant(&*self);
        }
        let ghost old_entries = self.entries@;
        match self.find(name) {
            Some(i) => {
                let mut entries: Vec<IndexEntry> = Vec::new();
                std::mem::swap(&mut entries, &mut self.entries);
                let mut entry = entries.remove(i);
                let ghost old_set = entry.set@;
                entry.set.insert(version);
                assert(entry.set@.contains(version@));
                entries.insert(i, entry);
                proof {
                    assert forall|k: int| 0 <= k < entries@.len() implies entries@[k].name@
                        == old_entries[k].name@ by {
                        if k < i {
                        } else if k > i {
                        }
                    }
                    assert forall|k: int| 0 <= k < entries@.len() implies entries@[k].set.versions@.len()
                        > 0 by {
                        if k == i {
                            assert(entries@[k].set@.contains(version@));
                        }
                    }
                }
                self.entries = entries;
                proof {
                    assert forall|k: int| 0 <= k < self.entries@.len() && k != i implies self.entries@[k]
                        == old_entries[k] by {
                        if k < i {
                        } else {
                        }
                    }
                    assert forall|p: (Seq<char>, Seq<char>)|
                        #![trigger old(self)@.insert((name@, version@)).contains(p)]
                        old(self)@.insert((name@, version@)).contains(p) == self@.contains(p) by {
                        if old(self)@.contains(p) {
                            let k = choose|k: int|
                                0 <= k < old_entries.len() && old_entries[k].name@ == p.0
                                    && #[trigger] old_entries[k].set@.contains(p.1);
                            assert(self.entries@[k].set@.contains(p.1));
                        }
                        if p == (name@, version@) {
                            assert(self.entries@[i as int].set@.contains(p.1));
                        }
                        if self@.contains(p) {
                            let k = choose|k: int|
                                0 <= k < self.entries@.len() && self.entries@[k].name@ == p.0
                                    && #[trigger] self.entries@[k].set@.contains(p.1);
                            if k != i {
                                assert(old_entries[k].set@.contains(p.1));
                            } else if p.1 != version@ {
                                assert(old_set.contains(p.1));
                            }
                        }
                    }
                    assert(self@ =~= old(self)@.insert((name@, version@)));
                }
            },
            None => {
                let mut set = VersionSet::new();
                set.insert(version);
                let mut entries: Vec<IndexEntry> = Vec::new();
                std::mem::swap(&mut entries, &mut self.entries);
                assert(set@.contains(version@));
                assert(set.versions@.len() > 0);
                entries.push(IndexEntry { name: crate::text::string_of(name), set });
                proof {
                    assert forall|k: int| 0 <= k < old_entries.len() implies entries@[k] == old_entries[k] by {}
                }
                self.entries = entries;
                proof {
                    let n = old_entries.len();
                    assert forall|k: int| 0 <= k < n implies self.entries@[k] == old_entries[k] by {}
                    assert(self.entries@[n as int].set@.contains(version@));
                    assert forall|p: (Seq<char>, Seq<char>)|
                        #![trigger old(self)@.insert((name@, version@)).contains(p)]
                        old(self)@.insert((name@, version@)).contains(p) == self@.contains(p) by {
                        if old(self)@.contains(p) {
                            let k = choose|k: int|
                                0 <= k < old_entries.len() && old_entries[k].name@ == p.0
                                    && #[trigger] old_entries[k].set@.contains(p.1);
                            assert(self.entries@[k].set@.contains(p.1));
                        }
                        if p == (name@, version@) {
                            assert(self.entries@[n as int].set@.contains(p.1));
                        }
                        if self@.contains(p) {
                            let k = choose|k: int|
                                0 <= k < self.entries@.len() && self.entries@[k].name@ == p.0
                                    && #[trigger] self.entries@[k].set@.contains(p.1);
                            if k < n {
                                assert(old_entries[k].set@.contains(p.1));
                            }
                        }
                    }
                    assert(self@ =~= old(self)@.insert((name@, version@)));
                }
            },
        }
    }

    /// Whether some version present under `name` lies in `range`.
    pub fn any_in_range(&self, name: &str, range: &VersionRange) -> (r: bool)
        ensures
            r == exists|t: Seq<char>| self@.contains((name@, t)) && range_accepts(range@, t),
    {
        match self.get(name) {
            Some(s) => {
                let r = s.any_in_range(range);
                proof {
                    if r {
                        let t = choose|t: Seq<char>| s@.contains(t) && range_accepts(range@, t);
                        assert(self@.contains((name@, t)));
                    } else {
                        assert forall|t: Seq<char>| self@.contains((name@, t)) implies !range_accepts(range@, t) by {
                            assert(s@.contains(t));
                        }
                    }
                }
                r
            },
            None => {
                proof {
                    assert forall|t: Seq<char>| !self@.contains((name@, t)) by {
                        if self@.contains((name@, t)) {
                            assert(has_name(self@, name@));
                        }
                    }
                }
                false
            },
        }
    }
}


impl Clone for VersionSet {
    fn clone(&self) -> (r: VersionSet)
        ensures
            r@ == self@,
            r.size() == self.size(),
    {
        let mut versions: Vec<Version> = Vec::new();
        let mut i: usize = 0;
        while i < self.versions.len()
            invariant
                i <= self.versions@.len(),
                versions@.len() == i,
                forall|k: int| 0 <= k < i ==> versions@[k]@ == self.versions@[k]@,
            decreases self.versions.len() - i,
        {
            versions.push(self.versions[i].clone());
            i = i + 1;
        }
        let r = VersionSet { versions };
        assert forall|t: Seq<char>| r@.contains(t) == self@.contains(t) by {
            if r@.contains(t) {
                let k = choose|k: int| 0 <= k < r.versions@.len() && r.versions@[k]@ == t;
                assert(self.versions@[k]@ == t);
            }
            if self@.contains(t) {
                let k = choose|k: int| 0 <= k < self.versions@.len() && self.versions@[k]@ == t;
                assert(r.versions@[k]@ == t);
            }
        }
        assert(r@ =~= self@);
        r
    }
}

impl Clone for PackageIndex {
    fn clone(&self) -> (r: PackageIndex)
        ensures
            r@ == self@,
    {
        proof {
            use_type_invariant(self);
        }
        let mut entries: Vec<IndexEntry> = Vec::new();
        let mut i: usize = 0;
        while i < self.entries.len()
            invariant
                i <= self.entries@.len(),
                entries@.len() == i,
                forall|k: int|
                    0 <= k < i ==> entries@[k].name@ == self.entries@[k].name@ && entries@[k].set@
                        == self.entries@[k].set@ && entries@[k].set.versions@.len()
                        == self.entries@[k].set.versions@.len(),
            decreases self.entries.len() - i,
        {
            let e = IndexEntry { name: self.entries[i].name.clone(), set: self.entries[i].set.clone() };
            entries.push(e);
            i = i + 1;
        }
        let r = PackageIndex { entries };
        assert forall|p: (Seq<char>, Seq<char>)| r@.contains(p) == self@.contains(p) by {
            if r@.contains(p) {
                let k = choose|k: int|
                    0 <= k < r.entries@.len() && r.entries@[k].name@ == p.0
                        && #[trigger] r.entries@[k].set@.contains(p.1);
                assert(self.entries@[k].set@.contains(p.1));
            }
            if self@.contains(p) {
                let k = choose|k: int|
                    0 <= k < self.entries@.len() && self.entries@[k].name@ == p.0
                        && #[trigger] self.entries@[k].set@.contains(p.1);
                assert(r.entries@[k].set@.contains(p.1));
            }
        }
        assert(r@ =~= self@);
        r
    }
}

} // verus!
