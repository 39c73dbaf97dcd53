//! The mapping store: a flat table of path-to-URL entries with unique paths.

use vstd::prelude::*;

verus! {

/// A single path-to-URL association. `path` is the unique key and must match
/// an incoming request's path exactly, leading slash included; `url` is the
/// redirect target, opaque to the engine.
pub struct MappingEntry {
    pub path: String,
    pub url: String,
}

impl MappingEntry {
    /// The key of this entry, as a sequence of characters.
    pub open spec fn key(self) -> Seq<char> {
        self.path@
    }

    /// The redirect target of this entry, as a sequence of characters.
    pub open spec fn target(self) -> Seq<char> {
        self.url@
    }
}

/// The mapping denoted by a sequence of entries; a later entry for the same
/// path overrides an earlier one.
pub open spec fn map_of(entries: Seq<MappingEntry>) -> Map<Seq<char>, Seq<char>>
    decreases entries.len(),
{
    if entries.len() == 0 {
        Map::empty()
    } else {
        map_of(entries.drop_last()).insert(entries.last().key(), entries.last().target())
    }
}

/// The denoted mapping has a key exactly when some entry carries it.
pub proof fn lemma_map_of_contains(entries: Seq<MappingEntry>, p: Seq<char>)
    ensures
        map_of(entries).contains_key(p) <==> exists|i: int|
            0 <= i < entries.len() && entries[i].key() == p,
    decreases entries.len(),
{
    if entries.len() > 0 {
        lemma_map_of_contains(entries.drop_last(), p);
        if entries.last().key() == p {
            assert(entries[entries.len() - 1].key() == p);
        } else if map_of(entries).contains_key(p) {
            let i = choose|i: int| 0 <= i < entries.drop_last().len()
                && entries.drop_last()[i].key() == p;
            assert(entries[i].key() == p);
        } else if exists|i: int| 0 <= i < entries.len() && entries[i].key() == p {
            let i = choose|i: int| 0 <= i < entries.len() && entries[i].key() == p;
            assert(entries.drop_last()[i].key() == p);
        }
    }
}

/// When keys are unique, the entry that carries a key decides its value in
/// the denoted mapping.
pub proof fn lemma_map_of_index(entries: Seq<MappingEntry>, i: int)
    requires
        0 <= i < entries.len(),
        forall|j: int, k: int| 0 <= j < k < entries.len()
            ==> entries[j].key() != entries[k].key(),
    ensures
        map_of(entries).contains_key(entries[i].key()),
        map_of(entries)[entries[i].key()] == entries[i].target(),
    decreases entries.len(),
{
    if i == entries.len() - 1 {
        assert(entries[i] == entries.last());
    } else {
        lemma_map_of_index(entries.drop_last(), i);
        assert(entries.drop_last()[i] == entries[i]);
        assert(entries[i].key() != entries.last().key());
    }
}

/// Replacing the entry at `i` by one with the same key denotes the mapping
/// with that key rebound, provided keys are unique.
proof fn lemma_map_of_update(entries: Seq<MappingEntry>, i: int, e: MappingEntry)
    requires
        0 <= i < entries.len(),
        forall|j: int, k: int| 0 <= j < k < entries.len()
            ==> entries[j].key() != entries[k].key(),
        e.key() == entries[i].key(),
    ensures
        map_of(entries.update(i, e)) == map_of(entries).insert(e.key(), e.target()),
    decreases entries.len(),
{
    let updated = entries.update(i, e);
    if i == entries.len() - 1 {
        assert(updated.drop_last() =~= entries.drop_last());
        assert(updated.last() == e);
        assert(map_of(updated) =~= map_of(entries).insert(e.key(), e.target()));
    } else {
        assert(updated.drop_last() =~= entries.drop_last().update(i, e));
        assert(updated.last() == entries.last());
        lemma_map_of_update(entries.drop_last(), i, e);
        assert(entries[i].key() != entries.last().key());
        assert(map_of(updated) =~= map_of(entries).insert(e.key(), e.target()));
    }
}

/// The error reported when an entry is created for a path that already
/// has one.
#[derive(Debug, PartialEq, Eq, Structural)]
pub struct ConflictError;

/// The outcome of an update: either exactly one entry changed, or the path
/// was absent and nothing changed.
#[derive(Debug, PartialEq, Eq, Structural, Clone, Copy)]
pub enum UpdateOutcome {
    Updated,
    NotFound,
}

/// The mapping store: the single owner of the entry set. Paths are unique;
/// lookups are case-sensitive exact matches.
pub struct Store {
    entries: Vec<MappingEntry>,
}

impl View for Store {
    type V = Map<Seq<char>, Seq<char>>;

    /// The mapping this store holds.
    closed spec fn view(&self) -> Map<Seq<char>, Seq<char>> {
        map_of(self.entries@)
    }
}

impl Store {
    /// Well-formedness: no two entries share a path.
    pub closed spec fn wf(&self) -> bool {
        forall|j: int, k: int| 0 <= j < k < self.entries@.len()
            ==> self.entries@[j].key() != self.entries@[k].key()
    }

    /// An empty store.
    pub fn new() -> (s: Store)
        ensures
            s.wf(),
            s@ == Map::<Seq<char>, Seq<char>>::empty(),
    {
        let s = Store { entries: Vec::new() };
        proof {
            assert(s@ =~= Map::<Seq<char>, Seq<char>>::empty());
        }
        s
    }

    /// The index of the entry for `path`, if one exists.
    fn find(&self, path: &str) -> (r: Option<usize>)
        ensures
            match r {
                Some(i) => i < self.entries@.len() && self.entries@[i as int].key() == path@,
                None => forall|k: int| 0 <= k < self.entries@.len()
                    ==> self.entries@[k].key() != path@,
            },
    {
        let wanted = path.to_owned();
        let n: usize = self.entries.len();
        let mut i: usize = 0;
        while i < n
            invariant
                n == self.entries@.len(),
                i <= n,
                wanted@ == path@,
                forall|k: int| 0 <= k < i ==> self.entries@[k].key() != path@,
            decreases n - i,
        {
            if self.entries[i].path == wanted {
                return Some(i);
            }
            i = i + 1;
        }
        None
    }

    /// Exact-match lookup. Absence is a normal outcome, not a fault: the
    /// result is `Some` exactly when the path is registered, and then carries
    /// the stored target.
    pub fn resolve(&self, path: &str) -> (r: Option<String>)
        requires
            self.wf(),
        ensures
            match r {
                Some(u) => self@.contains_key(path@) && u@ == self@[path@],
                None => !self@.contains_key(path@),
            },
    {
        proof {
            lemma_map_of_contains(self.entries@, path@);
        }
        match self.find(path) {
            Some(i) => {
                proof {
                    lemma_map_of_index(self.entries@, i as int);
                }
                Some(self.entries[i].url.clone())
            },
            None => None,
        }
    }

    /// Bind `path` to `url`, replacing any existing binding.
    fn upsert(&mut self, path: String, url: String)
        requires
            old(self).wf(),
        ensures
            final(self).wf(),
            final(self)@ == old(self)@.insert(path@, url@),
    {
        match self.find(path.as_str()) {
            Some(i) => {
                proof {
                    let e = MappingEntry { path: self.entries@[i as int].path, url };
                    lemma_map_of_update(self.entries@, i as int, e);
                }
                self.entries[i].url = url;
            },
            None => {
                proof {
                    assert(self.entries@.push(MappingEntry { path, url }).drop_last()
                        =~= self.entries@);
                }
                self.entries.push(MappingEntry { path, url });
            },
        }
    }

    /// Create a new entry. Fails with `ConflictError`, leaving the mapping
    /// unchanged, exactly when the path already exists; on success the entry
    /// is immediately visible to subsequent lookups.
    pub fn insert(&mut self, path: String, url: String) -> (r: Result<(), ConflictError>)
        requires
            old(self).wf(),
        ensures
            final(self).wf(),
            match r {
                Ok(_) => !old(self)@.contains_key(path@)
                    && final(self)@ == old(self)@.insert(path@, url@),
                Err(_) => old(self)@.contains_key(path@) && final(self)@ == old(self)@,
            },
    {
        proof {
            lemma_map_of_contains(self.entries@, path@);
        }
        match self.find(path.as_str()) {
            Some(_) => Err(ConflictError),
            None => {
                self.upsert(path, url);
                Ok(())
            },
        }
    }

    /// Rebind an existing path. The outcome is `Updated`, with the new target
    /// immediately visible, exactly when the path exists; otherwise it is
    /// `NotFound` and no entry is created.
    pub fn update(&mut self, path: &str, url: String) -> (r: UpdateOutcome)
        requires
            old(self).wf(),
        ensures
            final(self).wf(),
            match r {
                UpdateOutcome::Updated => old(self)@.contains_key(path@)
                    && final(self)@ == old(self)@.insert(path@, url@),
                UpdateOutcome::NotFound => !old(self)@.contains_key(path@)
                    && final(self)@ == old(self)@,
            },
    {
        proof {
            lemma_map_of_contains(self.entries@, path@);
        }
        match self.find(path) {
            Some(_) => {
                self.upsert(path.to_owned(), url);
                UpdateOutcome::Updated
            },
            None => UpdateOutcome::NotFound,
        }
    }

    /// Build a store from a list of entries; a later entry for the same path
    /// overrides an earlier one.
    pub fn from_entries(entries: &Vec<MappingEntry>) -> (s: Store)
        ensures
            s.wf(),
            s@ == map_of(entries@),
    {
        let n: usize = entries.len();
        let mut s = Store::new();
        let mut i: usize = 0;
        while i < n
            invariant
                n == entries@.len(),
                i <= n,
                s.wf(),
                s@ == map_of(entries@.take(i as int)),
            decreases n - i,
        {
            proof {
                assert(entries@.take(i + 1).drop_last() =~= entries@.take(i as int));
                assert(entries@.take(i + 1).last() == entries@[i as int]);
            }
            let e = &entries[i];
            s.upsert(e.path.clone(), e.url.clone());
            i = i + 1;
        }
        proof {
            assert(entries@.take(n as int) =~= entries@);
        }
        s
    }
}

} // verus!
