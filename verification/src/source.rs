//! The mapping-source abstraction: one lookup interface over the two ways a
//! mapping can be held, a pre-loaded read-only set and a mutable store.

use vstd::prelude::*;
use crate::store::{map_of, MappingEntry, Store};

verus! {

/// A supplier of path-to-URL lookups. `mappings` is the association it
/// holds; `resolve` answers exactly according to it.
pub trait MappingSource {
    /// The source's internal consistency condition.
    spec fn inv(&self) -> bool;

    /// The mapping this source holds.
    spec fn mappings(&self) -> Map<Seq<char>, Seq<char>>;

    /// Exact-match, case-sensitive lookup: `Some` with the stored target
    /// exactly when the path is registered. A miss is a normal outcome,
    /// never a fault.
    fn resolve(&self, path: &str) -> (r: Option<String>)
        requires
            self.inv(),
        ensures
            match r {
                Some(u) => self.mappings().contains_key(path@)
                    && u@ == self.mappings()[path@],
                None => !self.mappings().contains_key(path@),
            },
    ;
}

impl MappingSource for Store {
    open spec fn inv(&self) -> bool {
        self.wf()
    }

    open spec fn mappings(&self) -> Map<Seq<char>, Seq<char>> {
        self@
    }

    fn resolve(&self, path: &str) -> (r: Option<String>) {
        Store::resolve(self, path)
    }
}

/// A mapping loaded once at startup and read-only afterwards.
pub struct StaticSource {
    store: Store,
}

impl StaticSource {
    /// Materialize the source from a list of entries; a later entry for the
    /// same path overrides an earlier one.
    pub fn from_entries(entries: &Vec<MappingEntry>) -> (s: StaticSource)
        ensures
            s.inv(),
            s.mappings() == map_of(entries@),
    {
        StaticSource { store: Store::from_entries(entries) }
    }
}

impl MappingSource for StaticSource {
    closed spec fn inv(&self) -> bool {
        self.store.wf()
    }

    closed spec fn mappings(&self) -> Map<Seq<char>, Seq<char>> {
        self.store@
    }

    fn resolve(&self, path: &str) -> (r: Option<String>) {
        self.store.resolve(path)
    }
}

} // verus!
