//! The catalog: an ordered list of entries, each with a canonical name and
//! its supported forms. The position of an entry defines its 1-based id,
//! which the generation table ranges refer to.

use crate::text::{seq_views, str_eq};
use vstd::prelude::*;

verus! {

/// One catalog record: a canonical name and its ordered list of forms.
/// The literal form "regular" is a sentinel meaning "no suffix".
#[derive(Debug, Clone)]
pub struct CatalogEntry {
    pub name: String,
    pub forms: Vec<String>,
}

/// The ordered list of catalog entries; the entry at position `i` has the
/// 1-based id `i + 1`.
#[derive(Debug, Clone)]
pub struct Catalog {
    pub entries: Vec<CatalogEntry>,
}

/// The first index whose element equals `key`, or -1 if there is none.
pub open spec fn spec_find(keys: Seq<Seq<char>>, key: Seq<char>) -> int
    decreases keys.len(),
{
    if keys.len() == 0 {
        -1
    } else {
        let front = spec_find(keys.drop_last(), key);
        if front >= 0 {
            front
        } else if keys.last() == key {
            keys.len() - 1
        } else {
            -1
        }
    }
}

/// `spec_find` returns -1 exactly when the key is absent, and otherwise
/// the position of the first occurrence.
pub proof fn lemma_spec_find(keys: Seq<Seq<char>>, key: Seq<char>)
    ensures
        -1 <= spec_find(keys, key) < keys.len(),
        spec_find(keys, key) >= 0 ==> keys[spec_find(keys, key)] == key && forall|j: int|
            0 <= j < spec_find(keys, key) ==> keys[j] != key,
        spec_find(keys, key) == -1 ==> forall|j: int| 0 <= j < keys.len() ==> keys[j] != key,
    decreases keys.len(),
{
    if keys.len() > 0 {
        lemma_spec_find(keys.drop_last(), key);
        assert(forall|j: int| 0 <= j < keys.len() - 1 ==> keys[j] == keys.drop_last()[j]);
    }
}

impl Catalog {
    /// The views of the canonical names, in catalog order.
    pub open spec fn names(&self) -> Seq<Seq<char>> {
        Seq::new(self.entries@.len(), |i: int| self.entries@[i].name@)
    }

    /// Wraps an ordered list of entries as a catalog.
    pub fn new(entries: Vec<CatalogEntry>) -> (r: Catalog)
        ensures
            r.entries@ == entries@,
    {
        Catalog { entries }
    }

    /// How many entries the catalog holds.
    pub fn len(&self) -> (r: usize)
        ensures
            r == self.entries@.len(),
    {
        self.entries.len()
    }

    /// The position of the first entry named `name`, if any.
    pub fn find(&self, name: &str) -> (r: Option<usize>)
        ensures
            match r {
                Some(i) => i == spec_find(self.names(), name@) && i < self.entries@.len()
                    && self.entries@[i as int].name@ == name@,
                None => spec_find(self.names(), name@) == -1 && !self.names().contains(name@),
            },
    {
        proof {
            lemma_spec_find(self.names(), name@);
        }
        let n = self.entries.len();
        let mut found: Option<usize> = None;
        let mut i: usize = 0;
        while i < n
            invariant
                i <= n,
                n == self.entries@.len(),
                match found {
                    Some(k) => k == spec_find(self.names().take(i as int), name@),
                    None => spec_find(self.names().take(i as int), name@) == -1,
                },
            decreases n - i,
        {
            proof {
                assert(self.names().take(i + 1).drop_last() =~= self.names().take(i as int));
                assert(self.names().take(i + 1).last() == self.entries@[i as int].name@);
            }
            if found.is_none() && str_eq(self.entries[i].name.as_str(), name) {
                found = Some(i);
            }
            i += 1;
        }
        proof {
            assert(self.names().take(n as int) =~= self.names());
            if spec_find(self.names(), name@) == -1 {
                assert(!self.names().contains(name@)) by {
                    lemma_spec_find(self.names(), name@);
                }
            }
        }
        found
    }

    /// Whether some entry is named `name`.
    pub fn contains_name(&self, name: &str) -> (r: bool)
        ensures
            r == self.names().contains(name@),
    {
        proof {
            lemma_spec_find(self.names(), name@);
            if spec_find(self.names(), name@) >= 0 {
                assert(self.names().contains(name@));
            }
        }
        self.find(name).is_some()
    }

    /// Every canonical name, one per element, in catalog order.
    pub fn list_names(&self) -> (r: Vec<String>)
        ensures
            seq_views(r@) =~~= self.names(),
            r@.len() == self.entries@.len(),
    {
        let n = self.entries.len();
        let mut out: Vec<String> = Vec::new();
        let mut i: usize = 0;
        while i < n
            invariant
                i <= n,
                n == self.entries@.len(),
                out@.len() == i,
                forall|j: int| 0 <= j < i ==> out@[j]@ == self.entries@[j].name@,
            decreases n - i,
        {
            out.push(self.entries[i].name.clone());
            i += 1;
        }
        out
    }
}

} // verus!
