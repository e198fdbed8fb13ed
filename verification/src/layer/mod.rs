//! Scope-level capabilities: the exportable attribute set, error-chain
//! enrichment, and the static attribute injectors that stamp process-wide
//! metadata onto newly created scopes.

pub mod error;
pub mod kube_env;
pub mod version;

pub use error::ErrorLayer;
pub use kube_env::KubeEnvLayer;
pub use version::VersionLayer;

use vstd::prelude::*;

use crate::json::storage::{
    lemma_lookup_append, lemma_lookup_found, lemma_lookup_none, lemma_lookup_update,
    lookup_entries, keys_of,
};

verus! {

/// The abstract entries of an attribute set: key text paired with value text.
pub type AttrEntries = Seq<(Seq<char>, Seq<char>)>;

/// A scope's exportable attribute set: string keys bound to string values,
/// consumed by the trace exporter. Distinct from the scope's field store.
/// A later write to an existing key overwrites its value.
pub struct AttributeSet {
    items: Vec<(String, String)>,
}

impl AttributeSet {
    /// The abstract entries, in insertion order.
    pub closed spec fn entries(self) -> AttrEntries {
        self.items@.map_values(|e: (String, String)| (e.0@, e.1@))
    }

    /// Keys are unique.
    pub open spec fn wf(self) -> bool {
        forall|i: int, j: int|
            0 <= i < j < self.entries().len() ==> self.entries()[i].0 != self.entries()[j].0
    }

    /// The value bound to `k`, if any.
    pub open spec fn spec_get(self, k: Seq<char>) -> Option<Seq<char>> {
        lookup_entries(self.entries(), k)
    }

    /// An empty attribute set.
    pub fn new() -> (r: Self)
        ensures
            r.wf(),
            r.entries() == Seq::<(Seq<char>, Seq<char>)>::empty(),
    {
        let r = AttributeSet { items: Vec::new() };
        proof {
            assert(r.entries() =~= Seq::<(Seq<char>, Seq<char>)>::empty());
        }
        r
    }

    /// The attributes, in insertion order.
    pub fn attributes(&self) -> (r: &Vec<(String, String)>)
        ensures
            r@.map_values(|e: (String, String)| (e.0@, e.1@)) == self.entries(),
    {
        &self.items
    }

    /// Inserts or overwrites the value bound to `key`.
    pub fn insert(&mut self, key: &str, value: String)
        requires
            old(self).wf(),
        ensures
            final(self).wf(),
            final(self).spec_get(key@) == Some(value@),
            forall|k: Seq<char>| k != key@ ==> final(self).spec_get(k) == old(self).spec_get(k),
            keys_of(final(self).entries()) == if old(self).spec_get(key@) is Some {
                keys_of(old(self).entries())
            } else {
                keys_of(old(self).entries()).push(key@)
            },
    {
        let ghost old_entries = self.entries();
        let owned = key.to_owned();
        let n = self.items.len();
        let mut i: usize = 0;
        while i < n
            invariant
                n == self.items@.len(),
                i <= n,
                owned@ == key@,
                self.wf(),
                old_entries == old(self).entries(),
                self.entries() == old_entries,
                forall|j: int| 0 <= j < i ==> self.entries()[j].0 != key@,
            decreases n - i,
        {
            if self.items[i].0 == owned {
                self.items.remove(i);
                self.items.insert(i, (owned, value));
                proof {
                    assert(self.entries() =~= old_entries.update(i as int, (key@, value@)));
                    lemma_lookup_update(old_entries, i as int, key@, value@);
                    assert(keys_of(self.entries()) =~= keys_of(old_entries));
                    lemma_lookup_found(old_entries, i as int, key@);
                }
                return ;
            }
            i += 1;
        }
        self.items.push((owned, value));
        proof {
            assert(self.entries() =~= old_entries.push((key@, value@)));
            lemma_lookup_append(old_entries, key@, value@);
            assert(keys_of(self.entries()) =~= keys_of(old_entries).push(key@));
            lemma_lookup_none(old_entries, key@);
        }
    }

    /// Applies a batch of writes in order, later writes to the same key
    /// winning.
    pub fn apply(&mut self, writes: &Vec<(String, String)>)
        requires
            old(self).wf(),
        ensures
            final(self).wf(),
            forall|i: int|
                0 <= i < writes@.len() && (forall|j: int|
                    i < j < writes@.len() ==> writes@[j].0@ != writes@[i].0@)
                    ==> final(self).spec_get(writes@[i].0@) == Some(writes@[i].1@),
            forall|k: Seq<char>|
                (forall|i: int| 0 <= i < writes@.len() ==> writes@[i].0@ != k)
                    ==> final(self).spec_get(k) == old(self).spec_get(k),
    {
        let n = writes.len();
        let mut i: usize = 0;
        while i < n
            invariant
                n == writes@.len(),
                i <= n,
                self.wf(),
                forall|ii: int|
                    0 <= ii < i && (forall|j: int| ii < j < i ==> writes@[j].0@ != writes@[ii].0@)
                        ==> self.spec_get(writes@[ii].0@) == Some(writes@[ii].1@),
                forall|k: Seq<char>|
                    (forall|ii: int| 0 <= ii < i ==> writes@[ii].0@ != k) ==> self.spec_get(k)
                        == old(self).spec_get(k),
            decreases n - i,
        {
            self.insert(writes[i].0.as_str(), writes[i].1.clone());
            i += 1;
        }
    }

    /// The value bound to `key`, if any.
    pub fn get(&self, key: &str) -> (r: Option<&String>)
        ensures
            match r {
                Some(v) => self.spec_get(key@) == Some(v@),
                None => self.spec_get(key@) is None,
            },
    {
        let n = self.items.len();
        let mut i: usize = 0;
        proof {
            assert(self.entries().skip(0) =~= self.entries());
        }
        while i < n
            invariant
                n == self.items@.len(),
                i <= n,
                lookup_entries(self.entries(), key@) == lookup_entries(
                    self.entries().skip(i as int),
                    key@,
                ),
            decreases n - i,
        {
            proof {
                assert(self.entries().skip(i as int)[0] == self.entries()[i as int]);
                assert(self.entries().skip(i as int).drop_first() =~= self.entries().skip(
                    i as int + 1,
                ));
            }
            if crate::text::str_eq(self.items[i].0.as_str(), key) {
                return Some(&self.items[i].1);
            }
            i += 1;
        }
        proof {
            assert(self.entries().skip(n as int) =~= Seq::<(Seq<char>, Seq<char>)>::empty());
        }
        None
    }
}

/// An optional attribute: one entry when the value is present, none when it
/// is absent — an absent value is never written as an empty string.
pub open spec fn opt_attr(k: Seq<char>, o: Option<String>) -> AttrEntries {
    match o {
        Some(v) => seq![(k, v@)],
        None => Seq::empty(),
    }
}

} // verus!
