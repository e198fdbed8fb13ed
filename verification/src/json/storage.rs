//! The per-scope field store: named values recorded incrementally, with
//! last-write-wins semantics, and typed read access.

use vstd::prelude::*;
use vstd::string::StringExecFns;

use crate::json::value::{Value, ValueV};

verus! {

/// The abstract entries of a store: key text paired with the abstract value.
pub type StoreEntries = Seq<(Seq<char>, ValueV)>;

/// The value bound to `k`, scanning entries front to back.
pub open spec fn lookup_entries<V>(es: Seq<(Seq<char>, V)>, k: Seq<char>) -> Option<V>
    decreases es.len(),
{
    if es.len() == 0 {
        None
    } else if es[0].0 == k {
        Some(es[0].1)
    } else {
        lookup_entries(es.drop_first(), k)
    }
}

/// The keys of the entries, in order.
pub open spec fn keys_of<V>(es: Seq<(Seq<char>, V)>) -> Seq<Seq<char>> {
    es.map_values(|e: (Seq<char>, V)| e.0)
}

/// A store of named field values. Keys are unique; a later write to an
/// existing key replaces its value in place.
pub struct PrimaJsonVisitor {
    items: Vec<(String, Value)>,
}

/// Shape-directed conversion out of a stored `Value`, used by the typed
/// accessor [`PrimaJsonVisitor::get`].
pub trait FromValue: Sized {
    /// Whether a stored value has the shape this type reads.
    spec fn spec_matches(v: ValueV) -> bool;

    /// How a produced result relates to the stored value it was read from.
    spec fn spec_rel(v: ValueV, r: Self) -> bool;

    /// Reads the value if its shape matches, and yields nothing otherwise.
    fn from_value(value: &Value) -> (r: Option<Self>)
        ensures
            r.is_some() == Self::spec_matches(value.view_v()),
            r matches Some(x) ==> Self::spec_rel(value.view_v(), x),
    ;
}

/// A string-shaped read: both natively recorded strings and fallback
/// debug text match, and the result carries the exact stored text.
impl FromValue for String {
    open spec fn spec_matches(v: ValueV) -> bool {
        v.as_text() is Some
    }

    open spec fn spec_rel(v: ValueV, r: Self) -> bool {
        v.as_text() == Some(r@)
    }

    fn from_value(value: &Value) -> (r: Option<Self>)
        ensures
            r.is_some() == Self::spec_matches(value.view_v()),
            r matches Some(x) ==> Self::spec_rel(value.view_v(), x),
    {
        match value {
            Value::Str(s) => Some(s.clone()),
            Value::Fallback(s) => Some(s.clone()),
            _ => None,
        }
    }
}

/// A number-shaped read: non-negative integers yield their low 32 bits.
impl FromValue for u32 {
    open spec fn spec_matches(v: ValueV) -> bool {
        v.as_u32() is Some
    }

    open spec fn spec_rel(v: ValueV, r: Self) -> bool {
        v.as_u32() == Some(r as int)
    }

    fn from_value(value: &Value) -> (r: Option<Self>)
        ensures
            r.is_some() == Self::spec_matches(value.view_v()),
            r matches Some(x) ==> Self::spec_rel(value.view_v(), x),
    {
        match value {
            Value::I64(i) => {
                if *i >= 0 {
                    Some((*i % 0x1_0000_0000) as u32)
                } else {
                    None
                }
            },
            Value::U64(u) => Some((*u % 0x1_0000_0000) as u32),
            _ => None,
        }
    }
}

impl PrimaJsonVisitor {
    /// The abstract entries, in storage order.
    pub closed spec fn entries(self) -> StoreEntries {
        self.items@.map_values(|e: (String, Value)| (e.0@, e.1.view_v()))
    }

    /// Keys are unique.
    pub open spec fn wf(self) -> bool {
        forall|i: int, j: int|
            0 <= i < j < self.entries().len() ==> self.entries()[i].0 != self.entries()[j].0
    }

    /// The value bound to `k`, if any.
    pub open spec fn spec_get(self, k: Seq<char>) -> Option<ValueV> {
        lookup_entries(self.entries(), k)
    }

    /// An empty store.
    pub fn new() -> (r: Self)
        ensures
            r.wf(),
            r.entries() == Seq::<(Seq<char>, ValueV)>::empty(),
    {
        let r = PrimaJsonVisitor { items: Vec::new() };
        proof {
            assert(r.entries() =~= Seq::<(Seq<char>, ValueV)>::empty());
        }
        r
    }

    /// The recorded entries, in storage order.
    pub fn fields(&self) -> (r: &Vec<(String, Value)>)
        ensures
            r@.map_values(|e: (String, Value)| (e.0@, e.1.view_v())) == self.entries(),
    {
        &self.items
    }

    /// Inserts or overwrites the value bound to `name`.
    pub fn record_value(&mut self, name: &str, value: Value)
        requires
            old(self).wf(),
        ensures
            final(self).wf(),
            final(self).spec_get(name@) == Some(value.view_v()),
            forall|k: Seq<char>| k != name@ ==> final(self).spec_get(k) == old(self).spec_get(k),
            keys_of(final(self).entries()) == if old(self).spec_get(name@) is Some {
                keys_of(old(self).entries())
            } else {
                keys_of(old(self).entries()).push(name@)
            },
    {
        let ghost old_entries = self.entries();
        let key = name.to_owned();
        let n = self.items.len();
        let mut i: usize = 0;
        while i < n
            invariant
                n == self.items@.len(),
                i <= n,
                key@ == name@,
                self.wf(),
                old_entries == old(self).entries(),
                self.entries() == old_entries,
                forall|j: int| 0 <= j < i ==> self.entries()[j].0 != name@,
            decreases n - i,
        {
            if self.items[i].0 == key {
                self.items.remove(i);
                self.items.insert(i, (key, value));
                proof {
                    assert(self.entries() =~= old_entries.update(
                        i as int,
                        (name@, value.view_v()),
                    ));
                    lemma_lookup_update(old_entries, i as int, name@, value.view_v());
                    assert(keys_of(self.entries()) =~= keys_of(old_entries));
                    lemma_lookup_found(old_entries, i as int, name@);
                }
                return ;
            }
            i += 1;
        }
        self.items.push((key, value));
        proof {
            assert(self.entries() =~= old_entries.push((name@, value.view_v())));
            lemma_lookup_append(old_entries, name@, value.view_v());
            assert(keys_of(self.entries()) =~= keys_of(old_entries).push(name@));
            lemma_lookup_none(old_entries, name@);
        }
    }

    /// Records a signed integer field.
    pub fn record_i64(&mut self, name: &str, value: i64)
        requires
            old(self).wf(),
        ensures
            final(self).wf(),
            final(self).spec_get(name@) == Some(ValueV::I64(value as int)),
            forall|k: Seq<char>| k != name@ ==> final(self).spec_get(k) == old(self).spec_get(k),
    {
        self.record_value(name, Value::I64(value));
    }

    /// Records an unsigned integer field.
    pub fn record_u64(&mut self, name: &str, value: u64)
        requires
            old(self).wf(),
        ensures
            final(self).wf(),
            final(self).spec_get(name@) == Some(ValueV::U64(value as int)),
            forall|k: Seq<char>| k != name@ ==> final(self).spec_get(k) == old(self).spec_get(k),
    {
        self.record_value(name, Value::U64(value));
    }

    /// Records a boolean field.
    pub fn record_bool(&mut self, name: &str, value: bool)
        requires
            old(self).wf(),
        ensures
            final(self).wf(),
            final(self).spec_get(name@) == Some(ValueV::Bool(value)),
            forall|k: Seq<char>| k != name@ ==> final(self).spec_get(k) == old(self).spec_get(k),
    {
        self.record_value(name, Value::Bool(value));
    }

    /// Records a string field.
    pub fn record_str(&mut self, name: &str, value: &str)
        requires
            old(self).wf(),
        ensures
            final(self).wf(),
            final(self).spec_get(name@) == Some(ValueV::Str(value@)),
            forall|k: Seq<char>| k != name@ ==> final(self).spec_get(k) == old(self).spec_get(k),
    {
        self.record_value(name, Value::Str(value.to_owned()));
    }

    /// Records a field through its debug description: the text is kept as the
    /// fallback string variant.
    pub fn record_debug(&mut self, name: &str, value: &str)
        requires
            old(self).wf(),
        ensures
            final(self).wf(),
            final(self).spec_get(name@) == Some(ValueV::Fallback(value@)),
            forall|k: Seq<char>| k != name@ ==> final(self).spec_get(k) == old(self).spec_get(k),
    {
        self.record_value(name, Value::Fallback(value.to_owned()));
    }

    /// The stored value bound to `field`, if any.
    pub fn get_value(&self, field: &str) -> (r: Option<&Value>)
        ensures
            match r {
                Some(v) => self.spec_get(field@) == Some(v.view_v()),
                None => self.spec_get(field@) is None,
            },
    {
        let n = self.items.len();
        let mut i: usize = 0;
        proof {
            assert(self.entries().skip(0) =~= self.entries());
        }
        while i < n
            invariant
                n == self.items@.len(),
                i <= n,
                lookup_entries(self.entries(), field@) == lookup_entries(
                    self.entries().skip(i as int),
                    field@,
                ),
            decreases n - i,
        {
            proof {
                assert(self.entries().skip(i as int)[0] == self.entries()[i as int]);
                assert(self.entries().skip(i as int).drop_first() =~= self.entries().skip(
                    i as int + 1,
                ));
            }
            if crate::text::str_eq(self.items[i].0.as_str(), field) {
                return Some(&self.items[i].1);
            }
            i += 1;
        }
        proof {
            assert(self.entries().skip(n as int) =~= Seq::<(Seq<char>, ValueV)>::empty());
        }
        None
    }

    /// Typed access: yields the value bound to `field` only when its stored
    /// shape matches the requested type; a mismatch yields nothing.
    pub fn get<T: FromValue>(&self, field: &str) -> (r: Option<T>)
        ensures
            r.is_some() == (self.spec_get(field@) matches Some(v) && T::spec_matches(v)),
            r matches Some(x) ==> T::spec_rel(self.spec_get(field@)->Some_0, x),
    {
        match self.get_value(field) {
            Some(v) => T::from_value(v),
            None => None,
        }
    }
}

impl Default for PrimaJsonVisitor {
    /// An empty store.
    fn default() -> (r: Self)
        ensures
            r.wf(),
            r.entries() == Seq::<(Seq<char>, ValueV)>::empty(),
    {
        PrimaJsonVisitor::new()
    }
}

/// Scanning past a head entry whose key differs.
pub(crate) proof fn lemma_lookup_step<V>(es: Seq<(Seq<char>, V)>, k: Seq<char>)
    requires
        es.len() > 0,
        es[0].0 != k,
    ensures
        lookup_entries(es, k) == lookup_entries(es.drop_first(), k),
{
}

/// Replacing the value at a matched position changes only that key's binding.
pub(crate) proof fn lemma_lookup_update<V>(es: Seq<(Seq<char>, V)>, i: int, k: Seq<char>, v: V)
    requires
        0 <= i < es.len(),
        es[i].0 == k,
        forall|j: int| 0 <= j < i ==> es[j].0 != k,
    ensures
        lookup_entries(es.update(i, (k, v)), k) == Some(v),
        forall|k2: Seq<char>|
            k2 != k ==> lookup_entries(es.update(i, (k, v)), k2) == lookup_entries(es, k2),
    decreases es.len(),
{
    let es2 = es.update(i, (k, v));
    if i == 0 {
        assert(es2[0] == (k, v));
        assert(lookup_entries(es2, k) == Some(v));
        assert forall|k2: Seq<char>| k2 != k implies lookup_entries(es2, k2) == lookup_entries(
            es,
            k2,
        ) by {
            assert(es2.drop_first() =~= es.drop_first());
            lemma_lookup_step(es2, k2);
            lemma_lookup_step(es, k2);
        }
    } else {
        assert(es2.drop_first() =~= es.drop_first().update(i - 1, (k, v)));
        assert(es.drop_first()[i - 1].0 == k);
        lemma_lookup_update(es.drop_first(), i - 1, k, v);
        assert(es2[0] == es[0]);
        assert(es2[0].0 != k);
        lemma_lookup_step(es2, k);
        lemma_lookup_step(es, k);
        assert(lookup_entries(es2, k) == Some(v));
        assert forall|k2: Seq<char>| k2 != k implies lookup_entries(es2, k2) == lookup_entries(
            es,
            k2,
        ) by {
            if es2[0].0 == k2 {
            } else {
                lemma_lookup_step(es2, k2);
                lemma_lookup_step(es, k2);
            }
        }
    }
}

/// A matched position with no earlier match is what lookup resolves to.
pub(crate) proof fn lemma_lookup_found<V>(es: Seq<(Seq<char>, V)>, i: int, k: Seq<char>)
    requires
        0 <= i < es.len(),
        es[i].0 == k,
        forall|j: int| 0 <= j < i ==> es[j].0 != k,
    ensures
        lookup_entries(es, k) == Some(es[i].1),
    decreases es.len(),
{
    if i > 0 {
        lemma_lookup_found(es.drop_first(), i - 1, k);
    }
}

/// Appending a fresh entry binds its key and leaves the others alone.
pub(crate) proof fn lemma_lookup_append<V>(es: Seq<(Seq<char>, V)>, k: Seq<char>, v: V)
    requires
        forall|j: int| 0 <= j < es.len() ==> es[j].0 != k,
    ensures
        lookup_entries(es.push((k, v)), k) == Some(v),
        forall|k2: Seq<char>|
            k2 != k ==> lookup_entries(es.push((k, v)), k2) == lookup_entries(es, k2),
    decreases es.len(),
{
    let es2 = es.push((k, v));
    if es.len() == 0 {
        assert(es2[0] == (k, v));
        assert(lookup_entries(es2, k) == Some(v));
        assert forall|k2: Seq<char>| k2 != k implies lookup_entries(es2, k2) == lookup_entries(
            es,
            k2,
        ) by {
            assert(es2.drop_first() =~= Seq::<(Seq<char>, V)>::empty());
            lemma_lookup_step(es2, k2);
        }
    } else {
        assert(es2.drop_first() =~= es.drop_first().push((k, v)));
        lemma_lookup_append(es.drop_first(), k, v);
        assert(es2[0] == es[0]);
        assert(es2[0].0 != k);
        lemma_lookup_step(es2, k);
        lemma_lookup_step(es, k);
        assert(lookup_entries(es2, k) == Some(v));
        assert forall|k2: Seq<char>| k2 != k implies lookup_entries(es2, k2) == lookup_entries(
            es,
            k2,
        ) by {
            if es2[0].0 == k2 {
            } else {
                lemma_lookup_step(es2, k2);
                lemma_lookup_step(es, k2);
            }
        }
    }
}

/// A key absent from every position resolves to nothing.
pub(crate) proof fn lemma_lookup_none<V>(es: Seq<(Seq<char>, V)>, k: Seq<char>)
    requires
        forall|j: int| 0 <= j < es.len() ==> es[j].0 != k,
    ensures
        lookup_entries(es, k) is None,
    decreases es.len(),
{
    if es.len() > 0 {
        lemma_lookup_none(es.drop_first(), k);
    }
}

/// The storage capability: it owns no state of its own; it maintains one
/// [`PrimaJsonVisitor`] store per scope, merging every batch of recorded
/// values into that store.
pub struct PrimaJsonStorage;

impl PrimaJsonStorage {
    /// Merges a batch of recorded values into a scope's store, in order.
    pub fn apply_record(store: &mut PrimaJsonVisitor, values: &Vec<(String, Value)>)
        requires
            old(store).wf(),
        ensures
            final(store).wf(),
            forall|i: int|
                0 <= i < values@.len() && (forall|j: int|
                    i < j < values@.len() ==> values@[j].0@ != values@[i].0@)
                    ==> final(store).spec_get(values@[i].0@) == Some(values@[i].1.view_v()),
            forall|k: Seq<char>|
                (forall|i: int| 0 <= i < values@.len() ==> values@[i].0@ != k)
                    ==> final(store).spec_get(k) == old(store).spec_get(k),
    {
        let n = values.len();
        let mut i: usize = 0;
        while i < n
            invariant
                n == values@.len(),
                i <= n,
                store.wf(),
                forall|ii: int|
                    0 <= ii < i && (forall|j: int| ii < j < i ==> values@[j].0@ != values@[ii].0@)
                        ==> store.spec_get(values@[ii].0@) == Some(values@[ii].1.view_v()),
                forall|k: Seq<char>|
                    (forall|ii: int| 0 <= ii < i ==> values@[ii].0@ != k) ==> store.spec_get(k)
                        == old(store).spec_get(k),
            decreases n - i,
        {
            store.record_value(values[i].0.as_str(), values[i].1.dup());
            i += 1;
        }
    }
}

/// A bound key is bound at some position.
pub proof fn lemma_lookup_index<V>(es: Seq<(Seq<char>, V)>, k: Seq<char>)
    requires
        lookup_entries(es, k) is Some,
    ensures
        exists|i: int| 0 <= i < es.len() && #[trigger] es[i] == (k, lookup_entries(es, k)->0),
    decreases es.len(),
{
    if es.len() == 0 {
    } else if es[0].0 == k {
        assert(es[0] == (k, lookup_entries(es, k)->0));
    } else {
        lemma_lookup_index(es.drop_first(), k);
        let i0 = choose|i: int|
            0 <= i < es.drop_first().len() && #[trigger] es.drop_first()[i] == (
                k,
                lookup_entries(es.drop_first(), k)->0,
            );
        assert(es[i0 + 1] == es.drop_first()[i0]);
    }
}

/// Builds a [`PrimaJsonStorage`] capability.
pub fn layer() -> PrimaJsonStorage {
    PrimaJsonStorage
}

} // verus!
