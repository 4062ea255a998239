//! A map from names to values that keeps the order in which names were first
//! inserted. The names are held by an `indexmap::IndexSet`, the values beside
//! them in a vector.

use vstd::prelude::*;
use indexmap::IndexSet;
use crate::text::{first_index_of, lemma_first_index_of};

verus! {

/// The names of the entries of `entries`, in order.
pub open spec fn names_of<W>(entries: Seq<(Seq<char>, W)>) -> Seq<Seq<char>> {
    Seq::new(entries.len(), |i: int| entries[i].0)
}

/// `entries` with `value` under `key`: in the place of the entry that has
/// the name `key`, or last where there is none.
pub open spec fn put<W>(entries: Seq<(Seq<char>, W)>, key: Seq<char>, value: W) -> Seq<
    (Seq<char>, W),
> {
    let i = first_index_of(names_of(entries), key);
    if i < entries.len() {
        entries.update(i, (key, value))
    } else {
        entries.push((key, value))
    }
}

/// `indexmap::IndexSet`, of which nothing is known but what the functions
/// below say.
#[verifier::external_type_specification]
#[verifier::external_body]
#[verifier::reject_recursive_types(T)]
#[verifier::reject_recursive_types(S)]
pub struct ExIndexSet<T, S>(IndexSet<T, S>);

/// The names that a set holds, in the order of their insertion.
pub uninterp spec fn names_in(set: IndexSet<String>) -> Seq<Seq<char>>;

/// `IndexSet::new`: a set that holds nothing.
#[verifier::external_body]
fn name_set_new() -> (set: IndexSet<String>)
    ensures
        names_in(set) == Seq::<Seq<char>>::empty(),
{
    IndexSet::new()
}

/// `IndexSet::insert_full`: a name that the set holds already leaves the set
/// as it was and gives the name's position and `false`; any other name is put
/// last and gives its position and `true`.
#[verifier::external_body]
fn name_set_insert_full(set: &mut IndexSet<String>, name: String) -> (r: (usize, bool))
    ensures
        names_in(*old(set)).contains(name@) ==> names_in(*final(set)) == names_in(*old(set))
            && !r.1 && r.0 < names_in(*old(set)).len() && names_in(*old(set))[r.0 as int]
            == name@,
        !names_in(*old(set)).contains(name@) ==> names_in(*final(set)) == names_in(
            *old(set),
        ).push(name@) && r.1 && r.0 == names_in(*old(set)).len(),
{
    set.insert_full(name)
}

/// `IndexSet::get_index_of`: the position of `name`, if the set holds it.
#[verifier::external_body]
fn name_set_get_index_of(set: &IndexSet<String>, name: &str) -> (r: Option<usize>)
    ensures
        match r {
            Some(i) => i < names_in(*set).len() && names_in(*set)[i as int] == name@,
            None => !names_in(*set).contains(name@),
        },
{
    set.get_index_of(name)
}

/// `IndexSet::get_index`: the name at position `i`, if `i` is below the
/// number of names.
#[verifier::external_body]
fn name_set_get_index(set: &IndexSet<String>, i: usize) -> (r: Option<&String>)
    ensures
        match r {
            Some(name) => i < names_in(*set).len() && name@ == names_in(*set)[i as int],
            None => i >= names_in(*set).len(),
        },
{
    set.get_index(i)
}

/// `IndexSet::clone`: a set that holds the same names in the same order.
#[verifier::external_body]
fn name_set_clone(set: &IndexSet<String>) -> (r: IndexSet<String>)
    ensures
        names_in(r) == names_in(*set),
{
    set.clone()
}

/// A map from names to values, in the order in which the names came.
///
/// No name occurs twice. Inserting under a name that is present replaces the
/// value and keeps the name's place.
#[derive(Debug)]
pub struct OrderedMap<V> {
    names: IndexSet<String>,
    values: Vec<V>,
}

impl<V: View> View for OrderedMap<V> {
    type V = Seq<(Seq<char>, V::V)>;

    /// The entries in order, each a name and the view of its value.
    open spec fn view(&self) -> Seq<(Seq<char>, V::V)> {
        Seq::new(self.keys().len(), |i: int| (self.keys()[i], self.values()[i]@))
    }
}

impl<V: Clone> Clone for OrderedMap<V> {
    /// The same names in the same order, each with a clone of its value.
    fn clone(&self) -> (r: Self)
        ensures
            r.keys() == self.keys(),
            r.values().len() == self.values().len(),
            forall|i: int|
                0 <= i < self.values().len() ==> cloned::<V>(
                    #[trigger] self.values()[i],
                    r.values()[i],
                ),
    {
        proof {
            use_type_invariant(self);
        }
        OrderedMap { names: name_set_clone(&self.names), values: self.values.clone() }
    }
}

impl<V: View> OrderedMap<V> {
    /// Stores `value` under `key`, as [`OrderedMap::insert`] does, and drops
    /// what was stored under `key` before.
    pub fn put(&mut self, key: String, value: V)
        ensures
            final(self).wf(),
            names_of(final(self)@) == final(self).keys(),
            names_of(final(self)@).no_duplicates(),
            final(self)@ == put(old(self)@, key@, value@),
    {
        let ghost before = self@;
        let ghost keys0 = self.keys();
        let ghost k = key@;
        let ghost v = value@;
        proof {
            lemma_first_index_of(keys0, k);
        }
        let _ = self.insert(key, value);
        proof {
            assert(names_of(before) =~= keys0);
            assert(names_of(self@) =~= self.keys());
            let i = first_index_of(keys0, k);
            if keys0.contains(k) {
                assert(i < keys0.len());
                assert(self@ =~= before.update(i, (k, v)));
            } else {
                if i < keys0.len() {
                    assert(keys0[i] == k);
                }
                assert(self@ =~= before.push((k, v)));
            }
        }
    }

    /// Tells the verifier what holds of the entries of every map: their
    /// names are the map's names, and no name occurs twice. Does nothing
    /// when the program runs.
    pub fn entries_known(&self)
        ensures
            self.wf(),
            names_of(self@) == self.keys(),
            names_of(self@).no_duplicates(),
            self@.len() == self.keys().len(),
    {
        proof {
            use_type_invariant(self);
            assert(names_of(self@) =~= self.keys());
        }
    }
}

impl<V> OrderedMap<V> {
    #[verifier::type_invariant]
    closed spec fn inv(self) -> bool {
        names_in(self.names).len() == self.values@.len() && names_in(self.names).no_duplicates()
    }

    /// The names, in order.
    pub closed spec fn keys(self) -> Seq<Seq<char>> {
        names_in(self.names)
    }

    /// The values, each at the position of its name.
    pub closed spec fn values(self) -> Seq<V> {
        self.values@
    }

    /// What holds of every map: a value for each name, and no name twice.
    pub open spec fn wf(self) -> bool {
        self.keys().len() == self.values().len() && self.keys().no_duplicates()
    }

    /// The value stored under `key`, where the map holds `key`.
    pub open spec fn value_of(self, key: Seq<char>) -> V {
        self.values()[first_index_of(self.keys(), key)]
    }

    /// A map without entries.
    pub fn new() -> (m: Self)
        ensures
            m.wf(),
            m.keys() == Seq::<Seq<char>>::empty(),
            m.values() == Seq::<V>::empty(),
    {
        OrderedMap { names: name_set_new(), values: Vec::new() }
    }

    /// The number of entries.
    pub fn len(&self) -> (n: usize)
        ensures
            self.wf(),
            n == self.keys().len(),
    {
        proof {
            use_type_invariant(self);
        }
        self.values.len()
    }

    pub fn is_empty(&self) -> (r: bool)
        ensures
            self.wf(),
            r == (self.keys().len() == 0),
    {
        proof {
            use_type_invariant(self);
        }
        self.values.len() == 0
    }

    /// Stores `value` under `key`. A key that is present keeps its place, and
    /// its former value is returned; a new key goes last.
    pub fn insert(&mut self, key: String, value: V) -> (r: Option<V>)
        ensures
            final(self).wf(),
            old(self).wf(),
            old(self).keys().contains(key@) ==> final(self).keys() == old(self).keys()
                && final(self).values() == old(self).values().update(
                first_index_of(old(self).keys(), key@),
                value,
            ) && r == Some(old(self).value_of(key@)),
            !old(self).keys().contains(key@) ==> final(self).keys() == old(self).keys().push(key@)
                && final(self).values() == old(self).values().push(value) && r is None,
    {
        proof {
            use_type_invariant(&*self);
        }
        let mut taken: OrderedMap<V> = OrderedMap::new();
        core::mem::swap(self, &mut taken);
        let OrderedMap { names, values } = taken;
        let mut names = names;
        let mut values = values;
        let ghost keys0 = names_in(names);
        let ghost vals0 = values@;
        proof {
            lemma_first_index_of(keys0, key@);
        }
        let (idx, inserted) = name_set_insert_full(&mut names, key);
        let r = if inserted {
            values.push(value);
            assert(names_in(names).no_duplicates()) by {
                assert forall|i: int, j: int|
                    0 <= i < names_in(names).len() && 0 <= j < names_in(names).len() && i
                        != j implies names_in(names)[i] != names_in(names)[j] by {
                    if i < keys0.len() && j < keys0.len() {
                        assert(keys0[i] != keys0[j]);
                    } else if i < keys0.len() {
                        assert(keys0.contains(keys0[i]));
                    } else {
                        assert(keys0.contains(keys0[j]));
                    }
                }
            }
            None
        } else {
            assert(idx as int == first_index_of(keys0, key@));
            values.push(value);
            let former = values.swap_remove(idx);
            assert(values@ == vals0.update(idx as int, value));
            Some(former)
        };
        *self = OrderedMap { names, values };
        r
    }

    /// The value stored under `key`, if there is one.
    pub fn get(&self, key: &str) -> (r: Option<&V>)
        ensures
            self.wf(),
            match r {
                Some(v) => self.keys().contains(key@) && *v == self.value_of(key@),
                None => !self.keys().contains(key@),
            },
    {
        proof {
            use_type_invariant(self);
            lemma_first_index_of(self.keys(), key@);
        }
        match name_set_get_index_of(&self.names, key) {
            Some(i) => {
                assert(self.keys().contains(key@));
                assert(i as int == first_index_of(self.keys(), key@));
                Some(&self.values[i])
            },
            None => None,
        }
    }

    /// Whether a value is stored under `key`.
    pub fn contains_key(&self, key: &str) -> (r: bool)
        ensures
            self.wf(),
            r == self.keys().contains(key@),
    {
        proof {
            use_type_invariant(self);
        }
        name_set_get_index_of(&self.names, key).is_some()
    }

    /// The entry at position `i`, if `i` is below the number of entries.
    pub fn get_index(&self, i: usize) -> (r: Option<(&String, &V)>)
        ensures
            self.wf(),
            match r {
                Some((k, v)) => i < self.keys().len() && k@ == self.keys()[i as int] && *v
                    == self.values()[i as int],
                None => i >= self.keys().len(),
            },
    {
        proof {
            use_type_invariant(self);
        }
        match name_set_get_index(&self.names, i) {
            Some(name) => Some((name, &self.values[i])),
            None => None,
        }
    }
}

} // verus!
