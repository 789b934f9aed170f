//! A map whose entries can be found by a main key and by two further keys.
use std::collections::HashMap;
use std::hash::{Hash, Hasher};
use std::sync::Arc;
use vstd::prelude::*;
use vstd::std_specs::hash::obeys_key_model;
use vstd::std_specs::iter::IteratorSpec;

verus! {

/// Whether a type can be a key: its hash and its equality fit together, and its clones are equal
/// to what they were cloned from.
pub open spec fn key_like<K: Clone>() -> bool {
    &&& obeys_key_model::<K>()
    &&& forall|a: K, b: K| #[trigger] call_ensures(K::clone, (&a,), b) ==> a == b
}

/// Entries under a main key, with two indices by a first and a second further key.
pub struct TripleHashMap<KM, K1, K2, V> where
    KM: Hash + Eq + Clone,
    K1: Hash + Eq + Clone,
    K2: Hash + Eq + Clone,
 {
    map: HashMap<KM, (Option<(K1, K2)>, V)>,
    map_one: HashMap<K1, KM>,
    map_two: HashMap<K2, KM>,
}

/// The contents of a [`TripleHashMap`].
#[verifier::ext_equal]
#[verifier::reject_recursive_types(KM)]
#[verifier::reject_recursive_types(K1)]
#[verifier::reject_recursive_types(K2)]
pub struct TripleView<KM, K1, K2, V> {
    /// Each main key with the further keys it was given, and its value.
    pub entries: Map<KM, (Option<(K1, K2)>, V)>,
    /// The index by the first further key.
    pub one: Map<K1, KM>,
    /// The index by the second further key.
    pub two: Map<K2, KM>,
}

impl<KM, K1, K2, V> TripleView<KM, K1, K2, V> {
    /// The entry that an index leads to, if it leads anywhere.
    pub open spec fn follow<K>(self, index: Map<K, KM>, key: K) -> Option<(KM, V)> {
        if index.contains_key(key) && self.entries.contains_key(index[key]) {
            Some((index[key], self.entries[index[key]].1))
        } else {
            None
        }
    }

    /// Whether no entry has further keys and nothing is indexed.
    pub open spec fn unindexed(self) -> bool {
        &&& forall|k: KM| #[trigger] self.entries.contains_key(k) ==> self.entries[k].0 is None
        &&& self.one == Map::<K1, KM>::empty()
        &&& self.two == Map::<K2, KM>::empty()
    }

    /// After a value was put under a main key, without further keys.
    pub open spec fn inserted(self, k: KM, v: V) -> Self {
        TripleView { entries: self.entries.insert(k, (None, v)), ..self }
    }

    /// After an entry was given other further keys; an entry that has none yet keeps none.
    pub open spec fn rekeyed(self, k: KM, k1: K1, k2: K2) -> Self {
        if self.entries.contains_key(k) && self.entries[k].0 is Some {
            TripleView {
                entries: self.entries.insert(k, (Some((k1, k2)), self.entries[k].1)),
                one: self.one.insert(k1, k),
                two: self.two.insert(k2, k),
            }
        } else {
            self
        }
    }

    /// After an entry lost its further keys.
    pub open spec fn unkeyed(self, k: KM) -> Self {
        if self.entries.contains_key(k) {
            match self.entries[k].0 {
                Some((k1, k2)) => TripleView {
                    entries: self.entries.insert(k, (None, self.entries[k].1)),
                    one: self.one.remove(k1),
                    two: self.two.remove(k2),
                },
                None => self,
            }
        } else {
            self
        }
    }
}

impl<KM, K1, K2, V> View for TripleHashMap<KM, K1, K2, V> where
    KM: Hash + Eq + Clone,
    K1: Hash + Eq + Clone,
    K2: Hash + Eq + Clone,
 {
    type V = TripleView<KM, K1, K2, V>;

    closed spec fn view(&self) -> TripleView<KM, K1, K2, V> {
        TripleView { entries: self.map@, one: self.map_one@, two: self.map_two@ }
    }
}

impl<KM, K1, K2, V> TripleHashMap<KM, K1, K2, V> where
    KM: Hash + Eq + Clone,
    K1: Hash + Eq + Clone,
    K2: Hash + Eq + Clone,
 {
    /// Whether all three key types can be keys.
    pub open spec fn keys_ok() -> bool {
        key_like::<KM>() && key_like::<K1>() && key_like::<K2>()
    }

    /// An empty map.
    pub fn new() -> (r: Self)
        ensures
            r@ == (TripleView::<KM, K1, K2, V> {
                entries: Map::empty(),
                one: Map::empty(),
                two: Map::empty(),
            }),
    {
        TripleHashMap { map: HashMap::new(), map_one: HashMap::new(), map_two: HashMap::new() }
    }

    /// The value under a main key.
    pub fn get(&self, key: &KM) -> (r: Option<&V>)
        ensures
            Self::keys_ok() ==> match r {
                Some(v) => self@.entries.contains_key(*key) && *v == self@.entries[*key].1,
                None => !self@.entries.contains_key(*key),
            },
    {
        match self.map.get(key) {
            Some((_, v)) => Some(v),
            None => None,
        }
    }

    /// The further keys that the entry under a main key was given.
    pub fn get_keys(&self, key: &KM) -> (r: Option<&(K1, K2)>)
        ensures
            Self::keys_ok() ==> match r {
                Some(keys) => self@.entries.contains_key(*key) && self@.entries[*key].0 == Some(
                    *keys,
                ),
                None => self@.entries.contains_key(*key) ==> self@.entries[*key].0 is None,
            },
    {
        match self.map.get(key) {
            Some((Some(keys), _)) => Some(keys),
            _ => None,
        }
    }

    /// The entry that a first further key leads to.
    pub fn get_k1(&self, key: &K1) -> (r: Option<(&KM, &V)>)
        ensures
            Self::keys_ok() ==> match r {
                Some((k, v)) => self@.follow(self@.one, *key) == Some((*k, *v)),
                None => self@.follow(self@.one, *key) is None,
            },
    {
        match self.map_one.get(key) {
            Some(k) => match self.map.get(k) {
                Some((_, v)) => Some((k, v)),
                None => None,
            },
            None => None,
        }
    }

    /// The entry that a second further key leads to.
    pub fn get_k2(&self, key: &K2) -> (r: Option<(&KM, &V)>)
        ensures
            Self::keys_ok() ==> match r {
                Some((k, v)) => self@.follow(self@.two, *key) == Some((*k, *v)),
                None => self@.follow(self@.two, *key) is None,
            },
    {
        match self.map_two.get(key) {
            Some(k) => match self.map.get(k) {
                Some((_, v)) => Some((k, v)),
                None => None,
            },
            None => None,
        }
    }

    /// All main keys with their values, each exactly once. In which order is left open.
    pub fn iter(&self) -> (r: Vec<(&KM, &V)>)
        requires
            Self::keys_ok(),
        ensures
            forall|i: int|
                0 <= i < r@.len() ==> self@.entries.contains_key(*(#[trigger] r@[i]).0)
                    && self@.entries[*r@[i].0].1 == *r@[i].1,
            forall|i: int, j: int|
                0 <= i < j < r@.len() ==> *(#[trigger] r@[i]).0 != *(#[trigger] r@[j]).0,
            forall|k: KM| #[trigger]
                self@.entries.contains_key(k) ==> exists|i: int|
                    0 <= i < r@.len() && *(#[trigger] r@[i]).0 == k,
    {
        let mut r: Vec<(&KM, &V)> = Vec::new();
        let ghost walked = self.map.iter().remaining();
        for entry in it: self.map.iter()
            invariant
                Self::keys_ok(),
                it.seq() == walked,
                r@.len() == it.index(),
                forall|i: int|
                    0 <= i < r@.len() ==> *(#[trigger] r@[i]).0 == *walked[i].0 && *r@[i].1
                        == walked[i].1.1,
        {
            r.push((entry.0, &entry.1.1));
        }
        proof {
            assert forall|i: int, j: int| 0 <= i < j < r@.len() implies *(#[trigger] r@[i]).0 != *(
            #[trigger] r@[j]).0 by {
                assert(self.map@[*walked[i].0] == *walked[i].1);
                assert(self.map@[*walked[j].0] == *walked[j].1);
                assert(walked[i] != walked[j]);
            }
            assert forall|k: KM| #[trigger] self@.entries.contains_key(k) implies exists|i: int|
                0 <= i < r@.len() && *(#[trigger] r@[i]).0 == k by {
                assert(walked.contains((&k, &self.map@[k])));
                let i = choose|i: int| 0 <= i < walked.len() && walked[i] == (&k, &self.map@[k]);
                assert(*r@[i].0 == k);
            }
        }
        r
    }

    /// Puts a value under a main key. The entry starts out without further keys; what an earlier
    /// entry under the key had indexed stays indexed.
    pub fn insert(&mut self, k: KM, v: V)
        ensures
            Self::keys_ok() ==> final(self)@ == old(self)@.inserted(k, v),
    {
        self.map.insert(k, (None, v));
    }

    /// Gives an entry that has further keys two others, and indexes it by them. An entry without
    /// further keys stays as it is.
    pub fn add_k1_k2(&mut self, k: KM, k1: K1, k2: K2)
        ensures
            Self::keys_ok() ==> final(self)@ == old(self)@.rekeyed(k, k1, k2),
    {
        if let Some((keys, v)) = self.map.remove(&k) {
            match keys {
                Some(_) => {
                    self.map.insert(k.clone(), (Some((k1.clone(), k2.clone())), v));
                    self.map_one.insert(k1, k.clone());
                    self.map_two.insert(k2, k);
                },
                None => {
                    self.map.insert(k, (None, v));
                },
            }
        }
        proof {
            if Self::keys_ok() {
                assert(self@ =~= old(self)@.rekeyed(k, k1, k2));
            }
        }
    }

    /// Takes the further keys of an entry away, and takes them out of the indices.
    pub fn sub_k1_k2(&mut self, k: &KM)
        ensures
            Self::keys_ok() ==> final(self)@ == old(self)@.unkeyed(*k),
    {
        if let Some((keys, v)) = self.map.remove(k) {
            if let Some((k1, k2)) = keys {
                self.map_one.remove(&k1);
                self.map_two.remove(&k2);
            }
            self.map.insert(k.clone(), (None, v));
        }
        proof {
            if Self::keys_ok() {
                assert(self@ =~= old(self)@.unkeyed(*k));
            }
        }
    }
}

/// A map that nothing is indexed in keeps nothing indexed, whatever is asked of it. As a map
/// starts out that way, only the main key ever finds anything.
pub proof fn law_stays_unindexed<KM, K1, K2, V>(
    m: TripleView<KM, K1, K2, V>,
    k: KM,
    v: V,
    k1: K1,
    k2: K2,
)
    requires
        m.unindexed(),
    ensures
        m.inserted(k, v).unindexed(),
        m.rekeyed(k, k1, k2).unindexed(),
        m.unkeyed(k).unindexed(),
        m.follow(m.one, k1) is None,
        m.follow(m.two, k2) is None,
{
}

/// Giving an entry other further keys makes them lead to it, and taking them away again leaves
/// neither of them leading anywhere.
pub proof fn law_rekeyed_then_unkeyed<KM, K1, K2, V>(
    m: TripleView<KM, K1, K2, V>,
    k: KM,
    k1: K1,
    k2: K2,
)
    requires
        m.entries.contains_key(k),
        m.entries[k].0 is Some,
    ensures
        ({
            let keyed = m.rekeyed(k, k1, k2);
            let cleared = keyed.unkeyed(k);
            &&& keyed.follow(keyed.one, k1) == Some((k, m.entries[k].1))
            &&& keyed.follow(keyed.two, k2) == Some((k, m.entries[k].1))
            &&& cleared.follow(cleared.one, k1) is None
            &&& cleared.follow(cleared.two, k2) is None
            &&& cleared.entries[k] == (None::<(K1, K2)>, m.entries[k].1)
        }),
{
}

/// A shared value that is told from others by where it lies, not by what it holds.
pub struct HashArc<V> {
    inner: Arc<V>,
}

impl<V> HashArc<V> {
    /// The shared value.
    pub closed spec fn shared(self) -> Arc<V> {
        self.inner
    }

    /// Wraps a shared value.
    pub fn from(arc: Arc<V>) -> (r: Self)
        ensures
            r.shared() == arc,
    {
        HashArc { inner: arc }
    }
}

/// `Arc::ptr_eq`: whether both point to one allocation, which then holds one value. Where a value
/// lies is not modelled, so nothing is said of two allocations that hold equal values.
#[verifier::external_body]
fn points_alike<V>(a: &Arc<V>, b: &Arc<V>) -> (r: bool)
    ensures
        r ==> *a == *b,
{
    Arc::ptr_eq(a, b)
}

impl<V> Clone for HashArc<V> {
    fn clone(&self) -> (r: Self)
        ensures
            r == *self,
    {
        HashArc { inner: self.inner.clone() }
    }
}

impl<V> PartialEq for HashArc<V> {
    fn eq(&self, other: &Self) -> (r: bool)
        ensures
            r ==> self.shared() == other.shared(),
    {
        points_alike(&self.inner, &other.inner)
    }
}

impl<V> vstd::std_specs::cmp::PartialEqSpecImpl for HashArc<V> {
    open spec fn obeys_eq_spec() -> bool {
        false
    }

    open spec fn eq_spec(&self, other: &Self) -> bool {
        self.shared() == other.shared()
    }
}

impl<V> Eq for HashArc<V> {

}

impl<V> Hash for HashArc<V> {
    /// Hashes the address, as `Arc::as_ptr` gives it.
    #[verifier::external_body]
    fn hash<H: Hasher>(&self, state: &mut H) {
        Arc::as_ptr(&self.inner).hash(state)
    }
}

/// What is inserted is there with its value and without further keys; all else stays.
pub proof fn law_inserted_entry_is_there<KM, K1, K2, V>(
    m: TripleView<KM, K1, K2, V>,
    k: KM,
    v: V,
    other: KM,
)
    ensures
        m.inserted(k, v).entries.contains_key(k),
        m.inserted(k, v).entries[k] == (None::<(K1, K2)>, v),
        other != k ==> (m.inserted(k, v).entries.contains_key(other) <==> m.entries.contains_key(
            other,
        )) && m.inserted(k, v).entries[other] == m.entries[other],
        m.inserted(k, v).one == m.one,
        m.inserted(k, v).two == m.two,
{
}

/// Giving or taking further keys touches only the entry that it is for, and keeps its value.
pub proof fn law_keys_change_one_entry<KM, K1, K2, V>(
    m: TripleView<KM, K1, K2, V>,
    k: KM,
    k1: K1,
    k2: K2,
    other: KM,
    other1: K1,
    other2: K2,
)
    ensures
        other != k ==> m.rekeyed(k, k1, k2).entries[other] == m.entries[other] && m.unkeyed(
            k,
        ).entries[other] == m.entries[other],
        m.rekeyed(k, k1, k2).entries.contains_key(other) <==> m.entries.contains_key(other),
        m.unkeyed(k).entries.contains_key(other) <==> m.entries.contains_key(other),
        m.entries.contains_key(k) ==> m.rekeyed(k, k1, k2).entries[k].1 == m.entries[k].1
            && m.unkeyed(k).entries[k].1 == m.entries[k].1 && m.unkeyed(k).entries[k].0 is None,
        m.entries.contains_key(k) && m.entries[k].0 is Some ==> m.rekeyed(k, k1, k2).entries[k].0
            == Some((k1, k2)),
        !m.entries.contains_key(k) || m.entries[k].0 is None ==> m.rekeyed(k, k1, k2) == m
            && m.unkeyed(k) == m,
        other1 != k1 ==> (m.rekeyed(k, k1, k2).one.contains_key(other1) <==> m.one.contains_key(
            other1,
        )) && m.rekeyed(k, k1, k2).one[other1] == m.one[other1],
        other2 != k2 ==> (m.rekeyed(k, k1, k2).two.contains_key(other2) <==> m.two.contains_key(
            other2,
        )) && m.rekeyed(k, k1, k2).two[other2] == m.two[other2],
        m.entries.contains_key(k) && m.entries[k].0 == Some((k1, k2)) ==> !m.unkeyed(
            k,
        ).one.contains_key(k1) && !m.unkeyed(k).two.contains_key(k2) && (other1 != k1 ==> m.unkeyed(
            k,
        ).one[other1] == m.one[other1]) && (other2 != k2 ==> m.unkeyed(k).two[other2]
            == m.two[other2]),
{
}

/// An index leads to the entry that it names, and nowhere where it names none or one that is gone.
pub proof fn law_index_leads_to_its_entry<KM, K1, K2, V>(
    m: TripleView<KM, K1, K2, V>,
    index: Map<K1, KM>,
    key: K1,
    k: KM,
)
    ensures
        index.contains_key(key) && index[key] == k && m.entries.contains_key(k) ==> m.follow(
            index,
            key,
        ) == Some((k, m.entries[k].1)),
        !index.contains_key(key) ==> m.follow(index, key) is None,
        index.contains_key(key) && !m.entries.contains_key(index[key]) ==> m.follow(index, key)
            is None,
{
}

} // verus!
