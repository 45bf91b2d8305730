//! Tables of rows that are found by an address.

use crate::types::Pubkey;
use dashmap::DashMap;
use vstd::prelude::*;

verus! {

/// `dashmap::DashMap`, a hash map.
#[verifier::external_type_specification]
#[verifier::external_body]
#[verifier::reject_recursive_types(K)]
#[verifier::reject_recursive_types(V)]
#[verifier::reject_recursive_types(S)]
pub struct ExDashMap<K, V, S>(DashMap<K, V, S>);

/// The keys and values in a map.
pub uninterp spec fn index_entries(map: DashMap<[u8; 32], usize>) -> Map<Seq<u8>, usize>;

/// `DashMap::new`: an empty map.
#[verifier::external_body]
fn index_new() -> (r: DashMap<[u8; 32], usize>)
    ensures
        (index_entries(r) == Map::<Seq<u8>, usize>::empty()),
{
    DashMap::new()
}

/// `DashMap::get`: the value under a key, if there is one. A map changes only where it is
/// borrowed mutably here, so its entries are those of the value borrowed.
#[verifier::external_body]
fn index_get(map: &DashMap<[u8; 32], usize>, key: &[u8; 32]) -> (r: Option<usize>)
    ensures
        r == index_entries(*map).get(key@),
{
    map.get(key).map(|entry| *entry.value())
}

/// `DashMap::insert`: puts a value under a key, in place of one that was there.
#[verifier::external_body]
fn index_insert(map: &mut DashMap<[u8; 32], usize>, key: [u8; 32], value: usize)
    ensures
        index_entries(*final(map)) == index_entries(*old(map)).insert(key@, value),
{
    map.insert(key, value);
}

/// Rows that are found by an address. They stay in the order in which their addresses came.
pub struct Table<V> {
    index: DashMap<[u8; 32], usize>,
    rows: Vec<(Pubkey, V)>,
}

impl<V> Table<V> {
    /// The addresses, in the order in which they came.
    pub closed spec fn keys(self) -> Seq<Pubkey> {
        Seq::new(self.rows@.len(), |i: int| self.rows@[i].0)
    }

    /// The rows, by address.
    pub closed spec fn map(self) -> Map<Seq<u8>, V> {
        Map::new(
            |k: Seq<u8>| index_entries(self.index).contains_key(k),
            |k: Seq<u8>| self.rows@[index_entries(self.index)[k] as int].1,
        )
    }

    /// Each row is found by its own address, and nothing else is found.
    pub closed spec fn wf(self) -> bool {
        &&& forall|i: int|
            0 <= i < self.rows@.len() ==> index_entries(self.index).contains_key(
                (#[trigger] self.rows@[i]).0@,
            ) && index_entries(self.index)[self.rows@[i].0@] == i
        &&& forall|k: Seq<u8>| #[trigger]
            index_entries(self.index).contains_key(k) ==> {
                &&& index_entries(self.index)[k] < self.rows@.len()
                &&& self.rows@[index_entries(self.index)[k] as int].0@ == k
            }
    }

    /// An empty table.
    pub fn new() -> (r: Table<V>)
        ensures
            r.wf(),
            r.keys() == Seq::<Pubkey>::empty(),
            r.map() == Map::<Seq<u8>, V>::empty(),
    {
        let r: Table<V> = Table { index: index_new(), rows: Vec::new() };
        assert(r.keys() =~= Seq::<Pubkey>::empty());
        assert(r.map() =~= Map::<Seq<u8>, V>::empty());
        r
    }

    /// The row of an address.
    pub fn get(&self, key: &Pubkey) -> (r: Option<&V>)
        requires
            self.wf(),
        ensures
            match r {
                Some(row) => self.map().contains_key(key@) && *row == self.map()[key@],
                None => !self.map().contains_key(key@),
            },
    {
        match index_get(&self.index, &key.0) {
            Some(i) => {
                assert(index_entries(self.index).contains_key(key@));
                Some(&self.rows[i].1)
            },
            None => None,
        }
    }

    /// Puts a row under an address, in place of one that was there.
    pub fn insert(&mut self, key: Pubkey, row: V)
        requires
            old(self).wf(),
        ensures
            final(self).wf(),
            final(self).map() == old(self).map().insert(key@, row),
            final(self).keys() == if old(self).map().contains_key(key@) {
                old(self).keys()
            } else {
                old(self).keys().push(key)
            },
    {
        match index_get(&self.index, &key.0) {
            Some(i) => {
                assert(index_entries(self.index).contains_key(key@));
                let kept = self.rows[i].0;
                self.rows.set(i, (kept, row));
            },
            None => {
                let i: usize = self.rows.len();
                self.rows.push((key, row));
                index_insert(&mut self.index, key.0, i);
            },
        }
        proof {
            assert(self.map() =~= old(self).map().insert(key@, row));
            assert(self.keys() =~= if old(self).map().contains_key(key@) {
                old(self).keys()
            } else {
                old(self).keys().push(key)
            });
        }
    }

    /// The row of an address, to be changed in place.
    pub fn get_mut(&mut self, key: &Pubkey) -> (r: Option<&mut V>)
        requires
            old(self).wf(),
        ensures
            final(self).wf(),
            final(self).keys() == old(self).keys(),
            match r {
                Some(row) => {
                    &&& old(self).map().contains_key(key@)
                    &&& *row == old(self).map()[key@]
                    &&& final(self).map() == old(self).map().insert(key@, *final(row))
                },
                None => {
                    &&& !old(self).map().contains_key(key@)
                    &&& final(self).map() == old(self).map()
                },
            },
    {
        match index_get(&self.index, &key.0) {
            Some(i) => {
                assert(index_entries(self.index).contains_key(key@));
                Some(&mut self.rows[i].1)
            },
            None => None,
        }
    }

    /// How many rows there are.
    pub fn len(&self) -> (r: usize)
        ensures
            r == self.keys().len(),
    {
        self.rows.len()
    }

    /// The address that came at a place in the order.
    pub fn key_at(&self, i: usize) -> (r: Pubkey)
        requires
            i < self.keys().len(),
        ensures
            r == self.keys()[i as int],
    {
        self.rows[i].0
    }

    /// The addresses are those under which there are rows, each once.
    pub proof fn lemma_keys(self)
        requires
            self.wf(),
        ensures
            forall|k: Seq<u8>| #[trigger]
                self.map().contains_key(k) <==> exists|i: int|
                    0 <= i < self.keys().len() && (#[trigger] self.keys()[i])@ == k,
            forall|i: int, j: int|
                0 <= i < j < self.keys().len() ==> (#[trigger] self.keys()[i])@ != (
                #[trigger] self.keys()[j])@,
    {
        assert forall|k: Seq<u8>| #[trigger] self.map().contains_key(k) implies exists|i: int|
            0 <= i < self.keys().len() && (#[trigger] self.keys()[i])@ == k by {
            let i = index_entries(self.index)[k] as int;
            assert(self.keys()[i]@ == k);
        }
        assert forall|i: int| 0 <= i < self.keys().len() implies self.map().contains_key(
            (#[trigger] self.keys()[i])@,
        ) by {
            assert(self.rows@[i].0 == self.keys()[i]);
        }
        assert forall|i: int, j: int| 0 <= i < j < self.keys().len() implies (
        #[trigger] self.keys()[i])@ != (#[trigger] self.keys()[j])@ by {
            assert(self.rows@[i].0 == self.keys()[i]);
            assert(self.rows@[j].0 == self.keys()[j]);
        }
    }
}

} // verus!
