//! The registry of collections: the loan terms that the administrator has
//! set for each collection of tokens. Collections are added and updated,
//! never removed.

use vstd::prelude::*;
use crate::msg::{CollectionView, NFTCollectionResp};

verus! {

/// Whether some entry of `entries` has the identifier `id`.
pub open spec fn listed(entries: Seq<NFTCollectionResp>, id: u16) -> bool {
    exists|i: int| 0 <= i < entries.len() && #[trigger] entries[i].collection_id == id
}

/// The place of an entry of `entries` with the identifier `id`.
pub open spec fn slot_of(entries: Seq<NFTCollectionResp>, id: u16) -> int {
    choose|i: int| 0 <= i < entries.len() && #[trigger] entries[i].collection_id == id
}

/// No two entries have the same identifier.
pub open spec fn distinct_ids(entries: Seq<NFTCollectionResp>) -> bool {
    forall|i: int, j: int|
        0 <= i < j < entries.len() ==> #[trigger] entries[i].collection_id
            != #[trigger] entries[j].collection_id
}

/// The terms by identifier.
pub open spec fn terms_by_id(entries: Seq<NFTCollectionResp>) -> Map<u16, CollectionView> {
    Map::new(|id: u16| listed(entries, id), |id: u16| entries[slot_of(entries, id)]@)
}

/// Where identifiers are distinct, an entry is found under its own
/// identifier.
pub proof fn lemma_slot_of_entry(entries: Seq<NFTCollectionResp>, i: int)
    requires
        distinct_ids(entries),
        0 <= i < entries.len(),
    ensures
        listed(entries, entries[i].collection_id),
        slot_of(entries, entries[i].collection_id) == i,
        terms_by_id(entries).contains_key(entries[i].collection_id),
        terms_by_id(entries)[entries[i].collection_id] == entries[i]@,
{
    let id = entries[i].collection_id;
    let j = slot_of(entries, id);
    assert(0 <= j < entries.len() && entries[j].collection_id == id);
    if j < i {
        assert(entries[j].collection_id != entries[i].collection_id);
    } else if i < j {
        assert(entries[i].collection_id != entries[j].collection_id);
    }
}

/// The registry that results from registering `collections` one after the
/// other on top of `base`; a later entry replaces an earlier one with the
/// same identifier.
pub open spec fn registered(
    base: Map<u16, CollectionView>,
    collections: Seq<CollectionView>,
) -> Map<u16, CollectionView>
    decreases collections.len(),
{
    if collections.len() == 0 {
        base
    } else {
        registered(base, collections.drop_last()).insert(
            collections.last().collection_id,
            collections.last(),
        )
    }
}

/// The registry of collections.
#[derive(Clone, Debug, PartialEq, Eq)]
pub struct Registry {
    entries: Vec<NFTCollectionResp>,
}

impl View for Registry {
    type V = Map<u16, CollectionView>;

    closed spec fn view(&self) -> Map<u16, CollectionView> {
        terms_by_id(self.entries@)
    }
}

impl Registry {
    /// Each identifier is registered once.
    pub closed spec fn wf(&self) -> bool {
        distinct_ids(self.entries@)
    }

    /// The entries, in the order in which their identifiers were first
    /// registered.
    pub closed spec fn entries(&self) -> Seq<NFTCollectionResp> {
        self.entries@
    }

    /// A registry without collections.
    pub fn new() -> (registry: Registry)
        ensures
            registry.wf(),
            registry@ == Map::<u16, CollectionView>::empty(),
    {
        let registry = Registry { entries: Vec::new() };
        assert(registry@ =~= Map::<u16, CollectionView>::empty());
        registry
    }

    fn find(&self, collection_id: u16) -> (found: Option<usize>)
        ensures
            match found {
                Some(i) => i < self.entries.len() && self.entries[i as int].collection_id
                    == collection_id,
                None => !listed(self.entries@, collection_id),
            },
    {
        let mut i: usize = 0;
        while i < self.entries.len()
            invariant
                i <= self.entries.len(),
                forall|k: int| 0 <= k < i ==> self.entries[k].collection_id != collection_id,
            decreases self.entries.len() - i,
        {
            if self.entries[i].collection_id == collection_id {
                return Some(i);
            }
            i += 1;
        }
        None
    }

    /// The terms registered under `collection_id`, if any.
    pub fn get(&self, collection_id: u16) -> (terms: Option<&NFTCollectionResp>)
        requires
            self.wf(),
        ensures
            match terms {
                Some(c) => self@.contains_key(collection_id) && c@ == self@[collection_id],
                None => !self@.contains_key(collection_id),
            },
    {
        match self.find(collection_id) {
            Some(i) => {
                proof {
                    lemma_slot_of_entry(self.entries@, i as int);
                }
                Some(&self.entries[i])
            },
            None => None,
        }
    }

    /// Registers `collection` under its identifier, in place of the terms
    /// that were registered under it, if any.
    pub fn upsert(&mut self, collection: NFTCollectionResp)
        requires
            old(self).wf(),
        ensures
            final(self).wf(),
            final(self)@ == old(self)@.insert(collection.collection_id, collection@),
    {
        let id: u16 = collection.collection_id;
        let ghost before = self.entries@;
        let ghost terms = collection@;
        match self.find(id) {
            Some(i) => {
                self.entries.set(i, collection);
                proof {
                    let after = self.entries@;
                    assert forall|k: u16| listed(after, k) == listed(before, k) by {
                        if listed(after, k) {
                            let j = slot_of(after, k);
                            assert(before[j].collection_id == k);
                        }
                        if listed(before, k) {
                            let j = slot_of(before, k);
                            assert(after[j].collection_id == k);
                        }
                    }
                    assert forall|k: u16| listed(after, k) implies #[trigger] terms_by_id(
                        after,
                    )[k] == terms_by_id(before).insert(id, terms)[k] by {
                        let j = slot_of(after, k);
                        lemma_slot_of_entry(after, j);
                        lemma_slot_of_entry(before, j);
                    }
                    lemma_slot_of_entry(before, i as int);
                    assert(terms_by_id(after) =~= terms_by_id(before).insert(id, terms));
                }
            },
            None => {
                self.entries.push(collection);
                proof {
                    let after = self.entries@;
                    let last = before.len() as int;
                    assert(after[last].collection_id == id);
                    assert forall|k: u16| listed(after, k) == (listed(before, k) || k == id) by {
                        if listed(after, k) {
                            let j = slot_of(after, k);
                            if j < last {
                                assert(before[j].collection_id == k);
                            }
                        }
                        if listed(before, k) {
                            let j = slot_of(before, k);
                            assert(after[j].collection_id == k);
                        }
                    }
                    assert forall|k: u16| listed(after, k) implies #[trigger] terms_by_id(
                        after,
                    )[k] == terms_by_id(before).insert(id, terms)[k] by {
                        let j = slot_of(after, k);
                        lemma_slot_of_entry(after, j);
                        if j < last {
                            lemma_slot_of_entry(before, j);
                        }
                    }
                    assert(terms_by_id(after) =~= terms_by_id(before).insert(id, terms));
                }
            },
        }
    }

    /// Registers `collections` one after the other.
    pub fn upsert_all(&mut self, collections: Vec<NFTCollectionResp>)
        requires
            old(self).wf(),
        ensures
            final(self).wf(),
            final(self)@ == registered(old(self)@, crate::msg::collection_views(collections@)),
    {
        let ghost views = crate::msg::collection_views(collections@);
        let n: usize = collections.len();
        let mut i: usize = 0;
        assert(views.take(0) =~= Seq::<CollectionView>::empty());
        while i < n
            invariant
                i <= n,
                n == collections.len(),
                views == crate::msg::collection_views(collections@),
                self.wf(),
                self@ == registered(old(self)@, views.take(i as int)),
            decreases n - i,
        {
            let c = collections[i].clone();
            assert(views.take(i + 1).drop_last() =~= views.take(i as int));
            assert(views.take(i + 1).last() == c@);
            self.upsert(c);
            i += 1;
        }
        assert(views.take(n as int) =~= views);
    }

    /// Sets the floor price of the collection `collection_id`, and says
    /// whether the collection is registered.
    pub fn set_floor_price(&mut self, collection_id: u16, floor_price: u128) -> (known: bool)
        requires
            old(self).wf(),
        ensures
            final(self).wf(),
            known == old(self)@.contains_key(collection_id),
            known ==> final(self)@ == old(self)@.insert(
                collection_id,
                CollectionView { floor_price, ..old(self)@[collection_id] },
            ),
            !known ==> final(self)@ == old(self)@,
    {
        match self.find(collection_id) {
            Some(i) => {
                proof {
                    lemma_slot_of_entry(self.entries@, i as int);
                }
                let mut updated = self.entries[i].clone();
                updated.floor_price = floor_price;
                self.upsert(updated);
                true
            },
            None => false,
        }
    }

    /// The registry holds the terms of each of its entries under the
    /// entry's identifier, and no identifier twice.
    pub proof fn lemma_entries_exact(&self)
        requires
            self.wf(),
        ensures
            distinct_ids(self.entries()),
            self@ == terms_by_id(self.entries()),
    {
    }

    /// The number of collections registered.
    pub fn len(&self) -> (n: usize)
        ensures
            n == self.entries().len(),
    {
        self.entries.len()
    }

    /// The entry at `i`, in the order in which identifiers were first
    /// registered.
    pub fn entry(&self, i: usize) -> (c: &NFTCollectionResp)
        requires
            self.wf(),
            i < self.entries().len(),
        ensures
            *c == self.entries()[i as int],
            self@.contains_key(c.collection_id),
            self@[c.collection_id] == c@,
    {
        proof {
            lemma_slot_of_entry(self.entries@, i as int);
        }
        &self.entries[i]
    }
}

} // verus!
