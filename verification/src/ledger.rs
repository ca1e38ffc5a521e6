//! The offer ledger: the live offers in the order of their identifiers,
//! with an index by lender and an index by borrower that are kept in step
//! with every change.

use vstd::prelude::*;
use crate::msg::{offer_views, OfferResp, OfferView};

verus! {

/// One entry of a secondary index: the offer `offer_id` stands under `key`.
#[derive(Debug, PartialEq, Eq)]
pub struct IndexEntry {
    pub key: String,
    pub offer_id: u16,
}

/// An index entry as specifications see it.
pub struct IndexEntryView {
    pub key: Seq<char>,
    pub offer_id: u16,
}

impl View for IndexEntry {
    type V = IndexEntryView;

    open spec fn view(&self) -> IndexEntryView {
        IndexEntryView { key: self.key@, offer_id: self.offer_id }
    }
}

impl Clone for IndexEntry {
    fn clone(&self) -> (copy: Self)
        ensures
            copy@ == self@,
    {
        IndexEntry { key: self.key.clone(), offer_id: self.offer_id }
    }
}

/// The views of a sequence of index entries, one for one.
pub open spec fn entry_views(entries: Seq<IndexEntry>) -> Seq<IndexEntryView> {
    entries.map_values(|e: IndexEntry| e@)
}

/// Offer identifiers grow strictly along the sequence.
pub open spec fn ascending_ids(offers: Seq<OfferView>) -> bool {
    forall|i: int, j: int|
        0 <= i < j < offers.len() ==> (#[trigger] offers[i]).offer_id < (
        #[trigger] offers[j]).offer_id
}

/// Offer identifiers grow strictly along the index.
pub open spec fn index_ascending(index: Seq<IndexEntryView>) -> bool {
    forall|i: int, j: int|
        0 <= i < j < index.len() ==> (#[trigger] index[i]).offer_id < (
        #[trigger] index[j]).offer_id
}

/// Some offer of `offers` has the identifier `offer_id`.
pub open spec fn has_offer(offers: Seq<OfferView>, offer_id: u16) -> bool {
    exists|i: int| 0 <= i < offers.len() && (#[trigger] offers[i]).offer_id == offer_id
}

/// The place in `offers` of an offer with the identifier `offer_id`.
pub open spec fn position_of(offers: Seq<OfferView>, offer_id: u16) -> int {
    choose|i: int| 0 <= i < offers.len() && (#[trigger] offers[i]).offer_id == offer_id
}

/// The key under which the index by lender holds an offer: its lender.
pub open spec fn owner_key() -> spec_fn(OfferView) -> Option<Seq<char>> {
    |o: OfferView| Some(o.owner)
}

/// The key under which the index by borrower holds an offer: its borrower,
/// once the offer was taken.
pub open spec fn borrower_key() -> spec_fn(OfferView) -> Option<Seq<char>> {
    |o: OfferView|
        if o.accepted {
            Some(o.borrower)
        } else {
            None
        }
}

/// The offer `offer_id` is live and `select` puts it under `key`.
pub open spec fn stands_under(
    offers: Seq<OfferView>,
    select: spec_fn(OfferView) -> Option<Seq<char>>,
    key: Seq<char>,
    offer_id: u16,
) -> bool {
    exists|i: int|
        0 <= i < offers.len() && (#[trigger] offers[i]).offer_id == offer_id && select(offers[i])
            == Some(key)
}

/// The offer `offer_id` is live and `owner` is its lender.
pub open spec fn lent_by(offers: Seq<OfferView>, owner: Seq<char>, offer_id: u16) -> bool {
    stands_under(offers, owner_key(), owner, offer_id)
}

/// The offer `offer_id` is live, was taken, and `borrower` took it.
pub open spec fn taken_by(offers: Seq<OfferView>, borrower: Seq<char>, offer_id: u16) -> bool {
    stands_under(offers, borrower_key(), borrower, offer_id)
}

/// The index holds an entry for each live offer that `select` gives a key,
/// under that key, and no other entry.
pub open spec fn index_exact(
    index: Seq<IndexEntryView>,
    offers: Seq<OfferView>,
    select: spec_fn(OfferView) -> Option<Seq<char>>,
) -> bool {
    forall|e: IndexEntryView| #[trigger]
        index.contains(e) <==> stands_under(offers, select, e.key, e.offer_id)
}

/// In a sequence with ascending identifiers an offer is found under its own
/// identifier.
pub proof fn lemma_position_of_offer(offers: Seq<OfferView>, i: int)
    requires
        ascending_ids(offers),
        0 <= i < offers.len(),
    ensures
        has_offer(offers, offers[i].offer_id),
        position_of(offers, offers[i].offer_id) == i,
{
    let j = position_of(offers, offers[i].offer_id);
    assert(0 <= j < offers.len() && offers[j].offer_id == offers[i].offer_id);
    if j < i {
        assert(offers[j].offer_id < offers[i].offer_id);
    } else if i < j {
        assert(offers[i].offer_id < offers[j].offer_id);
    }
}

/// What stands under a key once an offer is appended.
proof fn lemma_under_push(
    offers: Seq<OfferView>,
    added: OfferView,
    select: spec_fn(OfferView) -> Option<Seq<char>>,
)
    ensures
        forall|key: Seq<char>, id: u16| #[trigger]
            stands_under(offers.push(added), select, key, id) <==> stands_under(
                offers,
                select,
                key,
                id,
            ) || (added.offer_id == id && select(added) == Some(key)),
{
    let after = offers.push(added);
    assert forall|key: Seq<char>, id: u16| #[trigger]
        stands_under(after, select, key, id) <==> stands_under(offers, select, key, id) || (
        added.offer_id == id && select(added) == Some(key)) by {
        if stands_under(after, select, key, id) {
            let i = choose|i: int|
                0 <= i < after.len() && (#[trigger] after[i]).offer_id == id && select(after[i])
                    == Some(key);
            if i < offers.len() {
                assert(offers[i].offer_id == id && select(offers[i]) == Some(key));
            }
        }
        if stands_under(offers, select, key, id) {
            let i = choose|i: int|
                0 <= i < offers.len() && (#[trigger] offers[i]).offer_id == id && select(
                    offers[i],
                ) == Some(key);
            assert(after[i].offer_id == id && select(after[i]) == Some(key));
        }
        if added.offer_id == id && select(added) == Some(key) {
            assert(after[offers.len() as int].offer_id == id);
        }
    }
}

/// What stands under a key once the offer at `at` is replaced by one with
/// the same identifier.
proof fn lemma_under_update(
    offers: Seq<OfferView>,
    at: int,
    changed: OfferView,
    select: spec_fn(OfferView) -> Option<Seq<char>>,
)
    requires
        ascending_ids(offers),
        0 <= at < offers.len(),
        changed.offer_id == offers[at].offer_id,
    ensures
        ascending_ids(offers.update(at, changed)),
        forall|key: Seq<char>, id: u16| #[trigger]
            stands_under(offers.update(at, changed), select, key, id) <==> (stands_under(
                offers,
                select,
                key,
                id,
            ) && id != changed.offer_id) || (changed.offer_id == id && select(changed) == Some(
                key,
            )),
{
    let after = offers.update(at, changed);
    assert forall|i: int, j: int| 0 <= i < j < after.len() implies (#[trigger] after[i]).offer_id
        < (#[trigger] after[j]).offer_id by {
        assert(offers[i].offer_id < offers[j].offer_id);
    }
    assert forall|key: Seq<char>, id: u16| #[trigger]
        stands_under(after, select, key, id) <==> (stands_under(offers, select, key, id) && id
            != changed.offer_id) || (changed.offer_id == id && select(changed) == Some(key)) by {
        if stands_under(after, select, key, id) {
            let i = choose|i: int|
                0 <= i < after.len() && (#[trigger] after[i]).offer_id == id && select(after[i])
                    == Some(key);
            if i != at {
                assert(offers[i].offer_id == id && select(offers[i]) == Some(key));
                lemma_position_of_offer(offers, i);
                lemma_position_of_offer(offers, at);
            }
        }
        if stands_under(offers, select, key, id) && id != changed.offer_id {
            let i = choose|i: int|
                0 <= i < offers.len() && (#[trigger] offers[i]).offer_id == id && select(
                    offers[i],
                ) == Some(key);
            assert(after[i].offer_id == id && select(after[i]) == Some(key));
        }
        if changed.offer_id == id && select(changed) == Some(key) {
            assert(after[at].offer_id == id);
        }
    }
}

/// What stands under a key once the offer at `at` is removed.
proof fn lemma_under_remove(
    offers: Seq<OfferView>,
    at: int,
    select: spec_fn(OfferView) -> Option<Seq<char>>,
)
    requires
        ascending_ids(offers),
        0 <= at < offers.len(),
    ensures
        ascending_ids(offers.remove(at)),
        forall|key: Seq<char>, id: u16| #[trigger]
            stands_under(offers.remove(at), select, key, id) <==> stands_under(
                offers,
                select,
                key,
                id,
            ) && id != offers[at].offer_id,
{
    let after = offers.remove(at);
    assert forall|i: int, j: int| 0 <= i < j < after.len() implies (#[trigger] after[i]).offer_id
        < (#[trigger] after[j]).offer_id by {
        let a = if i < at { i } else { i + 1 };
        let b = if j < at { j } else { j + 1 };
        assert(offers[a].offer_id < offers[b].offer_id);
    }
    assert forall|key: Seq<char>, id: u16| #[trigger]
        stands_under(after, select, key, id) <==> stands_under(offers, select, key, id) && id
            != offers[at].offer_id by {
        if stands_under(after, select, key, id) {
            let i = choose|i: int|
                0 <= i < after.len() && (#[trigger] after[i]).offer_id == id && select(after[i])
                    == Some(key);
            let a = if i < at { i } else { i + 1 };
            assert(offers[a].offer_id == id && select(offers[a]) == Some(key));
            lemma_position_of_offer(offers, a);
            lemma_position_of_offer(offers, at);
        }
        if stands_under(offers, select, key, id) && id != offers[at].offer_id {
            let i = choose|i: int|
                0 <= i < offers.len() && (#[trigger] offers[i]).offer_id == id && select(
                    offers[i],
                ) == Some(key);
            let a = if i < at { i } else { i - 1 };
            assert(after[a].offer_id == id && select(after[a]) == Some(key));
        }
    }
}

/// The offers that stand at the places `places`, in that order.
pub open spec fn picked(offers: Seq<OfferView>, places: Seq<usize>) -> Seq<OfferView> {
    places.map_values(|at: usize| offers[at as int])
}

/// Every place of `places` is one of a sequence of `len` offers.
pub open spec fn places_within(places: Seq<usize>, len: nat) -> bool {
    forall|k: int| 0 <= k < places.len() ==> (#[trigger] places[k]) < len
}

/// The offers that `select` puts under `key`.
pub open spec fn keyed(select: spec_fn(OfferView) -> Option<Seq<char>>, key: Seq<char>) -> spec_fn(
    OfferView,
) -> bool {
    |o: OfferView| select(o) == Some(key)
}

/// The offers of `offers` whose lender is `owner`, in the order of their
/// identifiers.
pub open spec fn offers_lent_by(offers: Seq<OfferView>, owner: Seq<char>) -> Seq<OfferView> {
    offers.filter(keyed(owner_key(), owner))
}

/// The offers of `offers` that `borrower` has taken, in the order of their
/// identifiers.
pub open spec fn offers_taken_by(offers: Seq<OfferView>, borrower: Seq<char>) -> Seq<OfferView> {
    offers.filter(keyed(borrower_key(), borrower))
}

/// A selection from `offers` that is ordered by identifier, holds only
/// offers that `keep` accepts, and misses none of them, is the sequence of
/// those offers.
pub proof fn lemma_ascending_selection(
    offers: Seq<OfferView>,
    chosen: Seq<OfferView>,
    keep: spec_fn(OfferView) -> bool,
)
    requires
        ascending_ids(offers),
        ascending_ids(chosen),
        forall|k: int|
            0 <= k < chosen.len() ==> offers.contains(#[trigger] chosen[k]) && keep(chosen[k]),
        forall|i: int|
            0 <= i < offers.len() && keep(#[trigger] offers[i]) ==> chosen.contains(offers[i]),
    ensures
        chosen == offers.filter(keep),
    decreases offers.len(),
{
    reveal(Seq::filter);
    if offers.len() == 0 {
        if chosen.len() > 0 {
            assert(offers.contains(chosen[0]));
        }
        assert(chosen =~= offers.filter(keep));
    } else {
        let rest = offers.drop_last();
        let top = offers.last();
        assert forall|i: int, j: int| 0 <= i < j < rest.len() implies (#[trigger] rest[i]).offer_id
            < (#[trigger] rest[j]).offer_id by {
            assert(offers[i].offer_id < offers[j].offer_id);
        }
        assert forall|o: OfferView| offers.contains(o) implies o.offer_id <= top.offer_id && (
        o.offer_id == top.offer_id ==> o == top) && (o.offer_id < top.offer_id ==> rest.contains(
            o,
        )) by {
            let i = choose|i: int| 0 <= i < offers.len() && offers[i] == o;
            if i < offers.len() - 1 {
                assert(offers[i].offer_id < offers[offers.len() - 1].offer_id);
                assert(rest[i] == o);
            }
        }
        if keep(top) {
            assert(offers[offers.len() - 1] == top);
            assert(chosen.contains(top));
            let k = choose|k: int| 0 <= k < chosen.len() && chosen[k] == top;
            if k < chosen.len() - 1 {
                assert(chosen[k].offer_id < chosen[chosen.len() - 1].offer_id);
                assert(offers.contains(chosen[chosen.len() - 1]));
            }
            let fewer = chosen.drop_last();
            assert forall|i: int, j: int| 0 <= i < j < fewer.len() implies (
            #[trigger] fewer[i]).offer_id < (#[trigger] fewer[j]).offer_id by {
                assert(chosen[i].offer_id < chosen[j].offer_id);
            }
            assert forall|k2: int| 0 <= k2 < fewer.len() implies rest.contains(
                #[trigger] fewer[k2],
            ) && keep(fewer[k2]) by {
                assert(fewer[k2] == chosen[k2]);
                assert(chosen[k2].offer_id < chosen[chosen.len() - 1].offer_id);
                assert(offers.contains(chosen[k2]));
            }
            assert forall|i: int| 0 <= i < rest.len() && keep(#[trigger] rest[i]) implies fewer.contains(
                rest[i],
            ) by {
                assert(offers[i] == rest[i]);
                assert(offers[i].offer_id < offers[offers.len() - 1].offer_id);
                assert(chosen.contains(offers[i]));
                let k2 = choose|k2: int| 0 <= k2 < chosen.len() && chosen[k2] == rest[i];
                assert(fewer[k2] == rest[i]);
            }
            lemma_ascending_selection(rest, fewer, keep);
            assert(chosen =~= fewer.push(top));
        } else {
            assert forall|k: int| 0 <= k < chosen.len() implies rest.contains(
                #[trigger] chosen[k],
            ) && keep(chosen[k]) by {
                assert(offers.contains(chosen[k]));
            }
            assert forall|i: int| 0 <= i < rest.len() && keep(#[trigger] rest[i]) implies chosen.contains(
                rest[i],
            ) by {
                assert(offers[i] == rest[i]);
            }
            lemma_ascending_selection(rest, chosen, keep);
        }
    }
}

/// The place at which an entry for `offer_id` keeps the index ascending.
fn index_slot(index: &Vec<IndexEntry>, offer_id: u16) -> (slot: usize)
    requires
        index_ascending(entry_views(index@)),
    ensures
        slot <= index.len(),
        forall|j: int| 0 <= j < slot ==> index[j].offer_id < offer_id,
        forall|j: int| slot <= j < index.len() ==> index[j].offer_id >= offer_id,
{
    let mut slot: usize = 0;
    while slot < index.len() && index[slot].offer_id < offer_id
        invariant
            slot <= index.len(),
            forall|j: int| 0 <= j < slot ==> index[j].offer_id < offer_id,
        decreases index.len() - slot,
    {
        slot += 1;
    }
    assert forall|j: int| slot <= j < index.len() implies index[j].offer_id >= offer_id by {
        let views = entry_views(index@);
        assert(views[slot as int].offer_id >= offer_id);
        if slot < j {
            assert(views[slot as int].offer_id < views[j].offer_id);
        }
    }
    slot
}

/// Enters the offer `offer_id` under `key`.
fn index_insert(index: &mut Vec<IndexEntry>, key: String, offer_id: u16)
    requires
        index_ascending(entry_views(old(index)@)),
        forall|j: int| 0 <= j < old(index).len() ==> old(index)[j].offer_id != offer_id,
    ensures
        index_ascending(entry_views(final(index)@)),
        forall|e: IndexEntryView| #[trigger]
            entry_views(final(index)@).contains(e) <==> entry_views(old(index)@).contains(e) || e
                == (IndexEntryView { key: key@, offer_id }),
{
    let ghost before = entry_views(index@);
    let ghost added = IndexEntryView { key: key@, offer_id };
    let slot = index_slot(index, offer_id);
    index.insert(slot, IndexEntry { key, offer_id });
    proof {
        let after = entry_views(index@);
        assert(after =~= before.insert(slot as int, added));
        assert forall|i: int, j: int| 0 <= i < j < after.len() implies (#[trigger] after[i]).offer_id
            < (#[trigger] after[j]).offer_id by {
            let a = if i < slot { i } else { i - 1 };
            let b = if j < slot { j } else { j - 1 };
            if i != slot {
                assert(after[i] == before[a]);
            }
            if j != slot {
                assert(after[j] == before[b]);
            }
            if i != slot && j != slot {
                assert(before[a].offer_id < before[b].offer_id);
            }
        }
        assert forall|e: IndexEntryView| #[trigger]
            after.contains(e) <==> before.contains(e) || e == added by {
            if after.contains(e) {
                let i = choose|i: int| 0 <= i < after.len() && after[i] == e;
                if i < slot {
                    assert(before[i] == e);
                } else if i > slot {
                    assert(before[i - 1] == e);
                }
            }
            if before.contains(e) {
                let i = choose|i: int| 0 <= i < before.len() && before[i] == e;
                if i < slot {
                    assert(after[i] == e);
                } else {
                    assert(after[i + 1] == e);
                }
            }
            if e == added {
                assert(after[slot as int] == e);
            }
        }
    }
}

/// Strikes the entry of the offer `offer_id`, if there is one.
fn index_remove(index: &mut Vec<IndexEntry>, offer_id: u16)
    requires
        index_ascending(entry_views(old(index)@)),
    ensures
        index_ascending(entry_views(final(index)@)),
        forall|e: IndexEntryView| #[trigger]
            entry_views(final(index)@).contains(e) <==> entry_views(old(index)@).contains(e)
                && e.offer_id != offer_id,
{
    let ghost before = entry_views(index@);
    let slot = index_slot(index, offer_id);
    if slot < index.len() && index[slot].offer_id == offer_id {
        index.remove(slot);
        proof {
            let after = entry_views(index@);
            assert(after =~= before.remove(slot as int));
            assert forall|i: int, j: int| 0 <= i < j < after.len() implies (
            #[trigger] after[i]).offer_id < (#[trigger] after[j]).offer_id by {
                let a = if i < slot { i } else { i + 1 };
                let b = if j < slot { j } else { j + 1 };
                assert(after[i] == before[a]);
                assert(after[j] == before[b]);
                assert(before[a].offer_id < before[b].offer_id);
            }
            assert forall|e: IndexEntryView| #[trigger]
                after.contains(e) <==> before.contains(e) && e.offer_id != offer_id by {
                if after.contains(e) {
                    let i = choose|i: int| 0 <= i < after.len() && after[i] == e;
                    let a = if i < slot { i } else { i + 1 };
                    assert(before[a] == e);
                    if a < slot {
                        assert(before[a].offer_id < before[slot as int].offer_id);
                    } else {
                        assert(before[slot as int].offer_id < before[a].offer_id);
                    }
                }
                if before.contains(e) && e.offer_id != offer_id {
                    let i = choose|i: int| 0 <= i < before.len() && before[i] == e;
                    if i < slot {
                        assert(after[i] == e);
                    } else {
                        assert(after[i - 1] == e);
                    }
                }
            }
        }
    } else {
        proof {
            assert forall|e: IndexEntryView| #[trigger]
                before.contains(e) implies e.offer_id != offer_id by {
                let i = choose|i: int| 0 <= i < before.len() && before[i] == e;
                assert(before[i] == index[i]@);
                if slot < i {
                    assert(before[slot as int].offer_id < before[i].offer_id);
                    assert(before[slot as int] == index[slot as int]@);
                }
            }
        }
    }
}

/// The two secondary indexes of the ledger.
#[derive(Clone, Debug, PartialEq, Eq)]
pub struct OfferRespIndexes {
    owner: Vec<IndexEntry>,
    borrower: Vec<IndexEntry>,
}

/// The live offers with their indexes.
#[derive(Clone, Debug, PartialEq, Eq)]
pub struct Offers {
    records: Vec<OfferResp>,
    idx: OfferRespIndexes,
}

impl View for Offers {
    type V = Seq<OfferView>;

    closed spec fn view(&self) -> Seq<OfferView> {
        offer_views(self.records@)
    }
}

/// An empty ledger.
pub fn offer_resps() -> (offers: Offers)
    ensures
        offers.wf(),
        offers@ == Seq::<OfferView>::empty(),
{
    let offers = Offers {
        records: Vec::new(),
        idx: OfferRespIndexes { owner: Vec::new(), borrower: Vec::new() },
    };
    assert(offers@ =~= Seq::<OfferView>::empty());
    offers
}

impl Offers {
    /// The index by lender.
    pub closed spec fn owner_index(&self) -> Seq<IndexEntryView> {
        entry_views(self.idx.owner@)
    }

    /// The index by borrower.
    pub closed spec fn borrower_index(&self) -> Seq<IndexEntryView> {
        entry_views(self.idx.borrower@)
    }

    /// The offers as they are stored.
    pub closed spec fn records(&self) -> Seq<OfferResp> {
        self.records@
    }

    /// The offers stand in the order of their identifiers, and both indexes
    /// are ordered and exact.
    pub open spec fn wf(&self) -> bool {
        &&& self@ == offer_views(self.records())
        &&& ascending_ids(self@)
        &&& index_ascending(self.owner_index())
        &&& index_exact(self.owner_index(), self@, owner_key())
        &&& index_ascending(self.borrower_index())
        &&& index_exact(self.borrower_index(), self@, borrower_key())
    }

    /// The entries of the index by lender, in the order of offer
    /// identifiers.
    pub fn owner_entries(&self) -> (entries: &Vec<IndexEntry>)
        ensures
            entry_views(entries@) == self.owner_index(),
    {
        &self.idx.owner
    }

    /// The entries of the index by borrower, in the order of offer
    /// identifiers.
    pub fn borrower_entries(&self) -> (entries: &Vec<IndexEntry>)
        ensures
            entry_views(entries@) == self.borrower_index(),
    {
        &self.idx.borrower
    }

    /// The number of live offers.
    pub fn len(&self) -> (n: usize)
        ensures
            n == self@.len(),
    {
        self.records.len()
    }

    /// The offer at place `i` in the order of identifiers.
    pub fn get(&self, i: usize) -> (offer: &OfferResp)
        requires
            i < self@.len(),
        ensures
            offer@ == self@[i as int],
            *offer == self.records()[i as int],
    {
        &self.records[i]
    }

    /// The place of the offer `offer_id`, if it is live.
    pub fn find(&self, offer_id: u16) -> (found: Option<usize>)
        requires
            self.wf(),
        ensures
            match found {
                Some(i) => i < self@.len() && self@[i as int].offer_id == offer_id
                    && position_of(self@, offer_id) == i,
                None => !has_offer(self@, offer_id),
            },
            found is Some <==> has_offer(self@, offer_id),
    {
        let mut low: usize = 0;
        let mut high: usize = self.records.len();
        while low < high
            invariant
                low <= high <= self.records.len(),
                self@ == offer_views(self.records@),
                ascending_ids(self@),
                forall|i: int| 0 <= i < low ==> self@[i].offer_id < offer_id,
                forall|i: int| high <= i < self@.len() ==> self@[i].offer_id > offer_id,
            decreases high - low,
        {
            let mid: usize = low + (high - low) / 2;
            let id: u16 = self.records[mid].offer_id;
            assert(id == self@[mid as int].offer_id);
            if id == offer_id {
                proof {
                    lemma_position_of_offer(self@, mid as int);
                }
                return Some(mid);
            } else if id < offer_id {
                assert forall|i: int| 0 <= i < mid + 1 implies self@[i].offer_id < offer_id by {
                    if i < mid {
                        assert(self@[i].offer_id < self@[mid as int].offer_id);
                    }
                }
                low = mid + 1;
            } else {
                assert forall|i: int| mid <= i < self@.len() implies self@[i].offer_id
                    > offer_id by {
                    if mid < i {
                        assert(self@[mid as int].offer_id < self@[i].offer_id);
                    }
                }
                high = mid;
            }
        }
        None
    }

    /// Appends an offer whose identifier is greater than that of every live
    /// offer.
    pub fn insert(&mut self, offer: OfferResp)
        requires
            old(self).wf(),
            forall|i: int| 0 <= i < old(self)@.len() ==> old(self)@[i].offer_id < offer.offer_id,
        ensures
            final(self).wf(),
            final(self)@ == old(self)@.push(offer@),
    {
        let ghost before = self@;
        let ghost owners = self.owner_index();
        let ghost borrowers = self.borrower_index();
        let key = offer.owner.clone();
        let id: u16 = offer.offer_id;
        assert forall|j: int| 0 <= j < self.idx.owner.len() implies self.idx.owner[j].offer_id
            != id by {
            if self.idx.owner[j].offer_id == id {
                assert(owners.contains(owners[j]));
                let i = choose|i: int|
                    0 <= i < before.len() && (#[trigger] before[i]).offer_id == id
                        && owner_key()(before[i]) == Some(owners[j].key);
                assert(before[i].offer_id < id);
            }
        }
        assert forall|j: int| 0 <= j < self.idx.borrower.len() implies self.idx.borrower[j].offer_id
            != id by {
            if self.idx.borrower[j].offer_id == id {
                assert(borrowers.contains(borrowers[j]));
                let i = choose|i: int|
                    0 <= i < before.len() && (#[trigger] before[i]).offer_id == id
                        && borrower_key()(before[i]) == Some(borrowers[j].key);
                assert(before[i].offer_id < id);
            }
        }
        if offer.accepted {
            index_insert(&mut self.idx.borrower, offer.borrower.clone(), id);
        }
        self.records.push(offer);
        index_insert(&mut self.idx.owner, key, id);
        proof {
            assert(self@ =~= before.push(offer@));
            assert forall|i: int, j: int| 0 <= i < j < self@.len() implies (
            #[trigger] self@[i]).offer_id < (#[trigger] self@[j]).offer_id by {
                if j < before.len() {
                    assert(before[i].offer_id < before[j].offer_id);
                }
            }
            lemma_under_push(before, offer@, owner_key());
            lemma_under_push(before, offer@, borrower_key());
        }
    }

    /// Records that `borrower` has taken the offer at place `at` against
    /// the token `token_id`.
    pub fn accept(&mut self, at: usize, borrower: String, token_id: String)
        requires
            old(self).wf(),
            at < old(self)@.len(),
            !old(self)@[at as int].accepted,
        ensures
            final(self).wf(),
            final(self)@ == old(self)@.update(
                at as int,
                OfferView {
                    token_id: token_id@,
                    accepted: true,
                    borrower: borrower@,
                    ..old(self)@[at as int]
                },
            ),
    {
        let ghost before = self@;
        let ghost borrowers = self.borrower_index();
        let current = &self.records[at];
        let id: u16 = current.offer_id;
        let taken = OfferResp {
            offer_id: id,
            owner: current.owner.clone(),
            amount: current.amount,
            start_time: current.start_time,
            collection_id: current.collection_id,
            token_id,
            accepted: true,
            borrower: borrower.clone(),
        };
        let ghost changed = taken@;
        assert forall|j: int| 0 <= j < self.idx.borrower.len() implies self.idx.borrower[j].offer_id
            != id by {
            if self.idx.borrower[j].offer_id == id {
                assert(borrowers.contains(borrowers[j]));
                let i = choose|i: int|
                    0 <= i < before.len() && (#[trigger] before[i]).offer_id == id
                        && borrower_key()(before[i]) == Some(borrowers[j].key);
                lemma_position_of_offer(before, i);
                lemma_position_of_offer(before, at as int);
            }
        }
        self.records.set(at, taken);
        index_insert(&mut self.idx.borrower, borrower, id);
        proof {
            assert(self@ =~= before.update(at as int, changed));
            lemma_under_update(before, at as int, changed, owner_key());
            lemma_under_update(before, at as int, changed, borrower_key());
            assert forall|e: IndexEntryView| #[trigger]
                self.owner_index().contains(e) <==> stands_under(
                    self@,
                    owner_key(),
                    e.key,
                    e.offer_id,
                ) by {
                if stands_under(before, owner_key(), e.key, e.offer_id) && e.offer_id == id {
                    let i = choose|i: int|
                        0 <= i < before.len() && (#[trigger] before[i]).offer_id == id
                            && owner_key()(before[i]) == Some(e.key);
                    lemma_position_of_offer(before, i);
                    lemma_position_of_offer(before, at as int);
                }
                if changed.offer_id == e.offer_id && owner_key()(changed) == Some(e.key) {
                    assert(before[at as int].offer_id == id);
                    assert(stands_under(before, owner_key(), e.key, e.offer_id));
                }
            }
            assert forall|e: IndexEntryView| #[trigger]
                self.borrower_index().contains(e) <==> stands_under(
                    self@,
                    borrower_key(),
                    e.key,
                    e.offer_id,
                ) by {
                if stands_under(before, borrower_key(), e.key, e.offer_id) && e.offer_id == id {
                    let i = choose|i: int|
                        0 <= i < before.len() && (#[trigger] before[i]).offer_id == id
                            && borrower_key()(before[i]) == Some(e.key);
                    lemma_position_of_offer(before, i);
                    lemma_position_of_offer(before, at as int);
                }
            }
        }
    }

    /// Removes the offer at place `at` together with its index entries,
    /// and hands it out.
    pub fn remove(&mut self, at: usize) -> (offer: OfferResp)
        requires
            old(self).wf(),
            at < old(self)@.len(),
        ensures
            final(self).wf(),
            final(self)@ == old(self)@.remove(at as int),
            offer@ == old(self)@[at as int],
    {
        let ghost before = self@;
        let offer = self.records.remove(at);
        index_remove(&mut self.idx.owner, offer.offer_id);
        index_remove(&mut self.idx.borrower, offer.offer_id);
        proof {
            assert(self@ =~= before.remove(at as int));
            lemma_under_remove(before, at as int, owner_key());
            lemma_under_remove(before, at as int, borrower_key());
        }
        offer
    }

    /// The places of the offers that the index `index` holds under `key`.
    fn places_under(
        &self,
        index: &Vec<IndexEntry>,
        key: &String,
        Ghost(select): Ghost<spec_fn(OfferView) -> Option<Seq<char>>>,
    ) -> (places: Vec<usize>)
        requires
            self.wf(),
            index_ascending(entry_views(index@)),
            index_exact(entry_views(index@), self@, select),
        ensures
            places_within(places@, self@.len()),
            picked(self@, places@) == self@.filter(keyed(select, key@)),
    {
        let ghost offers = self@;
        let ghost entries = entry_views(index@);
        let mut places: Vec<usize> = Vec::new();
        let mut j: usize = 0;
        while j < index.len()
            invariant
                j <= index.len(),
                self.wf(),
                offers == self@,
                entries == entry_views(index@),
                index_ascending(entries),
                index_exact(entries, offers, select),
                places_within(places@, offers.len()),
                ascending_ids(picked(offers, places@)),
                forall|k: int|
                    0 <= k < places.len() ==> select(#[trigger] picked(offers, places@)[k])
                        == Some(key@),
                forall|k: int, j2: int|
                    0 <= k < places.len() && j <= j2 < entries.len() ==> (#[trigger] picked(
                        offers,
                        places@,
                    )[k]).offer_id < (#[trigger] entries[j2]).offer_id,
                forall|j1: int|
                    0 <= j1 < j && (#[trigger] entries[j1]).key == key@ ==> exists|k: int|
                        0 <= k < places.len() && (#[trigger] picked(offers, places@)[k]).offer_id
                            == entries[j1].offer_id,
            decreases index.len() - j,
        {
            let ghost chosen = picked(offers, places@);
            assert(entries[j as int] == index[j as int]@);
            if index[j].key == *key {
                assert(entries.contains(entries[j as int]));
                assert(stands_under(offers, select, key@, entries[j as int].offer_id));
                match self.find(index[j].offer_id) {
                    Some(at) => {
                        let ghost i = choose|i: int|
                            0 <= i < offers.len() && (#[trigger] offers[i]).offer_id
                                == entries[j as int].offer_id && select(offers[i]) == Some(key@);
                        proof {
                            lemma_position_of_offer(offers, i);
                        }
                        places.push(at);
                        proof {
                            let grown = picked(offers, places@);
                            assert(grown =~= chosen.push(offers[at as int]));
                            assert forall|a: int, b: int| 0 <= a < b < grown.len() implies (
                            #[trigger] grown[a]).offer_id < (#[trigger] grown[b]).offer_id by {
                                if b < chosen.len() {
                                    assert(chosen[a].offer_id < chosen[b].offer_id);
                                } else {
                                    assert(chosen[a].offer_id < entries[j as int].offer_id);
                                }
                            }
                            assert forall|k: int, j2: int|
                                0 <= k < places.len() && j + 1 <= j2 < entries.len() implies (
                            #[trigger] grown[k]).offer_id < (#[trigger] entries[j2]).offer_id by {
                                if k < chosen.len() {
                                    assert(chosen[k].offer_id < entries[j2].offer_id);
                                } else {
                                    assert(entries[j as int].offer_id < entries[j2].offer_id);
                                }
                            }
                            assert forall|j1: int|
                                0 <= j1 < j + 1 && (#[trigger] entries[j1]).key
                                    == key@ implies exists|k: int|
                                0 <= k < places.len() && (#[trigger] grown[k]).offer_id
                                    == entries[j1].offer_id by {
                                if j1 < j {
                                    let k = choose|k: int|
                                        0 <= k < chosen.len() && (#[trigger] chosen[k]).offer_id
                                            == entries[j1].offer_id;
                                    assert(grown[k].offer_id == entries[j1].offer_id);
                                } else {
                                    assert(grown[chosen.len() as int].offer_id
                                        == entries[j1].offer_id);
                                }
                            }
                        }
                    },
                    None => {},
                }
            }
            j += 1;
        }
        proof {
            let chosen = picked(offers, places@);
            let keep = keyed(select, key@);
            assert forall|k: int| 0 <= k < chosen.len() implies offers.contains(
                #[trigger] chosen[k],
            ) && keep(chosen[k]) by {
                assert(places@[k] < offers.len());
                assert(offers[places@[k] as int] == chosen[k]);
            }
            assert forall|i: int| 0 <= i < offers.len() && keep(
                #[trigger] offers[i],
            ) implies chosen.contains(offers[i]) by {
                let e = IndexEntryView { key: key@, offer_id: offers[i].offer_id };
                assert(stands_under(offers, select, e.key, e.offer_id));
                assert(entries.contains(e));
                let j1 = choose|j1: int| 0 <= j1 < entries.len() && entries[j1] == e;
                let k = choose|k: int|
                    0 <= k < places.len() && (#[trigger] chosen[k]).offer_id
                        == entries[j1].offer_id;
                lemma_position_of_offer(offers, i);
                lemma_position_of_offer(offers, places@[k] as int);
            }
            lemma_ascending_selection(offers, chosen, keep);
        }
        places
    }

    /// The places of the offers whose lender is `owner`, found through the
    /// index by lender.
    pub fn places_lent_by(&self, owner: &String) -> (places: Vec<usize>)
        requires
            self.wf(),
        ensures
            places_within(places@, self@.len()),
            picked(self@, places@) == offers_lent_by(self@, owner@),
    {
        self.places_under(&self.idx.owner, owner, Ghost(owner_key()))
    }

    /// The places of the offers that `borrower` has taken, found through
    /// the index by borrower.
    pub fn places_taken_by(&self, borrower: &String) -> (places: Vec<usize>)
        requires
            self.wf(),
        ensures
            places_within(places@, self@.len()),
            picked(self@, places@) == offers_taken_by(self@, borrower@),
    {
        self.places_under(&self.idx.borrower, borrower, Ghost(borrower_key()))
    }
}

} // verus!
