//! The store: registry of collections, configuration, lending denomination,
//! offer counter and offer ledger, held in one value that every operation
//! takes explicitly. From outside the crate a store is read freely and
//! changed through the operations only.

use vstd::prelude::*;
use crate::ledger::{
    ascending_ids, index_ascending, lent_by, offer_resps, taken_by, IndexEntryView, Offers,
};
use crate::msg::{
    no_borrower, CollectionView, ConfigView, ContractConfig, NFTCollectionResp, OfferResp,
    OfferView,
};
use crate::registry::Registry;

verus! {

/// The store as specifications see it.
pub struct StateView {
    pub collections: Map<u16, CollectionView>,
    pub last_offer_index: u16,
    pub lend_denom: Seq<char>,
    pub config: ConfigView,
    pub offers: Seq<OfferView>,
}

/// The offer that lending creates.
pub open spec fn new_offer(
    offer_id: u16,
    owner: Seq<char>,
    amount: u128,
    start_time: u64,
    collection_id: u16,
) -> OfferView {
    OfferView {
        offer_id,
        owner,
        amount,
        start_time,
        collection_id,
        token_id: Seq::empty(),
        accepted: false,
        borrower: no_borrower(),
    }
}

impl StateView {
    /// What holds of the store between operations: offers stand in the order
    /// of their identifiers, none of which exceeds the counter; each offer
    /// refers to a registered collection; an offer that nobody has taken
    /// names no borrower and no collateral.
    pub open spec fn valid(self) -> bool {
        &&& ascending_ids(self.offers)
        &&& forall|i: int|
            0 <= i < self.offers.len() ==> {
                &&& (#[trigger] self.offers[i]).offer_id <= self.last_offer_index
                &&& self.collections.contains_key(self.offers[i].collection_id)
                &&& self.offers[i].open_fields_blank()
            }
    }

    /// Every offer that was taken names its borrower and its collateral.
    pub open spec fn taken_offers_named(self) -> bool {
        forall|i: int| 0 <= i < self.offers.len() ==> (#[trigger] self.offers[i]).taken_fields_set()
    }
}

/// The store that holds the given parts.
pub open spec fn restored_view(
    config: ConfigView,
    lend_denom: Seq<char>,
    last_offer_index: u16,
    collections: Seq<CollectionView>,
    offers: Seq<OfferView>,
) -> StateView {
    StateView {
        collections: crate::registry::registered(Map::empty(), collections),
        last_offer_index,
        lend_denom,
        config,
        offers,
    }
}

/// The store.
#[derive(Clone, Debug, PartialEq, Eq)]
pub struct State {
    nft_collections: Registry,
    last_offer_index: u16,
    lend_denom: String,
    config: ContractConfig,
    offers: Offers,
}

impl View for State {
    type V = StateView;

    closed spec fn view(&self) -> StateView {
        StateView {
            collections: self.nft_collections@,
            last_offer_index: self.last_offer_index,
            lend_denom: self.lend_denom@,
            config: self.config@,
            offers: self.offers@,
        }
    }
}

impl State {
    /// The registry and the ledger are each in order.
    pub closed spec fn parts_wf(&self) -> bool {
        &&& self.nft_collections.wf()
        &&& self.offers.wf()
    }

    /// The store is in order.
    pub open spec fn wf(&self) -> bool {
        &&& self.parts_wf()
        &&& self@.valid()
    }

    /// The ledger's index by lender.
    pub closed spec fn owner_index(&self) -> Seq<IndexEntryView> {
        self.offers.owner_index()
    }

    /// The ledger's index by borrower.
    pub closed spec fn borrower_index(&self) -> Seq<IndexEntryView> {
        self.offers.borrower_index()
    }

    /// A store without offers, whose counter stands at zero.
    pub fn new(config: ContractConfig, lend_denom: String, collections: Vec<NFTCollectionResp>) -> (
        store: State
    )
        ensures
            store.wf(),
            store@ == (StateView {
                collections: crate::registry::registered(
                    Map::empty(),
                    crate::msg::collection_views(collections@),
                ),
                last_offer_index: 0,
                lend_denom: lend_denom@,
                config: config@,
                offers: Seq::empty(),
            }),
    {
        let mut nft_collections = Registry::new();
        nft_collections.upsert_all(collections);
        State { nft_collections, last_offer_index: 0, lend_denom, config, offers: offer_resps() }
    }

    /// The store that holds the given parts, where they make a store that
    /// is in order: the offers stand in the order of their identifiers, none
    /// of which exceeds `last_offer_index`; each refers to one of
    /// `collections`; and one that nobody has taken names no borrower and no
    /// token. Else `None`.
    pub fn restore(
        config: ContractConfig,
        lend_denom: String,
        last_offer_index: u16,
        collections: Vec<NFTCollectionResp>,
        offers: Vec<OfferResp>,
    ) -> (restored: Option<State>)
        ensures
            restored is Some <==> restored_view(
                config@,
                lend_denom@,
                last_offer_index,
                crate::msg::collection_views(collections@),
                crate::msg::offer_views(offers@),
            ).valid(),
            restored matches Some(store) ==> store.wf() && store@ == restored_view(
                config@,
                lend_denom@,
                last_offer_index,
                crate::msg::collection_views(collections@),
                crate::msg::offer_views(offers@),
            ),
    {
        let ghost wanted = restored_view(
            config@,
            lend_denom@,
            last_offer_index,
            crate::msg::collection_views(collections@),
            crate::msg::offer_views(offers@),
        );
        let mut store = State::new(config, lend_denom, collections);
        store.last_offer_index = last_offer_index;
        let blank = String::new();
        let nobody = "none".to_owned();
        let n: usize = offers.len();
        let mut i: usize = 0;
        assert(wanted.offers.take(0) =~= Seq::<OfferView>::empty());
        while i < n
            invariant
                i <= n,
                n == offers.len(),
                wanted == restored_view(
                    config@,
                    lend_denom@,
                    last_offer_index,
                    crate::msg::collection_views(collections@),
                    crate::msg::offer_views(offers@),
                ),
                blank@ == Seq::<char>::empty(),
                nobody@ == no_borrower(),
                store.wf(),
                store@ == (StateView { offers: wanted.offers.take(i as int), ..wanted }),
            decreases n - i,
        {
            let offer = &offers[i];
            let ghost view = wanted.offers[i as int];
            let ghost held = store@.offers;
            assert(offer@ == view);
            assert(view.token_id.len() == 0 <==> view.token_id =~= Seq::<char>::empty());
            if offer.offer_id > last_offer_index {
                return None;
            }
            if i > 0 && offers[i - 1].offer_id >= offer.offer_id {
                assert(wanted.offers[i - 1] == offers[i - 1]@);
                assert(wanted.valid() ==> wanted.offers[i - 1].offer_id < wanted.offers[i
                    as int].offer_id);
                return None;
            }
            if store.nft_collections.get(offer.collection_id).is_none() {
                return None;
            }
            if !offer.accepted && !(offer.borrower == nobody && offer.token_id == blank) {
                return None;
            }
            proof {
                assert forall|k: int| 0 <= k < held.len() implies held[k].offer_id
                    < offer.offer_id by {
                    assert(held[k] == wanted.offers[k]);
                    assert(wanted.offers[i - 1] == offers[i - 1]@);
                    assert(held[i - 1] == wanted.offers[i - 1]);
                    if k < i - 1 {
                        assert(held[k].offer_id < held[i - 1].offer_id);
                    }
                }
                assert(wanted.offers.take(i + 1) =~= wanted.offers.take(i as int).push(view));
            }
            store.offers.insert(offer.clone());
            proof {
                let grown = store@.offers;
                assert(grown == held.push(view));
                assert forall|k: int| 0 <= k < grown.len() implies {
                    &&& (#[trigger] grown[k]).offer_id <= store@.last_offer_index
                    &&& store@.collections.contains_key(grown[k].collection_id)
                    &&& grown[k].open_fields_blank()
                } by {
                    if k < held.len() {
                        assert(grown[k] == held[k]);
                    }
                }
                assert forall|a: int, b: int| 0 <= a < b < grown.len() implies (
                #[trigger] grown[a]).offer_id < (#[trigger] grown[b]).offer_id by {
                    if b < held.len() {
                        assert(held[a].offer_id < held[b].offer_id);
                    }
                }
            }
            i += 1;
        }
        assert(wanted.offers.take(n as int) =~= wanted.offers);
        Some(store)
    }

    /// The configuration.
    pub fn config(&self) -> (config: &ContractConfig)
        ensures
            config@ == self@.config,
    {
        &self.config
    }

    /// The denomination in which loans are made.
    pub fn lend_denom(&self) -> (denom: &String)
        ensures
            denom@ == self@.lend_denom,
    {
        &self.lend_denom
    }

    /// The identifier given to the offer made last.
    pub fn last_offer_index(&self) -> (last: u16)
        ensures
            last == self@.last_offer_index,
    {
        self.last_offer_index
    }

    /// The registry of collections.
    pub fn registry(&self) -> (registry: &Registry)
        ensures
            registry@ == self@.collections,
            self.wf() ==> registry.wf(),
    {
        &self.nft_collections
    }

    /// The offer ledger.
    pub fn ledger(&self) -> (ledger: &Offers)
        ensures
            ledger@ == self@.offers,
            ledger.owner_index() == self.owner_index(),
            ledger.borrower_index() == self.borrower_index(),
            self.wf() ==> ledger.wf(),
    {
        &self.offers
    }

    /// Adds an offer of `amount` by `owner` against the collection
    /// `collection_id` under the next identifier, which it returns.
    pub(crate) fn open_offer(
        &mut self,
        owner: String,
        amount: u128,
        start_time: u64,
        collection_id: u16,
    ) -> (offer_id: u16)
        requires
            old(self).wf(),
            old(self)@.last_offer_index < u16::MAX,
            old(self)@.collections.contains_key(collection_id),
        ensures
            final(self).wf(),
            offer_id == old(self)@.last_offer_index + 1,
            final(self)@ == (StateView {
                last_offer_index: offer_id,
                offers: old(self)@.offers.push(
                    new_offer(offer_id, owner@, amount, start_time, collection_id),
                ),
                ..old(self)@
            }),
    {
        let offer_id: u16 = self.last_offer_index + 1;
        let offer = OfferResp {
            offer_id,
            owner,
            amount,
            start_time,
            collection_id,
            token_id: String::new(),
            accepted: false,
            borrower: "none".to_owned(),
        };
        self.offers.insert(offer);
        self.last_offer_index = offer_id;
        offer_id
    }

    /// Records that `borrower` has taken the offer at place `at` against
    /// the token `token_id`.
    pub(crate) fn accept_offer(&mut self, at: usize, borrower: String, token_id: String)
        requires
            old(self).wf(),
            at < old(self)@.offers.len(),
            !old(self)@.offers[at as int].accepted,
        ensures
            final(self).wf(),
            final(self)@ == (StateView {
                offers: old(self)@.offers.update(
                    at as int,
                    OfferView {
                        token_id: token_id@,
                        accepted: true,
                        borrower: borrower@,
                        ..old(self)@.offers[at as int]
                    },
                ),
                ..old(self)@
            }),
    {
        self.offers.accept(at, borrower, token_id);
    }

    /// Removes the offer at place `at` from the ledger and hands it out.
    pub(crate) fn close_offer(&mut self, at: usize) -> (offer: OfferResp)
        requires
            old(self).wf(),
            at < old(self)@.offers.len(),
        ensures
            final(self).wf(),
            offer@ == old(self)@.offers[at as int],
            final(self)@ == (StateView {
                offers: old(self)@.offers.remove(at as int),
                ..old(self)@
            }),
    {
        let ghost before = self@.offers;
        let offer = self.offers.remove(at);
        proof {
            let after = self@.offers;
            assert forall|i: int| 0 <= i < after.len() implies {
                &&& (#[trigger] after[i]).offer_id <= self@.last_offer_index
                &&& self@.collections.contains_key(after[i].collection_id)
                &&& after[i].open_fields_blank()
            } by {
                let a = if i < at { i } else { i + 1 };
                assert(after[i] == before[a]);
            }
        }
        offer
    }

    /// Registers `collection` under its identifier, in place of the terms
    /// that were registered under it, if any.
    pub(crate) fn put_collection(&mut self, collection: NFTCollectionResp)
        requires
            old(self).wf(),
        ensures
            final(self).wf(),
            final(self)@ == (StateView {
                collections: old(self)@.collections.insert(
                    collection.collection_id,
                    collection@,
                ),
                ..old(self)@
            }),
    {
        self.nft_collections.upsert(collection);
    }

    /// Sets the floor price of the collection `collection_id`, and says
    /// whether the collection is registered.
    pub(crate) fn set_floor_price(&mut self, collection_id: u16, floor_price: u128) -> (known: bool)
        requires
            old(self).wf(),
        ensures
            final(self).wf(),
            known == old(self)@.collections.contains_key(collection_id),
            known ==> final(self)@ == (StateView {
                collections: old(self)@.collections.insert(
                    collection_id,
                    CollectionView { floor_price, ..old(self)@.collections[collection_id] },
                ),
                ..old(self)@
            }),
            !known ==> final(self)@ == old(self)@,
    {
        self.nft_collections.set_floor_price(collection_id, floor_price)
    }

    /// Makes `admin` the administrator.
    pub(crate) fn set_admin(&mut self, admin: String)
        requires
            old(self).wf(),
        ensures
            final(self).wf(),
            final(self)@ == (StateView {
                config: ConfigView { admin: admin@, ..old(self)@.config },
                ..old(self)@
            }),
    {
        self.config.admin = admin;
    }

    /// Sets the lender's share of interest, in percentage points.
    pub(crate) fn set_interest(&mut self, interest: u128)
        requires
            old(self).wf(),
        ensures
            final(self).wf(),
            final(self)@ == (StateView {
                config: ConfigView { interest, ..old(self)@.config },
                ..old(self)@
            }),
    {
        self.config.interest = interest;
    }

    /// Under each lender the index by lender holds the identifiers of
    /// exactly the live offers of that lender, and under each borrower the
    /// index by borrower those of exactly the live offers that the borrower
    /// has taken; both are ordered by identifier.
    pub proof fn lemma_indexes_exact(&self)
        requires
            self.wf(),
        ensures
            index_ascending(self.owner_index()),
            index_ascending(self.borrower_index()),
            forall|owner: Seq<char>, offer_id: u16| #[trigger]
                self.owner_index().contains(IndexEntryView { key: owner, offer_id }) <==> lent_by(
                    self@.offers,
                    owner,
                    offer_id,
                ),
            forall|borrower: Seq<char>, offer_id: u16| #[trigger]
                self.borrower_index().contains(IndexEntryView { key: borrower, offer_id })
                    <==> taken_by(self@.offers, borrower, offer_id),
    {
    }
}

} // verus!
