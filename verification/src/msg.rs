//! The records that the store keeps and the requests that reach it.

use vstd::prelude::*;

verus! {

/// The text that stands in an offer's `borrower` while nobody has taken it.
pub open spec fn no_borrower() -> Seq<char> {
    "none"@
}

/// A lender's offer, and the loan it becomes once a borrower takes it.
#[derive(Debug, PartialEq, Eq)]
pub struct OfferResp {
    pub offer_id: u16,
    pub owner: String,
    pub amount: u128,
    pub start_time: u64,
    pub collection_id: u16,
    pub token_id: String,
    pub accepted: bool,
    pub borrower: String,
}

/// An offer as specifications see it.
pub struct OfferView {
    pub offer_id: u16,
    pub owner: Seq<char>,
    pub amount: u128,
    pub start_time: u64,
    pub collection_id: u16,
    pub token_id: Seq<char>,
    pub accepted: bool,
    pub borrower: Seq<char>,
}

impl View for OfferResp {
    type V = OfferView;

    open spec fn view(&self) -> OfferView {
        OfferView {
            offer_id: self.offer_id,
            owner: self.owner@,
            amount: self.amount,
            start_time: self.start_time,
            collection_id: self.collection_id,
            token_id: self.token_id@,
            accepted: self.accepted,
            borrower: self.borrower@,
        }
    }
}

impl Clone for OfferResp {
    fn clone(&self) -> (copy: Self)
        ensures
            copy@ == self@,
    {
        OfferResp {
            offer_id: self.offer_id,
            owner: self.owner.clone(),
            amount: self.amount,
            start_time: self.start_time,
            collection_id: self.collection_id,
            token_id: self.token_id.clone(),
            accepted: self.accepted,
            borrower: self.borrower.clone(),
        }
    }
}

impl OfferView {
    /// An offer that nobody has taken names no borrower and no collateral.
    pub open spec fn open_fields_blank(self) -> bool {
        !self.accepted ==> self.borrower == no_borrower() && self.token_id.len() == 0
    }

    /// An offer that was taken names its borrower and its collateral.
    pub open spec fn taken_fields_set(self) -> bool {
        self.accepted ==> self.borrower != no_borrower() && self.token_id.len() > 0
    }
}

/// The terms under which loans are made against one collection of tokens.
#[derive(Debug, PartialEq, Eq)]
pub struct NFTCollectionResp {
    pub collection_id: u16,
    pub collection: String,
    /// The most that may be lent against a token of the collection.
    pub floor_price: u128,
    /// The address of the contract that transfers the collection's tokens.
    pub contract: String,
    /// Interest for one year, in percentage points.
    pub apy: u16,
    /// Seconds after the offer's start beyond which the loan is in default.
    pub max_time: u64,
}

/// A collection's terms as specifications see them.
pub struct CollectionView {
    pub collection_id: u16,
    pub collection: Seq<char>,
    pub floor_price: u128,
    pub contract: Seq<char>,
    pub apy: u16,
    pub max_time: u64,
}

impl View for NFTCollectionResp {
    type V = CollectionView;

    open spec fn view(&self) -> CollectionView {
        CollectionView {
            collection_id: self.collection_id,
            collection: self.collection@,
            floor_price: self.floor_price,
            contract: self.contract@,
            apy: self.apy,
            max_time: self.max_time,
        }
    }
}

impl Clone for NFTCollectionResp {
    fn clone(&self) -> (copy: Self)
        ensures
            copy@ == self@,
    {
        NFTCollectionResp {
            collection_id: self.collection_id,
            collection: self.collection.clone(),
            floor_price: self.floor_price,
            contract: self.contract.clone(),
            apy: self.apy,
            max_time: self.max_time,
        }
    }
}

/// The administrator and the share of interest, in percentage points, that
/// goes to the lender.
#[derive(Debug, PartialEq, Eq)]
pub struct ContractConfig {
    pub admin: String,
    pub interest: u128,
}

/// The configuration as specifications see it.
pub struct ConfigView {
    pub admin: Seq<char>,
    pub interest: u128,
}

impl View for ContractConfig {
    type V = ConfigView;

    open spec fn view(&self) -> ConfigView {
        ConfigView { admin: self.admin@, interest: self.interest }
    }
}

impl Clone for ContractConfig {
    fn clone(&self) -> (copy: Self)
        ensures
            copy@ == self@,
    {
        ContractConfig { admin: self.admin.clone(), interest: self.interest }
    }
}

/// The views of a sequence of offers, one for one.
pub open spec fn offer_views(offers: Seq<OfferResp>) -> Seq<OfferView> {
    offers.map_values(|o: OfferResp| o@)
}

/// The views of a sequence of collections, one for one.
pub open spec fn collection_views(collections: Seq<NFTCollectionResp>) -> Seq<CollectionView> {
    collections.map_values(|c: NFTCollectionResp| c@)
}

/// A page of offers.
#[derive(Clone, Debug, PartialEq, Eq)]
pub struct OfferListResp {
    pub offers: Vec<OfferResp>,
}

/// A list of collections.
#[derive(Clone, Debug, PartialEq, Eq)]
pub struct NFTCollectionListResp {
    pub nftcollections: Vec<NFTCollectionResp>,
}

/// What the store is created from.
#[derive(Clone, Debug, PartialEq, Eq)]
pub struct InstantiateMsg {
    pub nft_collections: Vec<NFTCollectionResp>,
    pub admin: String,
    pub interest: u128,
}

/// A request that may change the store.
#[derive(Clone, Debug, PartialEq, Eq)]
pub enum ExecuteMsg {
    Lend { amount: u128, collection_id: u16 },
    CancelOffer { offer_id: u16 },
    Borrow { offer_id: u16, token_id: String },
    UpdateFloorPrice { collection_id: u16, new_floor_price: u128 },
    AddNFTCollection { collection: NFTCollectionResp },
    UpdateAdmin { new_admin: String },
    UpdateInterest { interest: u128 },
    Repay { offer_id: u16 },
}

/// A request as specifications see it.
pub enum ExecuteMsgView {
    Lend { amount: u128, collection_id: u16 },
    CancelOffer { offer_id: u16 },
    Borrow { offer_id: u16, token_id: Seq<char> },
    UpdateFloorPrice { collection_id: u16, new_floor_price: u128 },
    AddNFTCollection { collection: CollectionView },
    UpdateAdmin { new_admin: Seq<char> },
    UpdateInterest { interest: u128 },
    Repay { offer_id: u16 },
}

impl View for ExecuteMsg {
    type V = ExecuteMsgView;

    open spec fn view(&self) -> ExecuteMsgView {
        match *self {
            ExecuteMsg::Lend { amount, collection_id } => ExecuteMsgView::Lend {
                amount,
                collection_id,
            },
            ExecuteMsg::CancelOffer { offer_id } => ExecuteMsgView::CancelOffer { offer_id },
            ExecuteMsg::Borrow { offer_id, token_id } => ExecuteMsgView::Borrow {
                offer_id,
                token_id: token_id@,
            },
            ExecuteMsg::UpdateFloorPrice {
                collection_id,
                new_floor_price,
            } => ExecuteMsgView::UpdateFloorPrice { collection_id, new_floor_price },
            ExecuteMsg::AddNFTCollection { collection } => ExecuteMsgView::AddNFTCollection {
                collection: collection@,
            },
            ExecuteMsg::UpdateAdmin { new_admin } => ExecuteMsgView::UpdateAdmin {
                new_admin: new_admin@,
            },
            ExecuteMsg::UpdateInterest { interest } => ExecuteMsgView::UpdateInterest { interest },
            ExecuteMsg::Repay { offer_id } => ExecuteMsgView::Repay { offer_id },
        }
    }
}

/// A request that only reads the store.
#[derive(Clone, Debug, PartialEq, Eq)]
pub enum QueryMsg {
    OfferList { page_size: u16, page_num: u16 },
    OfferByID { offer_id: u16 },
    OffersByOwner { owner: String, page_size: u16, page_num: u16 },
    OffersAcceptByBorrow { borrower: String, page_size: u16, page_num: u16 },
    OffersByPrice { page: u16, page_size: u16, limit: u128, sort: bool },
    CollectionByID { collection_id: u16 },
    QueryAdmin {  },
}

} // verus!
