//! Questions that only read the store: single records, and pages of offers
//! in the order of their identifiers or of their amounts.

use vstd::prelude::*;
use crate::error::ContractError;
use crate::ledger::{
    ascending_ids, has_offer, offers_lent_by, offers_taken_by, picked, places_within,
    position_of, Offers,
};
use crate::msg::{
    offer_views, CollectionView, ConfigView, ContractConfig, NFTCollectionResp, OfferResp,
    OfferView, QueryMsg,
};
use crate::state::{State, StateView};

verus! {

/// Where the page `page_num` of `page_size` items begins in a sequence of
/// `len` items. Pages are counted from one; a page that does not exist
/// begins at the end.
pub open spec fn page_start(len: nat, page_size: u16, page_num: u16) -> nat {
    if page_num == 0 || (page_num - 1) * page_size >= len {
        len
    } else {
        ((page_num - 1) * page_size) as nat
    }
}

/// Where the page `page_num` of `page_size` items ends in a sequence of
/// `len` items.
pub open spec fn page_end(len: nat, page_size: u16, page_num: u16) -> nat {
    let start = page_start(len, page_size, page_num);
    if start + page_size >= len {
        len
    } else {
        (start + page_size) as nat
    }
}

/// The page `page_num` of `items`, each page holding `page_size` items: what
/// is left of `items` after `(page_num - 1) * page_size` of them, cut to
/// `page_size`. A page past the end is empty, and so is the page zero.
pub open spec fn page_of<T>(items: Seq<T>, page_size: u16, page_num: u16) -> Seq<T> {
    items.subrange(
        page_start(items.len(), page_size, page_num) as int,
        page_end(items.len(), page_size, page_num) as int,
    )
}

/// In a ledger that holds the offers 1 to `offers.len()`, a page holds the
/// identifiers from `(page_num - 1) * page_size + 1` up to
/// `page_num * page_size`, or up to the last offer where that comes first,
/// in ascending order; a page that begins past the last offer is empty.
pub proof fn lemma_page_of_dense_ledger(offers: Seq<OfferView>, page_size: u16, page_num: u16)
    requires
        page_num >= 1,
        forall|i: int| 0 <= i < offers.len() ==> (#[trigger] offers[i]).offer_id == i + 1,
    ensures
        (page_num - 1) * page_size >= offers.len() ==> page_of(offers, page_size, page_num).len()
            == 0,
        (page_num - 1) * page_size < offers.len() ==> page_of(offers, page_size, page_num).len()
            == (if page_num * page_size <= offers.len() {
            page_num * page_size
        } else {
            offers.len() as int
        }) - (page_num - 1) * page_size,
        forall|j: int|
            0 <= j < page_of(offers, page_size, page_num).len() ==> (#[trigger] page_of(
                offers,
                page_size,
                page_num,
            )[j]).offer_id == (page_num - 1) * page_size + 1 + j,
{
    assert(page_num * page_size == (page_num - 1) * page_size + page_size) by (nonlinear_arith);
}

/// The bounds of a page in a sequence of `len` items.
fn page_bounds(len: usize, page_size: u16, page_num: u16) -> (bounds: (usize, usize))
    ensures
        bounds.0 == page_start(len as nat, page_size, page_num),
        bounds.1 == page_end(len as nat, page_size, page_num),
        bounds.0 <= bounds.1 <= len,
{
    if page_num == 0 {
        return (len, len);
    }
    assert((page_num - 1) * page_size <= 65534 * 65535) by (nonlinear_arith)
        requires
            1 <= page_num <= 65535,
            0 <= page_size <= 65535,
    ;
    let skip: u64 = (page_num as u64 - 1) * (page_size as u64);
    if skip >= len as u64 {
        return (len, len);
    }
    let start: usize = skip as usize;
    if page_size as usize >= len - start {
        (start, len)
    } else {
        (start, start + page_size as usize)
    }
}

/// Copies the page `page_num` of the offers that stand at `places`.
fn page_at(ledger: &Offers, places: &Vec<usize>, page_size: u16, page_num: u16) -> (page: Vec<
    OfferResp,
>)
    requires
        places_within(places@, ledger@.len()),
    ensures
        offer_views(page@) == page_of(picked(ledger@, places@), page_size, page_num),
{
    let ghost all = picked(ledger@, places@);
    let bounds = page_bounds(places.len(), page_size, page_num);
    let mut page: Vec<OfferResp> = Vec::new();
    let mut k: usize = bounds.0;
    while k < bounds.1
        invariant
            bounds.0 <= k <= bounds.1 <= places.len(),
            places_within(places@, ledger@.len()),
            all == picked(ledger@, places@),
            offer_views(page@) == all.subrange(bounds.0 as int, k as int),
        decreases bounds.1 - k,
    {
        let ghost copied = offer_views(page@);
        let offer = ledger.get(places[k]).clone();
        assert(offer@ == all[k as int]);
        page.push(offer);
        assert(offer_views(page@) =~= copied.push(all[k as int]));
        assert(copied.push(all[k as int]) =~= all.subrange(bounds.0 as int, k + 1));
        k += 1;
    }
    page
}

/// The places of all offers, in order.
fn all_places(ledger: &Offers) -> (places: Vec<usize>)
    ensures
        places_within(places@, ledger@.len()),
        picked(ledger@, places@) == ledger@,
{
    let n: usize = ledger.len();
    let mut places: Vec<usize> = Vec::new();
    let mut i: usize = 0;
    while i < n
        invariant
            i <= n,
            n == ledger@.len(),
            places.len() == i,
            forall|k: int| 0 <= k < i ==> places[k] == k,
        decreases n - i,
    {
        places.push(i);
        i += 1;
    }
    assert(picked(ledger@, places@) =~= ledger@);
    places
}

/// A page of all offers, in the order of their identifiers.
pub fn offer_list(store: &State, page_size: u16, page_num: u16) -> (page: Vec<OfferResp>)
    requires
        store.wf(),
    ensures
        offer_views(page@) == page_of(store@.offers, page_size, page_num),
{
    let ledger = store.ledger();
    let places = all_places(ledger);
    page_at(ledger, &places, page_size, page_num)
}

/// The offer `offer_id`, if it is live.
pub fn offer_by_id(store: &State, offer_id: u16) -> (found: Result<OfferResp, ContractError>)
    requires
        store.wf(),
    ensures
        match found {
            Ok(offer) => has_offer(store@.offers, offer_id) && offer@
                == store@.offers[position_of(store@.offers, offer_id)],
            Err(error) => !has_offer(store@.offers, offer_id) && error
                == ContractError::OfferNotFound,
        },
{
    let ledger = store.ledger();
    match ledger.find(offer_id) {
        Some(at) => Ok(ledger.get(at).clone()),
        None => Err(ContractError::OfferNotFound),
    }
}

/// A page of the offers whose lender is `owner`, in the order of their
/// identifiers.
pub fn get_offers_by_owner(store: &State, owner: &String, page_size: u16, page_num: u16) -> (page:
    Vec<OfferResp>)
    requires
        store.wf(),
    ensures
        offer_views(page@) == page_of(
            offers_lent_by(store@.offers, owner@),
            page_size,
            page_num,
        ),
{
    let ledger = store.ledger();
    let places = ledger.places_lent_by(owner);
    page_at(ledger, &places, page_size, page_num)
}

/// A page of the offers that `borrower` has taken, in the order of their
/// identifiers.
pub fn get_offers_accept_by_borrower(
    store: &State,
    borrower: &String,
    page_size: u16,
    page_num: u16,
) -> (page: Vec<OfferResp>)
    requires
        store.wf(),
    ensures
        offer_views(page@) == page_of(
            offers_taken_by(store@.offers, borrower@),
            page_size,
            page_num,
        ),
{
    let ledger = store.ledger();
    let places = ledger.places_taken_by(borrower);
    page_at(ledger, &places, page_size, page_num)
}

/// Whether `a` comes before `b` where offers are listed by amount: the
/// greater amount first if `descending`, else the smaller; of two offers of
/// the same amount, the one with the smaller identifier.
pub open spec fn price_before(a: OfferView, b: OfferView, descending: bool) -> bool {
    if a.amount == b.amount {
        a.offer_id < b.offer_id
    } else if descending {
        a.amount > b.amount
    } else {
        a.amount < b.amount
    }
}

/// Each offer of `offers` comes before those that follow it.
pub open spec fn in_price_order(offers: Seq<OfferView>, descending: bool) -> bool {
    forall|i: int, j: int|
        0 <= i < j < offers.len() ==> price_before(
            #[trigger] offers[i],
            #[trigger] offers[j],
            descending,
        )
}

/// The two sequences hold the same offers.
pub open spec fn same_offers(a: Seq<OfferView>, b: Seq<OfferView>) -> bool {
    forall|o: OfferView| a.contains(o) <==> b.contains(o)
}

/// The offers of `offers` listed by amount.
pub open spec fn by_price(offers: Seq<OfferView>, descending: bool) -> Seq<OfferView> {
    choose|listed: Seq<OfferView>|
        in_price_order(listed, descending) && same_offers(listed, offers)
}

/// The offers whose amount exceeds `limit`.
pub open spec fn above(limit: u128) -> spec_fn(OfferView) -> bool {
    |o: OfferView| o.amount > limit
}

/// There is one way only to list given offers by amount.
pub proof fn lemma_price_order_unique(a: Seq<OfferView>, b: Seq<OfferView>, descending: bool)
    requires
        in_price_order(a, descending),
        in_price_order(b, descending),
        same_offers(a, b),
    ensures
        a == b,
    decreases a.len(),
{
    if a.len() == 0 {
        if b.len() > 0 {
            assert(b.contains(b[0]));
        }
        assert(a =~= b);
    } else {
        let x = a.last();
        assert(a[a.len() - 1] == x);
        assert(a.contains(x));
        let k = choose|k: int| 0 <= k < b.len() && b[k] == x;
        if k < b.len() - 1 {
            let y = b[b.len() - 1];
            assert(price_before(b[k], y, descending));
            assert(b.contains(y));
            let m = choose|m: int| 0 <= m < a.len() && a[m] == y;
            if m < a.len() - 1 {
                assert(price_before(a[m], a[a.len() - 1], descending));
            }
        }
        let fewer_a = a.drop_last();
        let fewer_b = b.drop_last();
        assert forall|o: OfferView| fewer_a.contains(o) <==> fewer_b.contains(o) by {
            if fewer_a.contains(o) {
                let i = choose|i: int| 0 <= i < fewer_a.len() && fewer_a[i] == o;
                assert(a[i] == o);
                assert(price_before(a[i], a[a.len() - 1], descending));
                assert(a.contains(o));
                let j = choose|j: int| 0 <= j < b.len() && b[j] == o;
                assert(fewer_b[j] == o);
            }
            if fewer_b.contains(o) {
                let i = choose|i: int| 0 <= i < fewer_b.len() && fewer_b[i] == o;
                assert(b[i] == o);
                assert(price_before(b[i], b[b.len() - 1], descending));
                assert(b.contains(o));
                let j = choose|j: int| 0 <= j < a.len() && a[j] == o;
                assert(fewer_a[j] == o);
            }
        }
        assert forall|i: int, j: int| 0 <= i < j < fewer_a.len() implies price_before(
            #[trigger] fewer_a[i],
            #[trigger] fewer_a[j],
            descending,
        ) by {
            assert(price_before(a[i], a[j], descending));
        }
        assert forall|i: int, j: int| 0 <= i < j < fewer_b.len() implies price_before(
            #[trigger] fewer_b[i],
            #[trigger] fewer_b[j],
            descending,
        ) by {
            assert(price_before(b[i], b[j], descending));
        }
        lemma_price_order_unique(fewer_a, fewer_b, descending);
        assert(a =~= fewer_a.push(x));
        assert(b =~= fewer_b.push(x));
    }
}

/// Decides whether `a` comes before `b` in the listing by amount.
fn comes_before(a: &OfferResp, b: &OfferResp, descending: bool) -> (before: bool)
    ensures
        before == price_before(a@, b@, descending),
{
    if a.amount == b.amount {
        a.offer_id < b.offer_id
    } else if descending {
        a.amount > b.amount
    } else {
        a.amount < b.amount
    }
}

/// The places of the offers whose amount exceeds `limit`, in the order of
/// their identifiers.
fn places_above(ledger: &Offers, limit: u128) -> (places: Vec<usize>)
    ensures
        places_within(places@, ledger@.len()),
        picked(ledger@, places@) == ledger@.filter(above(limit)),
{
    let n: usize = ledger.len();
    let mut places: Vec<usize> = Vec::new();
    let mut i: usize = 0;
    assert(ledger@.take(0) =~= Seq::<OfferView>::empty());
    assert(picked(ledger@, places@) =~= Seq::<OfferView>::empty());
    proof {
        reveal(Seq::filter);
    }
    while i < n
        invariant
            i <= n,
            n == ledger@.len(),
            places_within(places@, ledger@.len()),
            picked(ledger@, places@) == ledger@.take(i as int).filter(above(limit)),
        decreases n - i,
    {
        let ghost before = picked(ledger@, places@);
        proof {
            assert(ledger@.take(i + 1) =~= ledger@.take(i as int).push(ledger@[i as int]));
            ledger@.take(i as int).lemma_filter_push(ledger@[i as int], above(limit));
        }
        if ledger.get(i).amount > limit {
            places.push(i);
            assert(picked(ledger@, places@) =~= before.push(ledger@[i as int]));
        }
        i += 1;
    }
    assert(ledger@.take(n as int) =~= ledger@);
    places
}

/// Lists the offers at `places` by amount.
fn sort_by_price(ledger: &Offers, places: &Vec<usize>, descending: bool) -> (sorted: Vec<usize>)
    requires
        places_within(places@, ledger@.len()),
        ascending_ids(picked(ledger@, places@)),
    ensures
        places_within(sorted@, ledger@.len()),
        in_price_order(picked(ledger@, sorted@), descending),
        same_offers(picked(ledger@, sorted@), picked(ledger@, places@)),
{
    let ghost offers = ledger@;
    let ghost given = picked(offers, places@);
    let mut sorted: Vec<usize> = Vec::new();
    let mut i: usize = 0;
    while i < places.len()
        invariant
            i <= places.len(),
            offers == ledger@,
            given == picked(offers, places@),
            places_within(places@, offers.len()),
            ascending_ids(given),
            places_within(sorted@, offers.len()),
            in_price_order(picked(offers, sorted@), descending),
            forall|o: OfferView|
                picked(offers, sorted@).contains(o) <==> given.take(i as int).contains(o),
        decreases places.len() - i,
    {
        let ghost listed = picked(offers, sorted@);
        let ghost sofar = given.take(i as int);
        let ghost upto = given.take(i + 1);
        let next = ledger.get(places[i]);
        assert(next@ == given[i as int]);
        let mut slot: usize = 0;
        while slot < sorted.len() && !comes_before(next, ledger.get(sorted[slot]), descending)
            invariant
                slot <= sorted.len(),
                offers == ledger@,
                listed == picked(offers, sorted@),
                places_within(sorted@, offers.len()),
                forall|k: int| 0 <= k < slot ==> !price_before(next@, listed[k], descending),
            decreases sorted.len() - slot,
        {
            assert(listed[slot as int] == offers[sorted@[slot as int] as int]);
            slot += 1;
        }
        proof {
            if slot < sorted.len() {
                assert(listed[slot as int] == offers[sorted@[slot as int] as int]);
            }
            assert forall|k: int| 0 <= k < listed.len() implies listed[k].offer_id
                != next@.offer_id by {
                assert(listed.contains(listed[k]));
                assert(sofar.contains(listed[k]));
                let m = choose|m: int|
                    0 <= m < sofar.len() && sofar[m] == listed[k];
                assert(given[m].offer_id < given[i as int].offer_id);
            }
        }
        sorted.insert(slot, places[i]);
        proof {
            let grown = picked(offers, sorted@);
            assert(grown =~= listed.insert(slot as int, next@));
            assert forall|a: int, b: int| 0 <= a < b < grown.len() implies price_before(
                #[trigger] grown[a],
                #[trigger] grown[b],
                descending,
            ) by {
                let a0 = if a < slot { a } else { a - 1 };
                let b0 = if b < slot { b } else { b - 1 };
                if a != slot && b != slot {
                    assert(price_before(listed[a0], listed[b0], descending));
                } else if a == slot {
                    assert(price_before(next@, listed[slot as int], descending));
                    if b0 > slot {
                        assert(price_before(listed[slot as int], listed[b0], descending));
                    }
                } else {
                    assert(!price_before(next@, listed[a0], descending));
                    assert(listed[a0].offer_id != next@.offer_id);
                }
            }
            assert forall|o: OfferView|
                grown.contains(o) <==> upto.contains(o) by {
                assert(upto =~= sofar.push(next@));
                if grown.contains(o) {
                    let a = choose|a: int| 0 <= a < grown.len() && grown[a] == o;
                    if a < slot {
                        assert(listed[a] == o);
                        assert(listed.contains(o));
                    } else if a > slot {
                        assert(listed[a - 1] == o);
                        assert(listed.contains(o));
                    }
                    if listed.contains(o) {
                        let m = choose|m: int|
                            0 <= m < sofar.len() && sofar[m] == o;
                        assert(upto[m] == o);
                    } else {
                        assert(upto[i as int] == o);
                    }
                }
                if upto.contains(o) {
                    let m = choose|m: int|
                        0 <= m < upto.len() && upto[m] == o;
                    if m < i {
                        assert(sofar[m] == o);
                        assert(listed.contains(o));
                        let a = choose|a: int| 0 <= a < listed.len() && listed[a] == o;
                        if a < slot {
                            assert(grown[a] == o);
                        } else {
                            assert(grown[a + 1] == o);
                        }
                    } else {
                        assert(grown[slot as int] == o);
                    }
                }
            }
        }
        i += 1;
    }
    assert(given.take(places.len() as int) =~= given);
    sorted
}

/// In a sequence with ascending identifiers, so are the offers that a
/// condition keeps.
proof fn lemma_filter_ascending(offers: Seq<OfferView>, keep: spec_fn(OfferView) -> bool)
    requires
        ascending_ids(offers),
    ensures
        ascending_ids(offers.filter(keep)),
        forall|o: OfferView| offers.filter(keep).contains(o) ==> offers.contains(o),
    decreases offers.len(),
{
    reveal(Seq::filter);
    if offers.len() > 0 {
        let rest = offers.drop_last();
        assert forall|i: int, j: int| 0 <= i < j < rest.len() implies (#[trigger] rest[i]).offer_id
            < (#[trigger] rest[j]).offer_id by {
            assert(offers[i].offer_id < offers[j].offer_id);
        }
        lemma_filter_ascending(rest, keep);
        let kept = rest.filter(keep);
        assert forall|o: OfferView| kept.contains(o) implies offers.contains(o) && o.offer_id
            < offers.last().offer_id by {
            assert(rest.contains(o));
            let i = choose|i: int| 0 <= i < rest.len() && rest[i] == o;
            assert(offers[i] == o);
            assert(offers[i].offer_id < offers[offers.len() - 1].offer_id);
        }
        let all = offers.filter(keep);
        assert forall|o: OfferView| all.contains(o) implies offers.contains(o) by {
            let i = choose|i: int| 0 <= i < all.len() && all[i] == o;
            if i < kept.len() {
                assert(kept[i] == o);
                assert(kept.contains(o));
            } else {
                assert(offers[offers.len() - 1] == o);
            }
        }
        assert forall|i: int, j: int| 0 <= i < j < all.len() implies (#[trigger] all[i]).offer_id
            < (#[trigger] all[j]).offer_id by {
            assert(kept[i] == all[i]);
            if j < kept.len() {
                assert(kept[j] == all[j]);
            } else {
                assert(kept.contains(kept[i]));
            }
        }
    }
}

/// A page of the offers whose amount exceeds `limit`, listed by amount: the
/// greatest first if `sort`, else the smallest first.
pub fn get_offers_by_price(
    store: &State,
    page_size: u16,
    page_num: u16,
    limit: u128,
    sort: bool,
) -> (page: Vec<OfferResp>)
    requires
        store.wf(),
    ensures
        offer_views(page@) == page_of(
            by_price(store@.offers.filter(above(limit)), sort),
            page_size,
            page_num,
        ),
        in_price_order(by_price(store@.offers.filter(above(limit)), sort), sort),
        same_offers(
            by_price(store@.offers.filter(above(limit)), sort),
            store@.offers.filter(above(limit)),
        ),
{
    let ledger = store.ledger();
    let places = places_above(ledger, limit);
    proof {
        lemma_filter_ascending(ledger@, above(limit));
    }
    let sorted = sort_by_price(ledger, &places, sort);
    proof {
        lemma_price_order_unique(
            by_price(ledger@.filter(above(limit)), sort),
            picked(ledger@, sorted@),
            sort,
        );
    }
    page_at(ledger, &sorted, page_size, page_num)
}

/// The terms of the collection `collection_id`, if it is registered.
pub fn collection_by_id(store: &State, collection_id: u16) -> (found: Result<
    NFTCollectionResp,
    ContractError,
>)
    requires
        store.wf(),
    ensures
        match found {
            Ok(terms) => store@.collections.contains_key(collection_id) && terms@
                == store@.collections[collection_id],
            Err(error) => !store@.collections.contains_key(collection_id) && error
                == ContractError::CollectionNotFound,
        },
{
    match store.registry().get(collection_id) {
        Some(terms) => Ok(terms.clone()),
        None => Err(ContractError::CollectionNotFound),
    }
}

/// The configuration.
pub fn query_admin(store: &State) -> (config: ContractConfig)
    ensures
        config@ == store@.config,
{
    store.config().clone()
}

/// The answer to a question.
#[derive(Clone, Debug, PartialEq, Eq)]
pub enum QueryResponse {
    Offers(Vec<OfferResp>),
    Offer(OfferResp),
    Collection(NFTCollectionResp),
    Config(ContractConfig),
}

/// An answer as specifications see it.
pub enum QueryResponseView {
    Offers(Seq<OfferView>),
    Offer(OfferView),
    Collection(CollectionView),
    Config(ConfigView),
}

impl View for QueryResponse {
    type V = QueryResponseView;

    open spec fn view(&self) -> QueryResponseView {
        match *self {
            QueryResponse::Offers(offers) => QueryResponseView::Offers(offer_views(offers@)),
            QueryResponse::Offer(offer) => QueryResponseView::Offer(offer@),
            QueryResponse::Collection(terms) => QueryResponseView::Collection(terms@),
            QueryResponse::Config(config) => QueryResponseView::Config(config@),
        }
    }
}

/// A question as specifications see it.
pub enum QueryMsgView {
    OfferList { page_size: u16, page_num: u16 },
    OfferByID { offer_id: u16 },
    OffersByOwner { owner: Seq<char>, page_size: u16, page_num: u16 },
    OffersAcceptByBorrow { borrower: Seq<char>, page_size: u16, page_num: u16 },
    OffersByPrice { page: u16, page_size: u16, limit: u128, sort: bool },
    CollectionByID { collection_id: u16 },
    QueryAdmin,
}

impl View for QueryMsg {
    type V = QueryMsgView;

    open spec fn view(&self) -> QueryMsgView {
        match *self {
            QueryMsg::OfferList { page_size, page_num } => QueryMsgView::OfferList {
                page_size,
                page_num,
            },
            QueryMsg::OfferByID { offer_id } => QueryMsgView::OfferByID { offer_id },
            QueryMsg::OffersByOwner { owner, page_size, page_num } => QueryMsgView::OffersByOwner {
                owner: owner@,
                page_size,
                page_num,
            },
            QueryMsg::OffersAcceptByBorrow {
                borrower,
                page_size,
                page_num,
            } => QueryMsgView::OffersAcceptByBorrow { borrower: borrower@, page_size, page_num },
            QueryMsg::OffersByPrice { page, page_size, limit, sort } => QueryMsgView::OffersByPrice {
                page,
                page_size,
                limit,
                sort,
            },
            QueryMsg::CollectionByID { collection_id } => QueryMsgView::CollectionByID {
                collection_id,
            },
            QueryMsg::QueryAdmin {  } => QueryMsgView::QueryAdmin,
        }
    }
}

/// The answer that the store `state` gives to the question `msg`.
pub open spec fn answer(state: StateView, msg: QueryMsgView) -> Result<
    QueryResponseView,
    ContractError,
> {
    match msg {
        QueryMsgView::OfferList { page_size, page_num } => Ok(
            QueryResponseView::Offers(page_of(state.offers, page_size, page_num)),
        ),
        QueryMsgView::OfferByID { offer_id } => if has_offer(state.offers, offer_id) {
            Ok(QueryResponseView::Offer(state.offers[position_of(state.offers, offer_id)]))
        } else {
            Err(ContractError::OfferNotFound)
        },
        QueryMsgView::OffersByOwner { owner, page_size, page_num } => Ok(
            QueryResponseView::Offers(
                page_of(offers_lent_by(state.offers, owner), page_size, page_num),
            ),
        ),
        QueryMsgView::OffersAcceptByBorrow { borrower, page_size, page_num } => Ok(
            QueryResponseView::Offers(
                page_of(offers_taken_by(state.offers, borrower), page_size, page_num),
            ),
        ),
        QueryMsgView::OffersByPrice { page, page_size, limit, sort } => Ok(
            QueryResponseView::Offers(
                page_of(by_price(state.offers.filter(above(limit)), sort), page_size, page),
            ),
        ),
        QueryMsgView::CollectionByID { collection_id } => if state.collections.contains_key(
            collection_id,
        ) {
            Ok(QueryResponseView::Collection(state.collections[collection_id]))
        } else {
            Err(ContractError::CollectionNotFound)
        },
        QueryMsgView::QueryAdmin => Ok(QueryResponseView::Config(state.config)),
    }
}

/// Answers a question.
pub fn query(store: &State, msg: QueryMsg) -> (found: Result<QueryResponse, ContractError>)
    requires
        store.wf(),
    ensures
        match answer(store@, msg@) {
            Ok(expected) => found is Ok && found->Ok_0@ == expected,
            Err(error) => found == Err::<QueryResponse, ContractError>(error),
        },
{
    match msg {
        QueryMsg::OfferList { page_size, page_num } => Ok(
            QueryResponse::Offers(offer_list(store, page_size, page_num)),
        ),
        QueryMsg::OfferByID { offer_id } => match offer_by_id(store, offer_id) {
            Ok(offer) => Ok(QueryResponse::Offer(offer)),
            Err(error) => Err(error),
        },
        QueryMsg::OffersByOwner { owner, page_size, page_num } => Ok(
            QueryResponse::Offers(get_offers_by_owner(store, &owner, page_size, page_num)),
        ),
        QueryMsg::OffersAcceptByBorrow { borrower, page_size, page_num } => Ok(
            QueryResponse::Offers(
                get_offers_accept_by_borrower(store, &borrower, page_size, page_num),
            ),
        ),
        QueryMsg::OffersByPrice { page, page_size, limit, sort } => Ok(
            QueryResponse::Offers(get_offers_by_price(store, page_size, page, limit, sort)),
        ),
        QueryMsg::CollectionByID { collection_id } => match collection_by_id(
            store,
            collection_id,
        ) {
            Ok(terms) => Ok(QueryResponse::Collection(terms)),
            Err(error) => Err(error),
        },
        QueryMsg::QueryAdmin {  } => Ok(QueryResponse::Config(query_admin(store))),
    }
}

} // verus!
