//! What holds of the store whatever operations are carried out on it:
//! the facts about the life of an offer, about identifiers, about the
//! amounts paid at settlement and about who may change what.

use vstd::prelude::*;
use crate::context::{EnvView, MessageInfoView};
use crate::contract::{
    borrow_step, cancel_step, execute_defined, execute_step, initial_state, repay_defined,
    repay_step, Outcome,
};
use crate::error::ContractError;
use crate::ledger::{has_offer, lemma_position_of_offer, position_of};
use crate::msg::{CollectionView, ExecuteMsgView};
use crate::response::TransferView;
use crate::reward::{lender_share, overdue, platform_share, reward_of};
use crate::state::StateView;

verus! {

/// The store is in order when it is created, and holds no offer.
pub proof fn lemma_initial_state_valid(
    collections: Seq<CollectionView>,
    admin: Seq<char>,
    interest: u128,
)
    ensures
        initial_state(collections, admin, interest).valid(),
        initial_state(collections, admin, interest).taken_offers_named(),
{
}

/// Every operation that is carried out leaves the store in order. In
/// particular an offer that nobody has taken never names a borrower or a
/// token.
pub proof fn lemma_step_keeps_store_valid(
    pre: StateView,
    env: EnvView,
    info: MessageInfoView,
    msg: ExecuteMsgView,
    payload: Option<Seq<u8>>,
)
    requires
        pre.valid(),
        execute_defined(pre, env, info, msg),
        execute_step(pre, env, info, msg, payload) is Done,
    ensures
        execute_step(pre, env, info, msg, payload)->Done_state.valid(),
{
    let post = execute_step(pre, env, info, msg, payload)->Done_state;
    match msg {
        ExecuteMsgView::Lend { amount, collection_id } => {
            assert forall|i: int, j: int| 0 <= i < j < post.offers.len() implies (
            #[trigger] post.offers[i]).offer_id < (#[trigger] post.offers[j]).offer_id by {
                if j < pre.offers.len() {
                    assert(pre.offers[i].offer_id < pre.offers[j].offer_id);
                } else {
                    assert(pre.offers[i].offer_id <= pre.last_offer_index);
                }
            }
            assert forall|i: int| 0 <= i < post.offers.len() implies {
                &&& (#[trigger] post.offers[i]).offer_id <= post.last_offer_index
                &&& post.collections.contains_key(post.offers[i].collection_id)
                &&& post.offers[i].open_fields_blank()
            } by {
                if i < pre.offers.len() {
                    assert(pre.offers[i].offer_id <= pre.last_offer_index);
                }
            }
        },
        ExecuteMsgView::CancelOffer { offer_id } => {
            lemma_removal_keeps_store_valid(pre, position_of(pre.offers, offer_id));
        },
        ExecuteMsgView::Borrow { offer_id, token_id } => {
            let at = position_of(pre.offers, offer_id);
            assert forall|i: int, j: int| 0 <= i < j < post.offers.len() implies (
            #[trigger] post.offers[i]).offer_id < (#[trigger] post.offers[j]).offer_id by {
                assert(pre.offers[i].offer_id < pre.offers[j].offer_id);
            }
            assert forall|i: int| 0 <= i < post.offers.len() implies {
                &&& (#[trigger] post.offers[i]).offer_id <= post.last_offer_index
                &&& post.collections.contains_key(post.offers[i].collection_id)
                &&& post.offers[i].open_fields_blank()
            } by {
                assert(pre.offers[i].offer_id <= pre.last_offer_index);
            }
        },
        ExecuteMsgView::Repay { offer_id } => {
            lemma_removal_keeps_store_valid(pre, position_of(pre.offers, offer_id));
        },
        ExecuteMsgView::UpdateFloorPrice { collection_id, new_floor_price } => {
            assert forall|i: int| 0 <= i < post.offers.len() implies {
                &&& (#[trigger] post.offers[i]).offer_id <= post.last_offer_index
                &&& post.collections.contains_key(post.offers[i].collection_id)
                &&& post.offers[i].open_fields_blank()
            } by {
                assert(pre.collections.contains_key(pre.offers[i].collection_id));
            }
        },
        ExecuteMsgView::AddNFTCollection { collection } => {
            assert forall|i: int| 0 <= i < post.offers.len() implies {
                &&& (#[trigger] post.offers[i]).offer_id <= post.last_offer_index
                &&& post.collections.contains_key(post.offers[i].collection_id)
                &&& post.offers[i].open_fields_blank()
            } by {
                assert(pre.collections.contains_key(pre.offers[i].collection_id));
            }
        },
        ExecuteMsgView::UpdateAdmin { new_admin } => {},
        ExecuteMsgView::UpdateInterest { interest } => {},
    }
}

proof fn lemma_removal_keeps_store_valid(pre: StateView, at: int)
    requires
        pre.valid(),
        0 <= at < pre.offers.len(),
    ensures
        (StateView { offers: pre.offers.remove(at), ..pre }).valid(),
        pre.taken_offers_named() ==> (StateView {
            offers: pre.offers.remove(at),
            ..pre
        }).taken_offers_named(),
        !has_offer(pre.offers.remove(at), pre.offers[at].offer_id),
{
    let left = pre.offers.remove(at);
    assert forall|i: int| 0 <= i < left.len() implies (#[trigger] left[i]) == pre.offers[if i
        < at {
        i
    } else {
        i + 1
    }] by {}
    assert forall|i: int, j: int| 0 <= i < j < left.len() implies (#[trigger] left[i]).offer_id < (
    #[trigger] left[j]).offer_id by {
        let a = if i < at { i } else { i + 1 };
        let b = if j < at { j } else { j + 1 };
        assert(pre.offers[a].offer_id < pre.offers[b].offer_id);
    }
    assert forall|i: int| 0 <= i < left.len() implies (#[trigger] left[i]).offer_id
        != pre.offers[at].offer_id by {
        let a = if i < at { i } else { i + 1 };
        if a < at {
            assert(pre.offers[a].offer_id < pre.offers[at].offer_id);
        } else {
            assert(pre.offers[at].offer_id < pre.offers[a].offer_id);
        }
    }
}

/// While no offer is taken against a token without a name, or by a caller
/// who goes by the text that stands for "no borrower", every offer that was
/// taken names its borrower and its token.
pub proof fn lemma_taken_offers_stay_named(
    pre: StateView,
    env: EnvView,
    info: MessageInfoView,
    msg: ExecuteMsgView,
    payload: Option<Seq<u8>>,
)
    requires
        pre.valid(),
        pre.taken_offers_named(),
        msg matches ExecuteMsgView::Borrow { offer_id, token_id } ==> info.sender
            != crate::msg::no_borrower() && token_id.len() > 0,
        execute_step(pre, env, info, msg, payload) is Done,
    ensures
        execute_step(pre, env, info, msg, payload)->Done_state.taken_offers_named(),
{
    let post = execute_step(pre, env, info, msg, payload)->Done_state;
    match msg {
        ExecuteMsgView::Lend { amount, collection_id } => {
            assert forall|i: int| 0 <= i < post.offers.len() implies (
            #[trigger] post.offers[i]).taken_fields_set() by {
                if i < pre.offers.len() {
                    assert(pre.offers[i].taken_fields_set());
                }
            }
        },
        ExecuteMsgView::CancelOffer { offer_id } => {
            lemma_removal_keeps_store_valid(pre, position_of(pre.offers, offer_id));
        },
        ExecuteMsgView::Borrow { offer_id, token_id } => {
            assert forall|i: int| 0 <= i < post.offers.len() implies (
            #[trigger] post.offers[i]).taken_fields_set() by {
                assert(pre.offers[i].taken_fields_set());
            }
        },
        ExecuteMsgView::Repay { offer_id } => {
            lemma_removal_keeps_store_valid(pre, position_of(pre.offers, offer_id));
        },
        _ => {},
    }
}

/// Cancelling an offer a second time, whoever asks, is rejected because
/// the offer is not found, and so leaves the store as the first call left
/// it.
pub proof fn lemma_cancel_twice(
    pre: StateView,
    first: MessageInfoView,
    second: MessageInfoView,
    offer_id: u16,
)
    requires
        pre.valid(),
        cancel_step(pre, first, offer_id) is Done,
    ensures
        cancel_step(cancel_step(pre, first, offer_id)->Done_state, second, offer_id) == (
        Outcome::Rejected { error: ContractError::OfferNotFound }),
{
    lemma_removal_keeps_store_valid(pre, position_of(pre.offers, offer_id));
}

/// Once an offer has left the ledger, by cancellation or settlement, no
/// operation finds it again: identifiers are never given out twice.
pub proof fn lemma_closed_offer_stays_closed(
    pre: StateView,
    env: EnvView,
    info: MessageInfoView,
    msg: ExecuteMsgView,
    payload: Option<Seq<u8>>,
    offer_id: u16,
)
    requires
        pre.valid(),
        execute_defined(pre, env, info, msg),
        offer_id <= pre.last_offer_index,
        !has_offer(pre.offers, offer_id),
        execute_step(pre, env, info, msg, payload) is Done,
    ensures
        !has_offer(execute_step(pre, env, info, msg, payload)->Done_state.offers, offer_id),
        offer_id <= execute_step(pre, env, info, msg, payload)->Done_state.last_offer_index,
{
    let post = execute_step(pre, env, info, msg, payload)->Done_state;
    if has_offer(post.offers, offer_id) {
        let i = choose|i: int|
            0 <= i < post.offers.len() && (#[trigger] post.offers[i]).offer_id == offer_id;
        match msg {
            ExecuteMsgView::Lend { amount, collection_id } => {
                if i < pre.offers.len() {
                    assert(pre.offers[i].offer_id == offer_id);
                }
            },
            ExecuteMsgView::CancelOffer { offer_id: closed } => {
                let at = position_of(pre.offers, closed);
                assert(pre.offers[if i < at {
                    i
                } else {
                    i + 1
                }].offer_id == offer_id);
            },
            ExecuteMsgView::Borrow { offer_id: taken, token_id } => {
                assert(pre.offers[i].offer_id == offer_id);
            },
            ExecuteMsgView::Repay { offer_id: closed } => {
                let at = position_of(pre.offers, closed);
                assert(pre.offers[if i < at {
                    i
                } else {
                    i + 1
                }].offer_id == offer_id);
            },
            _ => {
                assert(pre.offers[i].offer_id == offer_id);
            },
        }
    }
}

/// A loan that is repaid in time was paid for with exactly principal and
/// interest, and the lender receives the principal with the lender's share
/// of the interest, the administrator the platform's share. What the two
/// receive is what was paid, less at most the one unit that rounding down
/// twice can lose; nothing is lost where the lender's share is a whole
/// number of units.
pub proof fn lemma_repaid_amounts(
    pre: StateView,
    env: EnvView,
    info: MessageInfoView,
    offer_id: u16,
    payload: Option<Seq<u8>>,
)
    requires
        pre.valid(),
        repay_defined(pre, env, info, offer_id),
        repay_step(pre, env, info, offer_id, payload) is Done,
        !overdue(
            pre.offers[position_of(pre.offers, offer_id)].start_time,
            pre.collections[pre.offers[position_of(
                pre.offers,
                offer_id,
            )].collection_id].max_time,
            env.time,
        ),
    ensures
        ({
            let offer = pre.offers[position_of(pre.offers, offer_id)];
            let terms = pre.collections[offer.collection_id];
            let reward = reward_of(offer.start_time, terms.apy, env.time, offer.amount);
            let paid = crate::payment::paid_amount(info.funds, pre.lend_denom);
            let messages = repay_step(pre, env, info, offer_id, payload)->Done_response.messages;
            &&& paid == Some((offer.amount + reward) as u128)
            &&& messages.len() == 3
            &&& messages[1] matches TransferView::Funds { recipient, denom, amount: to_lender }
            &&& messages[2] matches TransferView::Funds { recipient, denom, amount: to_platform }
            &&& to_lender == offer.amount + lender_share(reward as u128, pre.config.interest)
            &&& to_platform == platform_share(reward as u128, pre.config.interest)
            &&& to_lender + to_platform <= offer.amount + reward <= to_lender + to_platform + 1
            &&& (reward * pre.config.interest) % 100 == 0 ==> to_lender + to_platform
                == offer.amount + reward
        }),
{
    let offer = pre.offers[position_of(pre.offers, offer_id)];
    let terms = pre.collections[offer.collection_id];
    let reward = reward_of(offer.start_time, terms.apy, env.time, offer.amount);
    crate::reward::lemma_shares_within_reward(reward as u128, pre.config.interest);
    if (reward * pre.config.interest) % 100 == 0 {
        crate::reward::lemma_amount_conserved(offer.amount, reward as u128, pre.config.interest);
    }
}

/// An offer that stays in the ledger keeps its lender, amount, start and
/// collection; once it was taken it does not change at all, so that it is
/// taken once only and never open again.
pub proof fn lemma_live_offer_keeps_terms(
    pre: StateView,
    env: EnvView,
    info: MessageInfoView,
    msg: ExecuteMsgView,
    payload: Option<Seq<u8>>,
    offer_id: u16,
)
    requires
        pre.valid(),
        execute_defined(pre, env, info, msg),
        execute_step(pre, env, info, msg, payload) is Done,
        has_offer(pre.offers, offer_id),
        has_offer(execute_step(pre, env, info, msg, payload)->Done_state.offers, offer_id),
    ensures
        ({
            let post = execute_step(pre, env, info, msg, payload)->Done_state;
            let before = pre.offers[position_of(pre.offers, offer_id)];
            let after = post.offers[position_of(post.offers, offer_id)];
            &&& after.offer_id == offer_id
            &&& after.owner == before.owner
            &&& after.amount == before.amount
            &&& after.start_time == before.start_time
            &&& after.collection_id == before.collection_id
            &&& before.accepted ==> after == before
        }),
{
    let post = execute_step(pre, env, info, msg, payload)->Done_state;
    lemma_step_keeps_store_valid(pre, env, info, msg, payload);
    let i = position_of(pre.offers, offer_id);
    let j = position_of(post.offers, offer_id);
    match msg {
        ExecuteMsgView::Lend { amount, collection_id } => {
            assert(post.offers[i] == pre.offers[i]);
            lemma_position_of_offer(post.offers, i);
        },
        ExecuteMsgView::CancelOffer { offer_id: closed } => {
            let at = position_of(pre.offers, closed);
            let k = if j < at { j } else { j + 1 };
            assert(post.offers[j] == pre.offers[k]);
            lemma_position_of_offer(pre.offers, k);
        },
        ExecuteMsgView::Borrow { offer_id: taken, token_id } => {
            assert(post.offers[i].offer_id == offer_id);
            lemma_position_of_offer(post.offers, i);
        },
        ExecuteMsgView::Repay { offer_id: closed } => {
            let at = position_of(pre.offers, closed);
            let k = if j < at { j } else { j + 1 };
            assert(post.offers[j] == pre.offers[k]);
            lemma_position_of_offer(pre.offers, k);
        },
        _ => {},
    }
}

/// An offer that was taken cannot be cancelled, and an offer that nobody
/// has taken cannot be settled.
pub proof fn lemma_lifecycle_is_one_way(
    pre: StateView,
    env: EnvView,
    info: MessageInfoView,
    offer_id: u16,
    token_id: Seq<char>,
    payload: Option<Seq<u8>>,
)
    requires
        has_offer(pre.offers, offer_id),
    ensures
        pre.offers[position_of(pre.offers, offer_id)].accepted ==> !(cancel_step(
            pre,
            info,
            offer_id,
        ) is Done) && !(borrow_step(pre, env, info, offer_id, token_id, payload) is Done),
        !pre.offers[position_of(pre.offers, offer_id)].accepted ==> !(repay_step(
            pre,
            env,
            info,
            offer_id,
            payload,
        ) is Done),
{
}

/// Nobody but the administrator changes the registry or the configuration,
/// and nothing ever leaves the registry.
pub proof fn lemma_only_admin_changes_terms(
    pre: StateView,
    env: EnvView,
    info: MessageInfoView,
    msg: ExecuteMsgView,
    payload: Option<Seq<u8>>,
)
    requires
        execute_step(pre, env, info, msg, payload) is Done,
    ensures
        ({
            let post = execute_step(pre, env, info, msg, payload)->Done_state;
            &&& info.sender != pre.config.admin ==> post.collections == pre.collections
                && post.config == pre.config
            &&& forall|id: u16| #[trigger]
                pre.collections.contains_key(id) ==> post.collections.contains_key(id)
            &&& post.lend_denom == pre.lend_denom
        }),
{
}

} // verus!
