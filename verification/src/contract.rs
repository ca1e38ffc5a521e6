//! The operations on the store. Each operation either is carried out in
//! full, and then hands back the transfers that the host is to make, or is
//! rejected and leaves the store as it was.

use vstd::prelude::*;
use crate::context::{Env, EnvView, MessageInfo, MessageInfoView};
use crate::error::ContractError;
use crate::ledger::{has_offer, position_of};
use crate::msg::{
    CollectionView, ConfigView, ContractConfig, ExecuteMsg, ExecuteMsgView, InstantiateMsg,
    NFTCollectionResp, OfferView,
};
use crate::payment::{check_payment, payment_fault};
use crate::registry::registered;
use crate::response::{action, AttributeView, Response, ResponseView, Transfer, TransferView};
use crate::reward::{
    calculate_reward, is_overdue, lender_share, overdue, platform_share, reward_computable,
    reward_of, split_reward,
};
use crate::state::{new_offer, State, StateView};
use crate::wire::{encode_transfer_nft, transfer_nft_json};

verus! {

/// What an operation comes to.
pub enum Outcome {
    /// The operation is carried out: the store becomes `state` and the
    /// caller receives `response`.
    Done { state: StateView, response: ResponseView },
    /// The operation is rejected for the reason `error`.
    Rejected { error: ContractError },
    /// The operation is rejected because the message for the token contract
    /// could not be encoded.
    Unencodable,
}

/// The call that returned `result` and took the store from `before` to
/// `after` did what `outcome` says.
pub open spec fn carried_out(
    before: StateView,
    after: StateView,
    result: Result<Response, ContractError>,
    outcome: Outcome,
) -> bool {
    match outcome {
        Outcome::Done { state, response } => {
            &&& result is Ok
            &&& result->Ok_0@ == response
            &&& after == state
        },
        Outcome::Rejected { error } => {
            &&& result == Err::<Response, ContractError>(error)
            &&& after == before
        },
        Outcome::Unencodable => {
            &&& result is Err
            &&& result->Err_0 is Std
            &&& after == before
        },
    }
}

/// The message for the token contract as an operation takes it: the bytes,
/// or nothing where encoding failed.
pub open spec fn payload_view(payload: Result<Vec<u8>, cosmwasm_std::StdError>) -> Option<
    Seq<u8>,
> {
    match payload {
        Ok(bytes) => Some(bytes@),
        Err(_) => None,
    }
}

/// The response to an operation that moves nothing.
pub open spec fn plain_response(name: Seq<char>) -> ResponseView {
    ResponseView { messages: Seq::empty(), attributes: seq![action(name)] }
}

/// The store at its creation: the collections registered in the order
/// given, no offers, and loans made in the denomination "SEI".
pub open spec fn initial_state(
    collections: Seq<CollectionView>,
    admin: Seq<char>,
    interest: u128,
) -> StateView {
    StateView {
        collections: registered(Map::empty(), collections),
        last_offer_index: 0,
        lend_denom: "SEI"@,
        config: ConfigView { admin, interest },
        offers: Seq::empty(),
    }
}

/// Creates the store.
pub fn instantiate(msg: InstantiateMsg) -> (store: State)
    ensures
        store.wf(),
        store@ == initial_state(
            crate::msg::collection_views(msg.nft_collections@),
            msg.admin@,
            msg.interest,
        ),
{
    let config = ContractConfig { admin: msg.admin, interest: msg.interest };
    State::new(config, "SEI".to_owned(), msg.nft_collections)
}

/// Lending: the caller offers `amount` against the collection
/// `collection_id`. The collection must be registered, the amount must not
/// exceed its floor price, and exactly the amount must be attached in the
/// lending denomination, which is then held in escrow. The offer gets the
/// next identifier.
pub open spec fn lend_step(
    pre: StateView,
    env: EnvView,
    info: MessageInfoView,
    amount: u128,
    collection_id: u16,
) -> Outcome {
    if !pre.collections.contains_key(collection_id) {
        Outcome::Rejected { error: ContractError::CollectionNotFound }
    } else if amount > pre.collections[collection_id].floor_price {
        Outcome::Rejected { error: ContractError::TooMuchLendAmount }
    } else {
        match payment_fault(info.funds, pre.lend_denom, amount) {
            Some(fault) => Outcome::Rejected { error: fault },
            None => {
                let offer_id = (pre.last_offer_index + 1) as u16;
                Outcome::Done {
                    state: StateView {
                        last_offer_index: offer_id,
                        offers: pre.offers.push(
                            new_offer(offer_id, info.sender, amount, env.time, collection_id),
                        ),
                        ..pre
                    },
                    response: plain_response("lend"@),
                }
            },
        }
    }
}

/// Places an offer.
pub fn lend(
    store: &mut State,
    env: &Env,
    info: &MessageInfo,
    amount: u128,
    collection_id: u16,
) -> (result: Result<Response, ContractError>)
    requires
        old(store).wf(),
        lend_step(old(store)@, env@, info@, amount, collection_id) is Done ==> old(
            store,
        )@.last_offer_index < u16::MAX,
    ensures
        final(store).wf(),
        carried_out(
            old(store)@,
            final(store)@,
            result,
            lend_step(old(store)@, env@, info@, amount, collection_id),
        ),
{
    let floor_price: u128 = match store.registry().get(collection_id) {
        Some(collection) => collection.floor_price,
        None => {
            return Err(ContractError::CollectionNotFound);
        },
    };
    if amount > floor_price {
        return Err(ContractError::TooMuchLendAmount);
    }
    match check_payment(info, store.lend_denom().as_str(), amount) {
        Ok(()) => {},
        Err(fault) => {
            return Err(fault);
        },
    }
    store.open_offer(info.sender.clone(), amount, env.time, collection_id);
    Ok(Response::new("lend"))
}

/// Cancelling: the lender or the administrator withdraws an offer that
/// nobody has taken. The amount in escrow goes back to the lender.
pub open spec fn cancel_step(pre: StateView, info: MessageInfoView, offer_id: u16) -> Outcome {
    if !has_offer(pre.offers, offer_id) {
        Outcome::Rejected { error: ContractError::OfferNotFound }
    } else {
        let at = position_of(pre.offers, offer_id);
        let offer = pre.offers[at];
        if offer.owner != info.sender && pre.config.admin != info.sender {
            Outcome::Rejected { error: ContractError::InvalidOfferOwner }
        } else if offer.accepted {
            Outcome::Rejected { error: ContractError::OfferAlreadyAccepted }
        } else {
            Outcome::Done {
                state: StateView { offers: pre.offers.remove(at), ..pre },
                response: ResponseView {
                    messages: seq![
                        TransferView::Funds {
                            recipient: offer.owner,
                            denom: pre.lend_denom,
                            amount: offer.amount,
                        },
                    ],
                    attributes: seq![
                        action("cancel_offer"@),
                        AttributeView { key: "denom"@, value: pre.lend_denom },
                    ],
                },
            }
        }
    }
}

/// Withdraws an offer.
pub fn cancel_offer(store: &mut State, info: &MessageInfo, offer_id: u16) -> (result: Result<
    Response,
    ContractError,
>)
    requires
        old(store).wf(),
    ensures
        final(store).wf(),
        carried_out(
            old(store)@,
            final(store)@,
            result,
            cancel_step(old(store)@, info@, offer_id),
        ),
{
    let at: usize = match store.ledger().find(offer_id) {
        Some(at) => at,
        None => {
            return Err(ContractError::OfferNotFound);
        },
    };
    let offer = store.ledger().get(at);
    if offer.owner != info.sender && store.config().admin != info.sender {
        return Err(ContractError::InvalidOfferOwner);
    }
    if offer.accepted {
        return Err(ContractError::OfferAlreadyAccepted);
    }
    let offer = store.close_offer(at);
    let denom = store.lend_denom().clone();
    let mut response = Response::new("cancel_offer");
    response.add_attribute("denom", denom.as_str());
    response.add_message(Transfer::Funds { recipient: offer.owner, denom, amount: offer.amount });
    proof {
        let expected = cancel_step(old(store)@, info@, offer_id);
        assert(response@.messages =~= expected->Done_response.messages);
        assert(response@.attributes =~= expected->Done_response.attributes);
    }
    Ok(response)
}

/// Borrowing: the caller takes an offer that nobody has taken, against the
/// token `token_id`. The token goes to the protocol's own address, the
/// amount lent goes to the caller, and the offer records both the caller
/// and the token. `payload` is the message for the token contract.
pub open spec fn borrow_step(
    pre: StateView,
    env: EnvView,
    info: MessageInfoView,
    offer_id: u16,
    token_id: Seq<char>,
    payload: Option<Seq<u8>>,
) -> Outcome {
    if !has_offer(pre.offers, offer_id) {
        Outcome::Rejected { error: ContractError::OfferNotFound }
    } else {
        let at = position_of(pre.offers, offer_id);
        let offer = pre.offers[at];
        if offer.accepted {
            Outcome::Rejected { error: ContractError::OfferAlreadyAccepted }
        } else if !pre.collections.contains_key(offer.collection_id) {
            Outcome::Rejected { error: ContractError::CollectionNotFound }
        } else {
            match payload {
                None => Outcome::Unencodable,
                Some(msg) => Outcome::Done {
                    state: StateView {
                        offers: pre.offers.update(
                            at,
                            OfferView {
                                token_id,
                                accepted: true,
                                borrower: info.sender,
                                ..offer
                            },
                        ),
                        ..pre
                    },
                    response: ResponseView {
                        messages: seq![
                            TransferView::Asset {
                                contract: pre.collections[offer.collection_id].contract,
                                recipient: env.contract_address,
                                token_id,
                                msg,
                            },
                            TransferView::Funds {
                                recipient: info.sender,
                                denom: pre.lend_denom,
                                amount: offer.amount,
                            },
                        ],
                        attributes: seq![action("borrow"@)],
                    },
                },
            }
        }
    }
}

/// Takes an offer, with `payload` as the message for the token contract
/// or the failure to encode it. A failure to encode counts only once every
/// other condition is met, and is handed back as it came.
pub fn borrow_with_payload(
    store: &mut State,
    env: &Env,
    info: &MessageInfo,
    offer_id: u16,
    token_id: String,
    payload: Result<Vec<u8>, cosmwasm_std::StdError>,
) -> (result: Result<Response, ContractError>)
    requires
        old(store).wf(),
    ensures
        final(store).wf(),
        carried_out(
            old(store)@,
            final(store)@,
            result,
            borrow_step(old(store)@, env@, info@, offer_id, token_id@, payload_view(payload)),
        ),
        borrow_step(old(store)@, env@, info@, offer_id, token_id@, payload_view(payload))
            is Unencodable ==> result == Err::<Response, ContractError>(
            ContractError::Std(payload->Err_0),
        ),
{
    let at: usize = match store.ledger().find(offer_id) {
        Some(at) => at,
        None => {
            return Err(ContractError::OfferNotFound);
        },
    };
    let offer = store.ledger().get(at);
    if offer.accepted {
        return Err(ContractError::OfferAlreadyAccepted);
    }
    let contract = match store.registry().get(offer.collection_id) {
        Some(collection) => collection.contract.clone(),
        None => {
            return Err(ContractError::CollectionNotFound);
        },
    };
    let msg = match payload {
        Ok(msg) => msg,
        Err(e) => {
            return Err(ContractError::Std(e));
        },
    };
    let amount: u128 = offer.amount;
    let mut response = Response::new("borrow");
    response.add_message(
        Transfer::Asset {
            contract,
            recipient: env.contract_address.clone(),
            token_id: token_id.clone(),
            msg,
        },
    );
    response.add_message(
        Transfer::Funds {
            recipient: info.sender.clone(),
            denom: store.lend_denom().clone(),
            amount,
        },
    );
    store.accept_offer(at, info.sender.clone(), token_id);
    proof {
        let expected = borrow_step(
            old(store)@,
            env@,
            info@,
            offer_id,
            token_id@,
            payload_view(payload),
        );
        assert(response@.messages =~= expected->Done_response.messages);
    }
    Ok(response)
}

/// Takes an offer.
pub fn borrow(
    store: &mut State,
    env: &Env,
    info: &MessageInfo,
    offer_id: u16,
    token_id: String,
) -> (result: Result<Response, ContractError>)
    requires
        old(store).wf(),
    ensures
        final(store).wf(),
        carried_out(
            old(store)@,
            final(store)@,
            result,
            borrow_step(
                old(store)@,
                env@,
                info@,
                offer_id,
                token_id@,
                transfer_nft_json(env@.contract_address, token_id@),
            ),
        ),
{
    let payload = encode_transfer_nft(&env.contract_address, &token_id);
    borrow_with_payload(store, env, info, offer_id, token_id, payload)
}

/// Who receives the collateral of `offer` when the loan is settled at
/// `now`: the lender where the loan is in default, the borrower where it
/// is repaid in time.
pub open spec fn collateral_recipient(offer: OfferView, max_time: u64, now: u64) -> Seq<char> {
    if overdue(offer.start_time, max_time, now) {
        offer.owner
    } else {
        offer.borrower
    }
}

/// Whether settling the offer `offer_id` is within what the machine can
/// compute and what the configuration allows. Where the borrower settles a
/// loan in time, the interest must be computable and the amount due must
/// fit in 128 bits; and where the payment is right, the lender's share must
/// be at most one hundred percentage points. Nothing is asked of a request
/// that is rejected before, nor of the settlement of a loan in default.
pub open spec fn repay_defined(
    pre: StateView,
    env: EnvView,
    info: MessageInfoView,
    offer_id: u16,
) -> bool {
    has_offer(pre.offers, offer_id) ==> {
        let offer = pre.offers[position_of(pre.offers, offer_id)];
        let terms = pre.collections[offer.collection_id];
        let reward = reward_of(offer.start_time, terms.apy, env.time, offer.amount);
        offer.borrower == info.sender && offer.accepted && !overdue(
            offer.start_time,
            terms.max_time,
            env.time,
        ) ==> {
            &&& reward_computable(offer.start_time, terms.apy, env.time, offer.amount)
            &&& offer.amount + reward <= u128::MAX
            &&& payment_fault(info.funds, pre.lend_denom, (offer.amount + reward) as u128)
                is None ==> pre.config.interest <= 100
        }
    }
}

/// Repaying: the borrower settles a loan. Where more than the collection's
/// `max_time` has passed since the offer was made, the loan is in default:
/// the collateral goes to the lender and no payment is asked for or used.
/// Else the borrower must attach exactly principal and interest; the
/// collateral goes back to the borrower, the lender receives the principal
/// and the lender's share of the interest, and the administrator the rest.
/// Either way the offer leaves the ledger. `payload` is the message for the
/// token contract.
pub open spec fn repay_step(
    pre: StateView,
    env: EnvView,
    info: MessageInfoView,
    offer_id: u16,
    payload: Option<Seq<u8>>,
) -> Outcome {
    if !has_offer(pre.offers, offer_id) {
        Outcome::Rejected { error: ContractError::OfferNotFound }
    } else {
        let at = position_of(pre.offers, offer_id);
        let offer = pre.offers[at];
        let terms = pre.collections[offer.collection_id];
        if offer.borrower != info.sender {
            Outcome::Rejected { error: ContractError::InvalidBorrow }
        } else if !offer.accepted {
            Outcome::Rejected { error: ContractError::OfferNotAccepted }
        } else if !pre.collections.contains_key(offer.collection_id) {
            Outcome::Rejected { error: ContractError::CollectionNotFound }
        } else if overdue(offer.start_time, terms.max_time, env.time) {
            match payload {
                None => Outcome::Unencodable,
                Some(msg) => Outcome::Done {
                    state: StateView { offers: pre.offers.remove(at), ..pre },
                    response: ResponseView {
                        messages: seq![
                            TransferView::Asset {
                                contract: terms.contract,
                                recipient: offer.owner,
                                token_id: offer.token_id,
                                msg,
                            },
                        ],
                        attributes: seq![action("repay_fail"@)],
                    },
                },
            }
        } else {
            let reward = reward_of(offer.start_time, terms.apy, env.time, offer.amount) as u128;
            match payment_fault(info.funds, pre.lend_denom, (offer.amount + reward) as u128) {
                Some(fault) => Outcome::Rejected { error: fault },
                None => match payload {
                    None => Outcome::Unencodable,
                    Some(msg) => Outcome::Done {
                        state: StateView { offers: pre.offers.remove(at), ..pre },
                        response: ResponseView {
                            messages: seq![
                                TransferView::Asset {
                                    contract: terms.contract,
                                    recipient: offer.borrower,
                                    token_id: offer.token_id,
                                    msg,
                                },
                                TransferView::Funds {
                                    recipient: offer.owner,
                                    denom: pre.lend_denom,
                                    amount: (offer.amount + lender_share(
                                        reward,
                                        pre.config.interest,
                                    )) as u128,
                                },
                                TransferView::Funds {
                                    recipient: pre.config.admin,
                                    denom: pre.lend_denom,
                                    amount: platform_share(reward, pre.config.interest) as u128,
                                },
                            ],
                            attributes: seq![action("repay success"@)],
                        },
                    },
                },
            }
        }
    }
}

/// Settles a loan, with `payload` as the message for the token contract or
/// the failure to encode it. A failure to encode counts only once every
/// other condition is met, and is handed back as it came.
pub fn repay_with_payload(
    store: &mut State,
    env: &Env,
    info: &MessageInfo,
    offer_id: u16,
    payload: Result<Vec<u8>, cosmwasm_std::StdError>,
) -> (result: Result<Response, ContractError>)
    requires
        old(store).wf(),
        repay_defined(old(store)@, env@, info@, offer_id),
    ensures
        final(store).wf(),
        carried_out(
            old(store)@,
            final(store)@,
            result,
            repay_step(old(store)@, env@, info@, offer_id, payload_view(payload)),
        ),
        repay_step(old(store)@, env@, info@, offer_id, payload_view(payload)) is Unencodable
            ==> result == Err::<Response, ContractError>(ContractError::Std(payload->Err_0)),
{
    let at: usize = match store.ledger().find(offer_id) {
        Some(at) => at,
        None => {
            return Err(ContractError::OfferNotFound);
        },
    };
    let offer = store.ledger().get(at);
    if offer.borrower != info.sender {
        return Err(ContractError::InvalidBorrow);
    }
    if !offer.accepted {
        return Err(ContractError::OfferNotAccepted);
    }
    let terms = match store.registry().get(offer.collection_id) {
        Some(terms) => terms,
        None => {
            return Err(ContractError::CollectionNotFound);
        },
    };
    let contract = terms.contract.clone();
    let ghost expected = repay_step(old(store)@, env@, info@, offer_id, payload_view(payload));
    if is_overdue(offer.start_time, terms.max_time, env.time) {
        let msg = match payload {
            Ok(msg) => msg,
            Err(e) => {
                return Err(ContractError::Std(e));
            },
        };
        let offer = store.close_offer(at);
        let mut response = Response::new("repay_fail");
        response.add_message(
            Transfer::Asset { contract, recipient: offer.owner, token_id: offer.token_id, msg },
        );
        proof {
            assert(response@.messages =~= expected->Done_response.messages);
        }
        Ok(response)
    } else {
        let reward: u128 = calculate_reward(
            offer.start_time,
            terms.apy,
            env.time,
            offer.amount,
        );
        let due: u128 = offer.amount + reward;
        match check_payment(info, store.lend_denom().as_str(), due) {
            Ok(()) => {},
            Err(fault) => {
                return Err(fault);
            },
        }
        let msg = match payload {
            Ok(msg) => msg,
            Err(e) => {
                return Err(ContractError::Std(e));
            },
        };
        let interest: u128 = store.config().interest;
        let shares = split_reward(reward, interest);
        proof {
            crate::reward::lemma_shares_within_reward(reward, interest);
        }
        let to_lender: u128 = offer.amount + shares.0;
        let admin = store.config().admin.clone();
        let denom = store.lend_denom().clone();
        let offer = store.close_offer(at);
        let mut response = Response::new("repay success");
        response.add_message(
            Transfer::Asset { contract, recipient: offer.borrower, token_id: offer.token_id, msg },
        );
        response.add_message(
            Transfer::Funds { recipient: offer.owner, denom: denom.clone(), amount: to_lender },
        );
        response.add_message(Transfer::Funds { recipient: admin, denom, amount: shares.1 });
        proof {
            assert(response@.messages =~= expected->Done_response.messages);
        }
        Ok(response)
    }
}

/// The message for the token contract that settling the offer `offer_id`
/// sends: the transfer of the collateral to whom it is due.
pub open spec fn repay_payload(pre: StateView, env: EnvView, offer_id: u16) -> Option<Seq<u8>> {
    let offer = pre.offers[position_of(pre.offers, offer_id)];
    let terms = pre.collections[offer.collection_id];
    transfer_nft_json(collateral_recipient(offer, terms.max_time, env.time), offer.token_id)
}

/// Settles a loan.
pub fn repay(store: &mut State, env: &Env, info: &MessageInfo, offer_id: u16) -> (result: Result<
    Response,
    ContractError,
>)
    requires
        old(store).wf(),
        repay_defined(old(store)@, env@, info@, offer_id),
    ensures
        final(store).wf(),
        carried_out(
            old(store)@,
            final(store)@,
            result,
            repay_step(old(store)@, env@, info@, offer_id, repay_payload(old(store)@, env@, offer_id)),
        ),
{
    let at: usize = match store.ledger().find(offer_id) {
        Some(at) => at,
        None => {
            return Err(ContractError::OfferNotFound);
        },
    };
    let offer = store.ledger().get(at);
    let max_time: u64 = match store.registry().get(offer.collection_id) {
        Some(terms) => terms.max_time,
        None => {
            return Err(ContractError::CollectionNotFound);
        },
    };
    let payload = if is_overdue(offer.start_time, max_time, env.time) {
        encode_transfer_nft(&offer.owner, &offer.token_id)
    } else {
        encode_transfer_nft(&offer.borrower, &offer.token_id)
    };
    repay_with_payload(store, env, info, offer_id, payload)
}

/// Setting a floor price: the administrator changes the most that may be
/// lent against a registered collection.
pub open spec fn update_floor_price_step(
    pre: StateView,
    info: MessageInfoView,
    collection_id: u16,
    new_floor_price: u128,
) -> Outcome {
    if pre.config.admin != info.sender {
        Outcome::Rejected { error: ContractError::Unauthorized }
    } else if !pre.collections.contains_key(collection_id) {
        Outcome::Rejected { error: ContractError::CollectionNotFound }
    } else {
        Outcome::Done {
            state: StateView {
                collections: pre.collections.insert(
                    collection_id,
                    CollectionView {
                        floor_price: new_floor_price,
                        ..pre.collections[collection_id]
                    },
                ),
                ..pre
            },
            response: plain_response("update_floor_price"@),
        }
    }
}

/// Sets the floor price of a collection.
pub fn update_floor_price(
    store: &mut State,
    info: &MessageInfo,
    collection_id: u16,
    new_floor_price: u128,
) -> (result: Result<Response, ContractError>)
    requires
        old(store).wf(),
    ensures
        final(store).wf(),
        carried_out(
            old(store)@,
            final(store)@,
            result,
            update_floor_price_step(old(store)@, info@, collection_id, new_floor_price),
        ),
{
    if store.config().admin != info.sender {
        return Err(ContractError::Unauthorized);
    }
    if store.set_floor_price(collection_id, new_floor_price) {
        Ok(Response::new("update_floor_price"))
    } else {
        Err(ContractError::CollectionNotFound)
    }
}

/// Registering a collection: the administrator sets the terms of a
/// collection, new or known.
pub open spec fn add_nft_collection_step(
    pre: StateView,
    info: MessageInfoView,
    collection: CollectionView,
) -> Outcome {
    if pre.config.admin != info.sender {
        Outcome::Rejected { error: ContractError::Unauthorized }
    } else {
        Outcome::Done {
            state: StateView {
                collections: pre.collections.insert(collection.collection_id, collection),
                ..pre
            },
            response: plain_response("add_nft_collection"@),
        }
    }
}

/// Registers a collection.
pub fn add_nft_collection(store: &mut State, info: &MessageInfo, collection: NFTCollectionResp) -> (
    result: Result<Response, ContractError>
)
    requires
        old(store).wf(),
    ensures
        final(store).wf(),
        carried_out(
            old(store)@,
            final(store)@,
            result,
            add_nft_collection_step(old(store)@, info@, collection@),
        ),
{
    if store.config().admin != info.sender {
        return Err(ContractError::Unauthorized);
    }
    store.put_collection(collection);
    Ok(Response::new("add_nft_collection"))
}

/// Handing over: the administrator names another administrator.
pub open spec fn update_admin_step(pre: StateView, info: MessageInfoView, new_admin: Seq<char>) -> Outcome {
    if pre.config.admin != info.sender {
        Outcome::Rejected { error: ContractError::Unauthorized }
    } else {
        Outcome::Done {
            state: StateView { config: ConfigView { admin: new_admin, ..pre.config }, ..pre },
            response: plain_response("update_admin"@),
        }
    }
}

/// Names another administrator.
pub fn update_admin(store: &mut State, info: &MessageInfo, new_admin: String) -> (result: Result<
    Response,
    ContractError,
>)
    requires
        old(store).wf(),
    ensures
        final(store).wf(),
        carried_out(
            old(store)@,
            final(store)@,
            result,
            update_admin_step(old(store)@, info@, new_admin@),
        ),
{
    if store.config().admin != info.sender {
        return Err(ContractError::Unauthorized);
    }
    store.set_admin(new_admin);
    Ok(Response::new("update_admin"))
}

/// Setting the split: the administrator sets the lender's share of
/// interest, in percentage points. No bound is put on the value; a loan
/// can be repaid in time only while it is at most one hundred.
pub open spec fn update_interest_step(pre: StateView, info: MessageInfoView, interest: u128) -> Outcome {
    if pre.config.admin != info.sender {
        Outcome::Rejected { error: ContractError::Unauthorized }
    } else {
        Outcome::Done {
            state: StateView { config: ConfigView { interest, ..pre.config }, ..pre },
            response: plain_response("update_interest"@),
        }
    }
}

/// Sets the lender's share of interest.
pub fn update_interest(store: &mut State, info: &MessageInfo, interest: u128) -> (result: Result<
    Response,
    ContractError,
>)
    requires
        old(store).wf(),
    ensures
        final(store).wf(),
        carried_out(
            old(store)@,
            final(store)@,
            result,
            update_interest_step(old(store)@, info@, interest),
        ),
{
    if store.config().admin != info.sender {
        return Err(ContractError::Unauthorized);
    }
    store.set_interest(interest);
    Ok(Response::new("update_interest"))
}

/// The message for the token contract that the request `msg` sends, where
/// it sends one.
pub open spec fn request_payload(pre: StateView, env: EnvView, msg: ExecuteMsgView) -> Option<
    Seq<u8>,
> {
    match msg {
        ExecuteMsgView::Borrow { offer_id, token_id } => transfer_nft_json(
            env.contract_address,
            token_id,
        ),
        ExecuteMsgView::Repay { offer_id } => repay_payload(pre, env, offer_id),
        _ => None,
    }
}

/// What the request `msg` comes to, with `payload` as the message for the
/// token contract.
pub open spec fn execute_step(
    pre: StateView,
    env: EnvView,
    info: MessageInfoView,
    msg: ExecuteMsgView,
    payload: Option<Seq<u8>>,
) -> Outcome {
    match msg {
        ExecuteMsgView::Lend { amount, collection_id } => lend_step(
            pre,
            env,
            info,
            amount,
            collection_id,
        ),
        ExecuteMsgView::CancelOffer { offer_id } => cancel_step(pre, info, offer_id),
        ExecuteMsgView::Borrow { offer_id, token_id } => borrow_step(
            pre,
            env,
            info,
            offer_id,
            token_id,
            payload,
        ),
        ExecuteMsgView::UpdateFloorPrice {
            collection_id,
            new_floor_price,
        } => update_floor_price_step(pre, info, collection_id, new_floor_price),
        ExecuteMsgView::AddNFTCollection { collection } => add_nft_collection_step(
            pre,
            info,
            collection,
        ),
        ExecuteMsgView::UpdateAdmin { new_admin } => update_admin_step(pre, info, new_admin),
        ExecuteMsgView::UpdateInterest { interest } => update_interest_step(pre, info, interest),
        ExecuteMsgView::Repay { offer_id } => repay_step(pre, env, info, offer_id, payload),
    }
}

/// Whether the request `msg` is within what the machine can compute: an
/// offer that would be placed still finds an identifier below the end of
/// the 16-bit range, and a settlement meets `repay_defined`.
pub open spec fn execute_defined(
    pre: StateView,
    env: EnvView,
    info: MessageInfoView,
    msg: ExecuteMsgView,
) -> bool {
    match msg {
        ExecuteMsgView::Lend { amount, collection_id } => lend_step(
            pre,
            env,
            info,
            amount,
            collection_id,
        ) is Done ==> pre.last_offer_index < u16::MAX,
        ExecuteMsgView::Repay { offer_id } => repay_defined(pre, env, info, offer_id),
        _ => true,
    }
}

/// Decides whether placing the offer is within what the machine can
/// compute.
pub fn lend_is_defined(
    store: &State,
    env: &Env,
    info: &MessageInfo,
    amount: u128,
    collection_id: u16,
) -> (defined: bool)
    requires
        store.wf(),
    ensures
        defined == (lend_step(store@, env@, info@, amount, collection_id) is Done
            ==> store@.last_offer_index < u16::MAX),
{
    if store.last_offer_index() < u16::MAX {
        return true;
    }
    match store.registry().get(collection_id) {
        Some(terms) => amount > terms.floor_price || check_payment(
            info,
            store.lend_denom().as_str(),
            amount,
        ).is_err(),
        None => true,
    }
}

/// Decides whether settling the offer `offer_id` is within what the machine
/// can compute and what the configuration allows.
pub fn repay_is_defined(store: &State, env: &Env, info: &MessageInfo, offer_id: u16) -> (defined:
    bool)
    requires
        store.wf(),
    ensures
        defined == repay_defined(store@, env@, info@, offer_id),
{
    let ledger = store.ledger();
    let at: usize = match ledger.find(offer_id) {
        Some(at) => at,
        None => {
            return true;
        },
    };
    let offer = ledger.get(at);
    if offer.borrower != info.sender || !offer.accepted {
        return true;
    }
    let terms = match store.registry().get(offer.collection_id) {
        Some(terms) => terms,
        None => {
            return true;
        },
    };
    if is_overdue(offer.start_time, terms.max_time, env.time) {
        return true;
    }
    let reward: u128 = match crate::reward::checked_reward(
        offer.start_time,
        terms.apy,
        env.time,
        offer.amount,
    ) {
        Some(reward) => reward,
        None => {
            return false;
        },
    };
    let due: u128 = match offer.amount.checked_add(reward) {
        Some(due) => due,
        None => {
            return false;
        },
    };
    check_payment(info, store.lend_denom().as_str(), due).is_err() || store.config().interest
        <= 100
}

/// Decides whether the request `msg` is within what the machine can
/// compute.
pub fn execute_is_defined(store: &State, env: &Env, info: &MessageInfo, msg: &ExecuteMsg) -> (defined:
    bool)
    requires
        store.wf(),
    ensures
        defined == execute_defined(store@, env@, info@, msg@),
{
    match msg {
        ExecuteMsg::Lend { amount, collection_id } => lend_is_defined(
            store,
            env,
            info,
            *amount,
            *collection_id,
        ),
        ExecuteMsg::Repay { offer_id } => repay_is_defined(store, env, info, *offer_id),
        _ => true,
    }
}

/// Carries out or rejects a request.
pub fn execute(store: &mut State, env: &Env, info: &MessageInfo, msg: ExecuteMsg) -> (result:
    Result<Response, ContractError>)
    requires
        old(store).wf(),
        execute_defined(old(store)@, env@, info@, msg@),
    ensures
        final(store).wf(),
        carried_out(
            old(store)@,
            final(store)@,
            result,
            execute_step(
                old(store)@,
                env@,
                info@,
                msg@,
                request_payload(old(store)@, env@, msg@),
            ),
        ),
{
    match msg {
        ExecuteMsg::Lend { amount, collection_id } => lend(store, env, info, amount, collection_id),
        ExecuteMsg::CancelOffer { offer_id } => cancel_offer(store, info, offer_id),
        ExecuteMsg::Borrow { offer_id, token_id } => borrow(store, env, info, offer_id, token_id),
        ExecuteMsg::UpdateFloorPrice { collection_id, new_floor_price } => update_floor_price(
            store,
            info,
            collection_id,
            new_floor_price,
        ),
        ExecuteMsg::AddNFTCollection { collection } => add_nft_collection(store, info, collection),
        ExecuteMsg::UpdateAdmin { new_admin } => update_admin(store, info, new_admin),
        ExecuteMsg::UpdateInterest { interest } => update_interest(store, info, interest),
        ExecuteMsg::Repay { offer_id } => repay(store, env, info, offer_id),
    }
}

} // verus!
