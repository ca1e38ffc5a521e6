use cosmwasm_std::StdError;
use foxy_lend::context::{Coin, Env, MessageInfo};
use foxy_lend::contract::{
    borrow, borrow_with_payload, cancel_offer, execute, execute_is_defined, instantiate, lend,
    lend_is_defined, repay, repay_is_defined, repay_with_payload,
};
use foxy_lend::error::ContractError;
use foxy_lend::msg::{ExecuteMsg, InstantiateMsg, NFTCollectionResp, OfferResp};
use foxy_lend::response::{Attribute, Response, Transfer};
use foxy_lend::state::State;

const YEAR: u64 = 3600 * 24 * 365;
const DAY: u64 = 3600 * 24;

fn collection(id: u16, floor_price: u128, apy: u16, max_time: u64) -> NFTCollectionResp {
    NFTCollectionResp {
        collection_id: id,
        collection: format!("Collection{}", id),
        floor_price,
        contract: format!("contract{}", id),
        apy,
        max_time,
    }
}

fn fresh() -> State {
    instantiate(InstantiateMsg {
        nft_collections: vec![collection(1, 100, 5, YEAR), collection(2, 150, 7, YEAR)],
        admin: "admin".to_string(),
        interest: 80,
    })
}

fn env(time: u64) -> Env {
    Env { time, contract_address: "lender_contract".to_string() }
}

fn info(sender: &str, amount: u128) -> MessageInfo {
    MessageInfo {
        sender: sender.to_string(),
        funds: vec![Coin { denom: "SEI".to_string(), amount }],
    }
}

fn bare(sender: &str) -> MessageInfo {
    MessageInfo { sender: sender.to_string(), funds: vec![] }
}

fn attr(key: &str, value: &str) -> Attribute {
    Attribute { key: key.to_string(), value: value.to_string() }
}

fn funds(recipient: &str, amount: u128) -> Transfer {
    Transfer::Funds { recipient: recipient.to_string(), denom: "SEI".to_string(), amount }
}

fn asset(contract: &str, recipient: &str, token_id: &str) -> Transfer {
    Transfer::Asset {
        contract: contract.to_string(),
        recipient: recipient.to_string(),
        token_id: token_id.to_string(),
        msg: format!(
            "{{\"transfer_nft\":{{\"recipient\":\"{}\",\"token_id\":\"{}\"}}}}",
            recipient, token_id
        )
        .into_bytes(),
    }
}

/// A store with offer 1 of 50 by "user" at time 1000, taken by "borrow"
/// against "token123".
fn with_loan() -> State {
    let mut store = fresh();
    lend(&mut store, &env(1000), &info("user", 50), 50, 1).unwrap();
    borrow(&mut store, &env(2000), &bare("borrow"), 1, "token123".to_string()).unwrap();
    store
}

#[test]
fn lend_with_exact_payment_creates_first_offer() {
    let mut store = fresh();
    let res = lend(&mut store, &env(1000), &info("user", 50), 50, 1).unwrap();
    assert_eq!(res, Response { messages: vec![], attributes: vec![attr("action", "lend")] });
    assert_eq!(store.last_offer_index(), 1);
    assert_eq!(store.ledger().len(), 1);
    assert_eq!(
        *store.ledger().get(0),
        OfferResp {
            offer_id: 1,
            owner: "user".to_string(),
            amount: 50,
            start_time: 1000,
            collection_id: 1,
            token_id: "".to_string(),
            accepted: false,
            borrower: "none".to_string(),
        }
    );
}

#[test]
fn lend_gives_out_identifiers_in_sequence_and_never_again() {
    let mut store = fresh();
    lend(&mut store, &env(1), &info("a", 10), 10, 1).unwrap();
    lend(&mut store, &env(2), &info("b", 20), 20, 2).unwrap();
    cancel_offer(&mut store, &bare("b"), 2).unwrap();
    lend(&mut store, &env(3), &info("c", 30), 30, 1).unwrap();
    assert_eq!(store.last_offer_index(), 3);
    assert_eq!(store.ledger().len(), 2);
    assert_eq!(store.ledger().get(0).offer_id, 1);
    assert_eq!(store.ledger().get(1).offer_id, 3);
    assert_eq!(store.ledger().find(2), None);
}

#[test]
fn lend_above_floor_price_is_refused() {
    let mut store = fresh();
    let before = store.clone();
    let res = lend(&mut store, &env(1000), &info("user", 200), 200, 1);
    assert_eq!(res, Err(ContractError::TooMuchLendAmount));
    assert_eq!(store, before);
}

#[test]
fn lend_above_floor_price_is_refused_whatever_is_attached() {
    let mut store = fresh();
    assert_eq!(
        lend(&mut store, &env(1000), &bare("user"), 200, 1),
        Err(ContractError::TooMuchLendAmount)
    );
    assert_eq!(
        lend(&mut store, &env(1000), &info("user", 50), 101, 1),
        Err(ContractError::TooMuchLendAmount)
    );
}

#[test]
fn lend_at_floor_price_is_accepted() {
    let mut store = fresh();
    assert!(lend(&mut store, &env(1000), &info("user", 100), 100, 1).is_ok());
}

#[test]
fn lend_against_unknown_collection_is_refused() {
    let mut store = fresh();
    let before = store.clone();
    assert_eq!(
        lend(&mut store, &env(1000), &info("user", 50), 50, 9),
        Err(ContractError::CollectionNotFound)
    );
    assert_eq!(store, before);
}

#[test]
fn lend_without_payment_is_refused() {
    let mut store = fresh();
    let before = store.clone();
    assert_eq!(lend(&mut store, &env(1000), &bare("user"), 50, 1), Err(ContractError::DepositFail));
    assert_eq!(store, before);
}

#[test]
fn lend_with_other_amount_attached_is_refused() {
    let mut store = fresh();
    let before = store.clone();
    assert_eq!(
        lend(&mut store, &env(1000), &info("user", 49), 50, 1),
        Err(ContractError::NotExactAmount)
    );
    assert_eq!(
        lend(&mut store, &env(1000), &info("user", 51), 50, 1),
        Err(ContractError::NotExactAmount)
    );
    assert_eq!(store, before);
}

#[test]
fn lend_of_nothing_is_refused_as_unpaid() {
    let mut store = fresh();
    assert_eq!(
        lend(&mut store, &env(1000), &info("user", 0), 0, 1),
        Err(ContractError::DepositFail)
    );
}

#[test]
fn borrow_marks_offer_and_second_borrow_fails() {
    let mut store = fresh();
    lend(&mut store, &env(1000), &info("user", 50), 50, 1).unwrap();
    let res = borrow(&mut store, &env(1001), &bare("another_user"), 1, "token123".to_string())
        .unwrap();
    assert_eq!(
        res.messages,
        vec![
            Transfer::Asset {
                contract: "contract1".to_string(),
                recipient: "lender_contract".to_string(),
                token_id: "token123".to_string(),
                msg: br#"{"transfer_nft":{"recipient":"lender_contract","token_id":"token123"}}"#
                    .to_vec(),
            },
            funds("another_user", 50),
        ]
    );
    assert_eq!(res.attributes, vec![attr("action", "borrow")]);
    assert_eq!(
        *store.ledger().get(0),
        OfferResp {
            offer_id: 1,
            owner: "user".to_string(),
            amount: 50,
            start_time: 1000,
            collection_id: 1,
            token_id: "token123".to_string(),
            accepted: true,
            borrower: "another_user".to_string(),
        }
    );
    let before = store.clone();
    let again = borrow(&mut store, &env(1002), &bare("third"), 1, "token9".to_string());
    assert_eq!(again, Err(ContractError::OfferAlreadyAccepted));
    assert_eq!(store, before);
}

#[test]
fn borrow_of_unknown_offer_is_refused() {
    let mut store = fresh();
    assert_eq!(
        borrow(&mut store, &env(1), &bare("borrow"), 1, "t".to_string()),
        Err(ContractError::OfferNotFound)
    );
}

#[test]
fn borrow_hands_an_encoding_failure_back_and_changes_nothing() {
    let mut store = fresh();
    lend(&mut store, &env(1000), &info("user", 50), 50, 1).unwrap();
    let before = store.clone();
    let res = borrow_with_payload(
        &mut store,
        &env(1001),
        &bare("borrow"),
        1,
        "token123".to_string(),
        Err(StdError::generic_err("boom")),
    );
    assert_eq!(res, Err(ContractError::Std(StdError::generic_err("boom"))));
    assert_eq!(store, before);
}

#[test]
fn borrow_checks_the_offer_before_the_encoding() {
    let mut store = fresh();
    let res = borrow_with_payload(
        &mut store,
        &env(1001),
        &bare("borrow"),
        7,
        "token123".to_string(),
        Err(StdError::generic_err("boom")),
    );
    assert_eq!(res, Err(ContractError::OfferNotFound));
}

#[test]
fn borrow_uses_the_payload_it_is_given() {
    let mut store = fresh();
    lend(&mut store, &env(1000), &info("user", 50), 50, 2).unwrap();
    let res = borrow_with_payload(
        &mut store,
        &env(1001),
        &bare("borrow"),
        1,
        "t7".to_string(),
        Ok(vec![1, 2, 3]),
    )
    .unwrap();
    assert_eq!(
        res.messages[0],
        Transfer::Asset {
            contract: "contract2".to_string(),
            recipient: "lender_contract".to_string(),
            token_id: "t7".to_string(),
            msg: vec![1, 2, 3],
        }
    );
}

#[test]
fn cancel_twice_succeeds_then_reports_missing_offer() {
    let mut store = fresh();
    lend(&mut store, &env(1000), &info("user", 50), 50, 1).unwrap();
    let res = cancel_offer(&mut store, &bare("user"), 1).unwrap();
    assert_eq!(res.messages, vec![funds("user", 50)]);
    assert_eq!(res.attributes, vec![attr("action", "cancel_offer"), attr("denom", "SEI")]);
    assert_eq!(store.ledger().len(), 0);
    let after_first = store.clone();
    assert_eq!(cancel_offer(&mut store, &bare("user"), 1), Err(ContractError::OfferNotFound));
    assert_eq!(cancel_offer(&mut store, &bare("admin"), 1), Err(ContractError::OfferNotFound));
    assert_eq!(store, after_first);
}

#[test]
fn cancel_by_the_administrator_refunds_the_lender() {
    let mut store = fresh();
    lend(&mut store, &env(1000), &info("user", 50), 50, 1).unwrap();
    let res = cancel_offer(&mut store, &bare("admin"), 1).unwrap();
    assert_eq!(res.messages, vec![funds("user", 50)]);
}

#[test]
fn cancel_by_a_stranger_is_refused() {
    let mut store = fresh();
    lend(&mut store, &env(1000), &info("user", 50), 50, 1).unwrap();
    let before = store.clone();
    assert_eq!(
        cancel_offer(&mut store, &bare("another_user"), 1),
        Err(ContractError::InvalidOfferOwner)
    );
    assert_eq!(store, before);
}

#[test]
fn cancel_of_a_taken_offer_is_refused() {
    let mut store = with_loan();
    let before = store.clone();
    assert_eq!(cancel_offer(&mut store, &bare("user"), 1), Err(ContractError::OfferAlreadyAccepted));
    assert_eq!(cancel_offer(&mut store, &bare("admin"), 1), Err(ContractError::OfferAlreadyAccepted));
    assert_eq!(store, before);
}

#[test]
fn repay_after_deadline_forfeits_collateral() {
    let mut store = with_loan();
    let res = repay(&mut store, &env(1000 + YEAR + 1), &info("borrow", 7), 1).unwrap();
    assert_eq!(res.messages, vec![asset("contract1", "user", "token123")]);
    assert_eq!(res.attributes, vec![attr("action", "repay_fail")]);
    assert_eq!(store.ledger().len(), 0);
}

#[test]
fn repay_after_deadline_asks_for_no_payment() {
    let mut store = with_loan();
    let res = repay(&mut store, &env(1000 + 400 * DAY), &bare("borrow"), 1).unwrap();
    assert_eq!(res.messages, vec![asset("contract1", "user", "token123")]);
    assert_eq!(store.ledger().find(1), None);
}

#[test]
fn repay_exactly_at_deadline_is_in_time() {
    let mut store = with_loan();
    // 50 * YEAR * 5 / YEAR = 250 interest
    let res = repay(&mut store, &env(1000 + YEAR), &info("borrow", 300), 1).unwrap();
    assert_eq!(
        res.messages,
        vec![asset("contract1", "borrow", "token123"), funds("user", 250), funds("admin", 50)]
    );
    assert_eq!(res.attributes, vec![attr("action", "repay success")]);
    assert_eq!(store.ledger().len(), 0);
}

#[test]
fn repay_exactly_at_deadline_still_needs_the_payment() {
    let mut store = with_loan();
    let before = store.clone();
    assert_eq!(
        repay(&mut store, &env(1000 + YEAR), &bare("borrow"), 1),
        Err(ContractError::DepositFail)
    );
    assert_eq!(store, before);
}

#[test]
fn repay_in_time_splits_interest_rounding_down() {
    let mut store = with_loan();
    // 50 * (180 days) * 5 / YEAR = 123.28.. -> 123; 80% of 123 -> 98; 20% -> 24
    let res = repay(&mut store, &env(1000 + 180 * DAY), &info("borrow", 173), 1).unwrap();
    assert_eq!(
        res.messages,
        vec![asset("contract1", "borrow", "token123"), funds("user", 148), funds("admin", 24)]
    );
    assert_eq!(store.ledger().len(), 0);
}

#[test]
fn repay_in_time_with_wrong_payment_is_refused() {
    let mut store = with_loan();
    let before = store.clone();
    let now = env(1000 + 180 * DAY);
    assert_eq!(repay(&mut store, &now, &info("borrow", 172), 1), Err(ContractError::NotExactAmount));
    assert_eq!(repay(&mut store, &now, &info("borrow", 174), 1), Err(ContractError::NotExactAmount));
    assert_eq!(repay(&mut store, &now, &info("borrow", 50), 1), Err(ContractError::NotExactAmount));
    assert_eq!(repay(&mut store, &now, &bare("borrow"), 1), Err(ContractError::DepositFail));
    let other = MessageInfo {
        sender: "borrow".to_string(),
        funds: vec![Coin { denom: "ATOM".to_string(), amount: 173 }],
    };
    assert_eq!(repay(&mut store, &now, &other, 1), Err(ContractError::DepositFail));
    assert_eq!(store, before);
}

#[test]
fn repay_by_another_than_the_borrower_is_refused() {
    let mut store = with_loan();
    let before = store.clone();
    assert_eq!(
        repay(&mut store, &env(1000 + DAY), &info("user", 50), 1),
        Err(ContractError::InvalidBorrow)
    );
    assert_eq!(store, before);
}

#[test]
fn repay_of_an_offer_nobody_took_is_refused() {
    let mut store = fresh();
    lend(&mut store, &env(1000), &info("user", 50), 50, 1).unwrap();
    let before = store.clone();
    assert_eq!(
        repay(&mut store, &env(2000), &info("none", 50), 1),
        Err(ContractError::OfferNotAccepted)
    );
    assert_eq!(
        repay(&mut store, &env(2000), &info("borrow", 50), 1),
        Err(ContractError::InvalidBorrow)
    );
    assert_eq!(store, before);
}

#[test]
fn repay_of_unknown_offer_is_refused() {
    let mut store = fresh();
    assert_eq!(
        repay(&mut store, &env(2000), &info("borrow", 50), 4),
        Err(ContractError::OfferNotFound)
    );
}

#[test]
fn repay_hands_an_encoding_failure_back_and_changes_nothing() {
    let mut store = with_loan();
    let before = store.clone();
    let late = repay_with_payload(
        &mut store,
        &env(1000 + YEAR + 1),
        &bare("borrow"),
        1,
        Err(StdError::generic_err("late")),
    );
    assert_eq!(late, Err(ContractError::Std(StdError::generic_err("late"))));
    let in_time = repay_with_payload(
        &mut store,
        &env(1000 + 180 * DAY),
        &info("borrow", 173),
        1,
        Err(StdError::generic_err("in time")),
    );
    assert_eq!(in_time, Err(ContractError::Std(StdError::generic_err("in time"))));
    let unpaid = repay_with_payload(
        &mut store,
        &env(1000 + 180 * DAY),
        &info("borrow", 1),
        1,
        Err(StdError::generic_err("unpaid")),
    );
    assert_eq!(unpaid, Err(ContractError::NotExactAmount));
    assert_eq!(store, before);
}

#[test]
fn repay_is_undefined_while_the_share_exceeds_one_hundred() {
    let mut store = with_loan();
    foxy_lend::contract::update_interest(&mut store, &bare("admin"), 101).unwrap();
    let now = env(1000 + 180 * DAY);
    assert!(!repay_is_defined(&store, &now, &info("borrow", 173), 1));
    // a payment that is refused anyway, or a loan in default, needs no split
    assert!(repay_is_defined(&store, &now, &info("borrow", 172), 1));
    assert!(repay_is_defined(&store, &env(1000 + YEAR + 1), &info("borrow", 173), 1));
    foxy_lend::contract::update_interest(&mut store, &bare("admin"), 100).unwrap();
    assert!(repay_is_defined(&store, &now, &info("borrow", 173), 1));
    let res = repay(&mut store, &now, &info("borrow", 173), 1).unwrap();
    assert_eq!(res.messages[1], funds("user", 173));
    assert_eq!(res.messages[2], funds("admin", 0));
}

#[test]
fn repay_is_undefined_when_time_runs_backwards_or_interest_overflows() {
    let store = with_loan();
    assert!(!repay_is_defined(&store, &env(999), &info("borrow", 50), 1));
    assert!(repay_is_defined(&store, &env(1000), &info("borrow", 50), 1));
    // requests that are rejected before settlement are always defined
    assert!(repay_is_defined(&store, &env(999), &info("user", 50), 1));
    assert!(repay_is_defined(&store, &env(999), &info("borrow", 50), 2));

    let mut big = instantiate(InstantiateMsg {
        nft_collections: vec![collection(1, u128::MAX, 5, YEAR)],
        admin: "admin".to_string(),
        interest: 80,
    });
    lend(&mut big, &env(0), &info("user", u128::MAX), u128::MAX, 1).unwrap();
    borrow(&mut big, &env(0), &bare("borrow"), 1, "t".to_string()).unwrap();
    assert!(!repay_is_defined(&big, &env(10), &info("borrow", 5), 1));
    // at the very start the interest is zero and the amount due fits
    assert!(repay_is_defined(&big, &env(0), &info("borrow", u128::MAX), 1));
    assert!(repay_is_defined(&big, &env(YEAR + 1), &info("borrow", 5), 1));
}

#[test]
fn lend_is_undefined_only_when_identifiers_run_out() {
    let store = fresh();
    assert!(lend_is_defined(&store, &env(1), &info("user", 50), 50, 1));
    let full = State::restore(
        foxy_lend::msg::ContractConfig { admin: "admin".to_string(), interest: 80 },
        "SEI".to_string(),
        u16::MAX,
        vec![collection(1, 100, 5, YEAR)],
        vec![],
    )
    .unwrap();
    assert!(!lend_is_defined(&full, &env(1), &info("user", 50), 50, 1));
    assert!(lend_is_defined(&full, &env(1), &info("user", 50), 50, 2));
    assert!(lend_is_defined(&full, &env(1), &info("user", 50), 200, 1));
    assert!(lend_is_defined(&full, &env(1), &bare("user"), 50, 1));
    assert!(!execute_is_defined(
        &full,
        &env(1),
        &info("user", 50),
        &ExecuteMsg::Lend { amount: 50, collection_id: 1 }
    ));
    assert!(execute_is_defined(
        &full,
        &env(1),
        &bare("user"),
        &ExecuteMsg::CancelOffer { offer_id: 1 }
    ));
}

#[test]
fn execute_dispatches_each_request() {
    let mut store = fresh();
    let res = execute(
        &mut store,
        &env(1000),
        &info("user", 50),
        ExecuteMsg::Lend { amount: 50, collection_id: 1 },
    )
    .unwrap();
    assert_eq!(res.attributes, vec![attr("action", "lend")]);
    let res = execute(
        &mut store,
        &env(1000),
        &info("user", 60),
        ExecuteMsg::Lend { amount: 60, collection_id: 2 },
    )
    .unwrap();
    assert_eq!(res.attributes, vec![attr("action", "lend")]);
    let res = execute(
        &mut store,
        &env(1500),
        &bare("borrow"),
        ExecuteMsg::Borrow { offer_id: 1, token_id: "token123".to_string() },
    )
    .unwrap();
    assert_eq!(
        res.messages,
        vec![asset("contract1", "lender_contract", "token123"), funds("borrow", 50)]
    );
    let res =
        execute(&mut store, &env(1600), &bare("user"), ExecuteMsg::CancelOffer { offer_id: 2 })
            .unwrap();
    assert_eq!(res.messages, vec![funds("user", 60)]);
    let repay_msg = ExecuteMsg::Repay { offer_id: 1 };
    assert!(execute_is_defined(&store, &env(1000 + 180 * DAY), &info("borrow", 173), &repay_msg));
    let res = execute(&mut store, &env(1000 + 180 * DAY), &info("borrow", 173), repay_msg).unwrap();
    assert_eq!(
        res.messages,
        vec![asset("contract1", "borrow", "token123"), funds("user", 148), funds("admin", 24)]
    );
    assert_eq!(store.ledger().len(), 0);
    assert_eq!(store.last_offer_index(), 2);
    assert_eq!(
        execute(&mut store, &env(1), &bare("user"), ExecuteMsg::UpdateInterest { interest: 1 }),
        Err(ContractError::Unauthorized)
    );
}

#[test]
fn taken_offers_name_borrower_and_token_and_open_offers_neither() {
    let mut store = fresh();
    lend(&mut store, &env(1), &info("a", 10), 10, 1).unwrap();
    lend(&mut store, &env(2), &info("b", 20), 20, 2).unwrap();
    lend(&mut store, &env(3), &info("c", 30), 30, 1).unwrap();
    borrow(&mut store, &env(4), &bare("x"), 2, "tok".to_string()).unwrap();
    for i in 0..store.ledger().len() {
        let offer = store.ledger().get(i);
        if offer.accepted {
            assert_ne!(offer.borrower, "none");
            assert!(!offer.token_id.is_empty());
        } else {
            assert_eq!(offer.borrower, "none");
            assert!(offer.token_id.is_empty());
        }
    }
}

#[test]
fn what_is_paid_out_adds_up_to_what_was_paid_in() {
    // interest 250, of which 80 hundredths are a whole number of units
    let mut store = with_loan();
    let res = repay(&mut store, &env(1000 + YEAR), &info("borrow", 300), 1).unwrap();
    let paid_out: u128 = res
        .messages
        .iter()
        .map(|m| match m {
            Transfer::Funds { amount, .. } => *amount,
            Transfer::Asset { .. } => 0,
        })
        .sum();
    assert_eq!(paid_out, 300);

    // interest 123: both parts are rounded down and one unit stays behind
    let mut store = with_loan();
    let res = repay(&mut store, &env(1000 + 180 * DAY), &info("borrow", 173), 1).unwrap();
    let paid_out: u128 = res
        .messages
        .iter()
        .map(|m| match m {
            Transfer::Funds { amount, .. } => *amount,
            Transfer::Asset { .. } => 0,
        })
        .sum();
    assert_eq!(paid_out, 172);
}
