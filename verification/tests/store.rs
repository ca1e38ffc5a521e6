use foxy_lend::context::{Coin, Env, MessageInfo};
use foxy_lend::contract::{borrow, cancel_offer, instantiate, lend};
use foxy_lend::error::ContractError;
use foxy_lend::ledger::offer_resps;
use foxy_lend::msg::{ContractConfig, InstantiateMsg, NFTCollectionResp, OfferResp};
use foxy_lend::registry::Registry;
use foxy_lend::state::State;

fn terms(id: u16, floor_price: u128) -> NFTCollectionResp {
    NFTCollectionResp {
        collection_id: id,
        collection: format!("Collection{}", id),
        floor_price,
        contract: format!("contract{}", id),
        apy: 5,
        max_time: 31_536_000,
    }
}

fn offer(id: u16, owner: &str, amount: u128) -> OfferResp {
    OfferResp {
        offer_id: id,
        owner: owner.to_string(),
        amount,
        start_time: 10,
        collection_id: 1,
        token_id: String::new(),
        accepted: false,
        borrower: "none".to_string(),
    }
}

fn taken(id: u16, owner: &str, amount: u128, borrower: &str, token: &str) -> OfferResp {
    OfferResp {
        token_id: token.to_string(),
        accepted: true,
        borrower: borrower.to_string(),
        ..offer(id, owner, amount)
    }
}

fn config() -> ContractConfig {
    ContractConfig { admin: "admin".to_string(), interest: 80 }
}

fn restore(last: u16, offers: Vec<OfferResp>) -> Option<State> {
    State::restore(config(), "SEI".to_string(), last, vec![terms(1, 100), terms(2, 150)], offers)
}

#[test]
fn registry_keeps_one_entry_for_each_identifier() {
    let mut registry = Registry::new();
    assert_eq!(registry.len(), 0);
    assert!(registry.get(1).is_none());
    registry.upsert(terms(1, 100));
    registry.upsert(terms(2, 150));
    registry.upsert(terms(1, 120));
    assert_eq!(registry.len(), 2);
    assert_eq!(registry.get(1), Some(&terms(1, 120)));
    assert_eq!(registry.get(2), Some(&terms(2, 150)));
    assert_eq!(*registry.entry(0), terms(1, 120));
    assert_eq!(*registry.entry(1), terms(2, 150));
    assert!(registry.set_floor_price(2, 7));
    assert_eq!(registry.get(2), Some(&terms(2, 7)));
    assert!(!registry.set_floor_price(3, 7));
    assert_eq!(registry.len(), 2);
    registry.upsert_all(vec![terms(3, 1), terms(2, 2), terms(3, 3)]);
    assert_eq!(registry.len(), 3);
    assert_eq!(registry.get(2), Some(&terms(2, 2)));
    assert_eq!(registry.get(3), Some(&terms(3, 3)));
}

#[test]
fn ledger_finds_offers_by_identifier() {
    let mut ledger = offer_resps();
    assert_eq!(ledger.len(), 0);
    assert_eq!(ledger.find(1), None);
    for id in [2u16, 3, 5, 8, 13, 21] {
        ledger.insert(offer(id, "ann", id as u128));
    }
    assert_eq!(ledger.len(), 6);
    assert_eq!(ledger.find(2), Some(0));
    assert_eq!(ledger.find(3), Some(1));
    assert_eq!(ledger.find(5), Some(2));
    assert_eq!(ledger.find(8), Some(3));
    assert_eq!(ledger.find(13), Some(4));
    assert_eq!(ledger.find(21), Some(5));
    for missing in [0u16, 1, 4, 6, 7, 9, 12, 14, 20, 22, u16::MAX] {
        assert_eq!(ledger.find(missing), None);
    }
    assert_eq!(ledger.get(3).offer_id, 8);
}

#[test]
fn ledger_indexes_follow_insert_accept_and_remove() {
    let mut ledger = offer_resps();
    ledger.insert(offer(1, "ann", 10));
    ledger.insert(offer(2, "bob", 20));
    ledger.insert(offer(3, "ann", 30));
    ledger.insert(taken(4, "bob", 40, "zed", "t4"));
    let ann = "ann".to_string();
    let bob = "bob".to_string();
    let zed = "zed".to_string();
    assert_eq!(ledger.places_lent_by(&ann), vec![0, 2]);
    assert_eq!(ledger.places_lent_by(&bob), vec![1, 3]);
    assert_eq!(ledger.places_taken_by(&zed), vec![3]);
    ledger.accept(0, "zed".to_string(), "t1".to_string());
    assert_eq!(ledger.places_taken_by(&zed), vec![0, 3]);
    assert_eq!(*ledger.get(0), taken(1, "ann", 10, "zed", "t1"));
    ledger.accept(1, "yan".to_string(), "t2".to_string());
    assert_eq!(ledger.places_taken_by(&zed), vec![0, 3]);
    assert_eq!(ledger.places_taken_by(&"yan".to_string()), vec![1]);
    let removed = ledger.remove(0);
    assert_eq!(removed, taken(1, "ann", 10, "zed", "t1"));
    assert_eq!(ledger.len(), 3);
    assert_eq!(ledger.places_lent_by(&ann), vec![1]);
    assert_eq!(ledger.places_lent_by(&bob), vec![0, 2]);
    assert_eq!(ledger.places_taken_by(&zed), vec![2]);
    assert_eq!(ledger.places_taken_by(&"yan".to_string()), vec![0]);
    ledger.remove(2);
    assert_eq!(ledger.places_taken_by(&zed), Vec::<usize>::new());
    assert_eq!(ledger.places_lent_by(&bob), vec![0]);
}

#[test]
fn index_by_owner_matches_the_ledger_after_every_operation() {
    let mut store = instantiate(InstantiateMsg {
        nft_collections: vec![terms(1, 1000)],
        admin: "admin".to_string(),
        interest: 80,
    });
    let owners = ["ann", "bob", "cid"];
    let check = |store: &State| {
        for owner in owners {
            let expected: Vec<usize> = (0..store.ledger().len())
                .filter(|i| store.ledger().get(*i).owner == owner)
                .collect();
            assert_eq!(store.ledger().places_lent_by(&owner.to_string()), expected);
        }
        for borrower in ["zed", "yan", "none"] {
            let expected: Vec<usize> = (0..store.ledger().len())
                .filter(|i| {
                    let o = store.ledger().get(*i);
                    o.accepted && o.borrower == borrower
                })
                .collect();
            assert_eq!(store.ledger().places_taken_by(&borrower.to_string()), expected);
        }
    };
    let env = |time: u64| Env { time, contract_address: "protocol".to_string() };
    let from = |sender: &str| MessageInfo { sender: sender.to_string(), funds: vec![] };
    check(&store);
    for i in 0..9u64 {
        let owner = owners[(i % 3) as usize];
        let paying = MessageInfo {
            sender: owner.to_string(),
            funds: vec![Coin { denom: "SEI".to_string(), amount: 10 + i as u128 }],
        };
        lend(&mut store, &env(i), &paying, 10 + i as u128, 1).unwrap();
        check(&store);
    }
    borrow(&mut store, &env(20), &from("zed"), 5, "t5".to_string()).unwrap();
    check(&store);
    borrow(&mut store, &env(21), &from("yan"), 2, "t2".to_string()).unwrap();
    check(&store);
    cancel_offer(&mut store, &from("ann"), 1).unwrap();
    check(&store);
    cancel_offer(&mut store, &from("admin"), 9).unwrap();
    check(&store);
    assert_eq!(cancel_offer(&mut store, &from("bob"), 5), Err(ContractError::OfferAlreadyAccepted));
    check(&store);
    foxy_lend::contract::repay(&mut store, &env(40_000_000), &from("zed"), 5).unwrap();
    check(&store);
    assert_eq!(store.ledger().len(), 6);
}

#[test]
fn restore_rebuilds_a_store_from_its_parts() {
    let mut played = instantiate(InstantiateMsg {
        nft_collections: vec![terms(1, 100), terms(2, 150)],
        admin: "admin".to_string(),
        interest: 80,
    });
    let env = Env { time: 10, contract_address: "protocol".to_string() };
    for (owner, amount) in [("ann", 10u128), ("bob", 20), ("ann", 30)] {
        let paying = MessageInfo {
            sender: owner.to_string(),
            funds: vec![Coin { denom: "SEI".to_string(), amount }],
        };
        lend(&mut played, &env, &paying, amount, 1).unwrap();
    }
    let zed = MessageInfo { sender: "zed".to_string(), funds: vec![] };
    borrow(&mut played, &env, &zed, 2, "t2".to_string()).unwrap();
    cancel_offer(&mut played, &MessageInfo { sender: "ann".to_string(), funds: vec![] }, 1).unwrap();

    let restored = restore(3, vec![taken(2, "bob", 20, "zed", "t2"), offer(3, "ann", 30)]).unwrap();
    assert_eq!(restored, played);
    assert_eq!(restored.ledger().places_lent_by(&"ann".to_string()), vec![1]);
    assert_eq!(restored.ledger().places_taken_by(&"zed".to_string()), vec![0]);
    assert_eq!(restored.last_offer_index(), 3);
    assert_eq!(*restored.config(), config());
}

#[test]
fn restore_accepts_an_empty_ledger() {
    let store = restore(0, vec![]).unwrap();
    assert_eq!(store.ledger().len(), 0);
    assert_eq!(store.registry().len(), 2);
}

#[test]
fn restore_refuses_parts_that_are_out_of_order() {
    // identifiers not ascending
    assert!(restore(9, vec![offer(2, "ann", 1), offer(1, "ann", 1)]).is_none());
    assert!(restore(9, vec![offer(2, "ann", 1), offer(2, "bob", 1)]).is_none());
    // identifier beyond the counter
    assert!(restore(1, vec![offer(1, "ann", 1), offer(2, "ann", 1)]).is_none());
    assert!(restore(2, vec![offer(1, "ann", 1), offer(2, "ann", 1)]).is_some());
    // unknown collection
    let stray = OfferResp { collection_id: 3, ..offer(1, "ann", 1) };
    assert!(restore(9, vec![stray]).is_none());
    // an open offer that names a borrower or a token
    let named = OfferResp { borrower: "zed".to_string(), ..offer(1, "ann", 1) };
    assert!(restore(9, vec![named]).is_none());
    let tokened = OfferResp { token_id: "t".to_string(), ..offer(1, "ann", 1) };
    assert!(restore(9, vec![tokened]).is_none());
    // a taken offer may name anybody and anything
    assert!(restore(9, vec![taken(1, "ann", 1, "none", "")]).is_some());
}

#[test]
fn index_entries_list_each_offer_under_its_key() {
    let mut ledger = offer_resps();
    ledger.insert(offer(1, "ann", 10));
    ledger.insert(offer(2, "bob", 20));
    ledger.insert(taken(3, "ann", 30, "zed", "t3"));
    ledger.accept(0, "yan".to_string(), "t1".to_string());
    let pairs = |entries: &Vec<foxy_lend::ledger::IndexEntry>| -> Vec<(String, u16)> {
        entries.iter().map(|e| (e.key.clone(), e.offer_id)).collect()
    };
    assert_eq!(
        pairs(ledger.owner_entries()),
        vec![("ann".to_string(), 1), ("bob".to_string(), 2), ("ann".to_string(), 3)]
    );
    assert_eq!(
        pairs(ledger.borrower_entries()),
        vec![("yan".to_string(), 1), ("zed".to_string(), 3)]
    );
    ledger.remove(0);
    assert_eq!(
        pairs(ledger.owner_entries()),
        vec![("bob".to_string(), 2), ("ann".to_string(), 3)]
    );
    assert_eq!(pairs(ledger.borrower_entries()), vec![("zed".to_string(), 3)]);
    ledger.remove(0);
    ledger.remove(0);
    assert!(ledger.owner_entries().is_empty());
    assert!(ledger.borrower_entries().is_empty());
}
