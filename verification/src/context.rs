//! What the host tells the core about the call in progress: who calls, when,
//! and what payment is attached.

use vstd::prelude::*;

verus! {

/// An amount of one denomination.
#[derive(Clone, Debug, PartialEq, Eq)]
pub struct Coin {
    pub denom: String,
    pub amount: u128,
}

/// A coin as specifications see it.
pub struct CoinView {
    pub denom: Seq<char>,
    pub amount: u128,
}

impl View for Coin {
    type V = CoinView;

    open spec fn view(&self) -> CoinView {
        CoinView { denom: self.denom@, amount: self.amount }
    }
}

/// The caller of an operation and the payment attached to the call.
#[derive(Clone, Debug, PartialEq, Eq)]
pub struct MessageInfo {
    pub sender: String,
    pub funds: Vec<Coin>,
}

/// Caller and payment as specifications see them.
pub struct MessageInfoView {
    pub sender: Seq<char>,
    pub funds: Seq<CoinView>,
}

impl View for MessageInfo {
    type V = MessageInfoView;

    open spec fn view(&self) -> MessageInfoView {
        MessageInfoView {
            sender: self.sender@,
            funds: self.funds@.map_values(|c: Coin| c@),
        }
    }
}

/// The time of the call, in seconds, and the address under which the
/// protocol itself holds collateral.
#[derive(Clone, Debug, PartialEq, Eq)]
pub struct Env {
    pub time: u64,
    pub contract_address: String,
}

/// Time and protocol address as specifications see them.
pub struct EnvView {
    pub time: u64,
    pub contract_address: Seq<char>,
}

impl View for Env {
    type V = EnvView;

    open spec fn view(&self) -> EnvView {
        EnvView { time: self.time, contract_address: self.contract_address@ }
    }
}

} // verus!
