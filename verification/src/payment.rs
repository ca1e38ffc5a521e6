//! Validation of the payment attached to a call.

use vstd::prelude::*;
use crate::context::{CoinView, MessageInfo};
use crate::error::ContractError;

verus! {

/// `cw_utils::PaymentError`, the payment library's own error. The core
/// reads nothing from it.
#[verifier::external_type_specification]
#[verifier::external_body]
pub struct ExPaymentError(cw_utils::PaymentError);

/// The amount that counts as paid in `denom`: that of the only coin
/// attached, provided it is not zero and is of that denomination.
pub open spec fn paid_amount(funds: Seq<CoinView>, denom: Seq<char>) -> Option<u128> {
    if funds.len() == 1 && funds[0].amount != 0 && funds[0].denom == denom {
        Some(funds[0].amount)
    } else {
        None
    }
}

/// `cw_utils::must_pay`, on the caller's funds rebuilt as the host's
/// `MessageInfo`. It returns the amount of the single coin attached when
/// that coin is not zero and has the denomination asked for, and fails when
/// no coin, several coins, a zero coin or a coin of another denomination is
/// attached.
#[verifier::external_body]
fn must_pay(info: &MessageInfo, denom: &str) -> (paid: Result<u128, cw_utils::PaymentError>)
    ensures
        match paid {
            Ok(amount) => paid_amount(info@.funds, denom@) == Some(amount),
            Err(_) => paid_amount(info@.funds, denom@) is None,
        },
{
    let funds = info.funds.iter().map(|c| cosmwasm_std::Coin::new(c.amount, c.denom.clone()));
    let sent = cosmwasm_std::MessageInfo {
        sender: cosmwasm_std::Addr::unchecked(info.sender.clone()),
        funds: funds.collect(),
    };
    match cw_utils::must_pay(&sent, denom) {
        Ok(amount) => Ok(amount.u128()),
        Err(e) => Err(e),
    }
}

/// What the validation of a payment against the amount `required` yields:
/// `None` when it passes, else the reason for which it fails.
pub open spec fn payment_fault(funds: Seq<CoinView>, denom: Seq<char>, required: u128) -> Option<
    ContractError,
> {
    match paid_amount(funds, denom) {
        None => Some(ContractError::DepositFail),
        Some(amount) => if amount == required {
            None
        } else {
            Some(ContractError::NotExactAmount)
        },
    }
}

/// Accepts the attached payment only if it is exactly one coin of `denom`
/// whose amount is `required`.
pub fn check_payment(info: &MessageInfo, denom: &str, required: u128) -> (checked: Result<
    (),
    ContractError,
>)
    ensures
        match payment_fault(info@.funds, denom@, required) {
            None => checked is Ok,
            Some(fault) => checked == Err::<(), ContractError>(fault),
        },
{
    match must_pay(info, denom) {
        Ok(amount) => if amount == required {
            Ok(())
        } else {
            Err(ContractError::NotExactAmount)
        },
        Err(_) => Err(ContractError::DepositFail),
    }
}

} // verus!
