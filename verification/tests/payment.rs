use foxy_lend::context::{Coin, MessageInfo};
use foxy_lend::error::ContractError;
use foxy_lend::payment::check_payment;

fn coin(amount: u128, denom: &str) -> Coin {
    Coin { denom: denom.to_string(), amount }
}

fn paying(funds: Vec<Coin>) -> MessageInfo {
    MessageInfo { sender: "sender".to_string(), funds }
}

#[test]
fn exact_payment_in_the_right_denomination_passes() {
    assert_eq!(check_payment(&paying(vec![coin(100, "SEI")]), "SEI", 100), Ok(()));
    assert_eq!(check_payment(&paying(vec![coin(u128::MAX, "SEI")]), "SEI", u128::MAX), Ok(()));
}

#[test]
fn payment_of_another_amount_is_not_exact() {
    assert_eq!(
        check_payment(&paying(vec![coin(99, "SEI")]), "SEI", 100),
        Err(ContractError::NotExactAmount)
    );
    assert_eq!(
        check_payment(&paying(vec![coin(101, "SEI")]), "SEI", 100),
        Err(ContractError::NotExactAmount)
    );
    assert_eq!(
        check_payment(&paying(vec![coin(5, "SEI")]), "SEI", 0),
        Err(ContractError::NotExactAmount)
    );
}

#[test]
fn missing_payment_is_a_failed_deposit() {
    assert_eq!(check_payment(&paying(vec![]), "SEI", 100), Err(ContractError::DepositFail));
    assert_eq!(check_payment(&paying(vec![]), "SEI", 0), Err(ContractError::DepositFail));
}

#[test]
fn zero_coin_is_a_failed_deposit() {
    assert_eq!(
        check_payment(&paying(vec![coin(0, "SEI")]), "SEI", 0),
        Err(ContractError::DepositFail)
    );
    assert_eq!(
        check_payment(&paying(vec![coin(0, "SEI")]), "SEI", 10),
        Err(ContractError::DepositFail)
    );
}

#[test]
fn other_denomination_is_a_failed_deposit() {
    assert_eq!(
        check_payment(&paying(vec![coin(100, "wei")]), "SEI", 100),
        Err(ContractError::DepositFail)
    );
    assert_eq!(
        check_payment(&paying(vec![coin(100, "sei")]), "SEI", 100),
        Err(ContractError::DepositFail)
    );
}

#[test]
fn several_coins_are_a_failed_deposit() {
    assert_eq!(
        check_payment(&paying(vec![coin(100, "SEI"), coin(1, "wei")]), "SEI", 100),
        Err(ContractError::DepositFail)
    );
    assert_eq!(
        check_payment(&paying(vec![coin(50, "SEI"), coin(50, "SEI")]), "SEI", 100),
        Err(ContractError::DepositFail)
    );
}
