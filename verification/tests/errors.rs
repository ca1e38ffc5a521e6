use cosmwasm_std::StdError;
use foxy_lend::error::ContractError;

#[test]
fn each_rejection_has_its_text() {
    assert_eq!(ContractError::Unauthorized.message(), "Not Owner");
    assert_eq!(ContractError::InvalidNftOwner.message(), "Invalid NFT Owner");
    assert_eq!(ContractError::InvalidOfferId.message(), "Invalid Offer Id");
    assert_eq!(ContractError::InvalidBorrow.message(), "Invalid Borrower");
    assert_eq!(
        ContractError::TooMuchLendAmount.message(),
        "Lend amount should be less than floor price of collection"
    );
    assert_eq!(ContractError::InvalidOfferOwner.message(), "Invalid Offer Owner");
    assert_eq!(ContractError::CollectionNotFound.message(), "Collection not found");
    assert_eq!(ContractError::CollectionLoadFail.message(), "Collections Loading Fail");
    assert_eq!(ContractError::DepositFail.message(), "DepositFail");
    assert_eq!(ContractError::NotExactAmount.message(), "Not Exact amount to lend");
    assert_eq!(ContractError::OfferNotFound.message(), "Offer not found");
    assert_eq!(ContractError::OfferAlreadyAccepted.message(), "Offer already accepted");
    assert_eq!(ContractError::OfferNotAccepted.message(), "Offer Not accepted");
}

#[test]
fn host_error_shows_its_own_text() {
    let error = ContractError::Std(StdError::generic_err("boom"));
    assert_eq!(error.message(), StdError::generic_err("boom").to_string());
    assert_eq!(error.message(), "Generic error: boom");
}
