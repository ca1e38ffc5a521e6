//! Reasons for which an operation is rejected.

use vstd::prelude::*;

verus! {

/// `cosmwasm_std::StdError`, the host library's own error. The core carries
/// it through unchanged and reads nothing from it.
#[verifier::external_type_specification]
#[verifier::external_body]
pub struct ExStdError(cosmwasm_std::StdError);

/// Why an operation was rejected. A rejected operation leaves the store as it
/// was.
#[derive(Debug, PartialEq)]
pub enum ContractError {
    /// A failure reported by the host library.
    Std(cosmwasm_std::StdError),
    /// The caller is not the administrator.
    Unauthorized,
    InvalidNftOwner,
    InvalidOfferId,
    /// The caller is not the borrower of the offer.
    InvalidBorrow,
    /// The amount offered exceeds the floor price of the collection.
    TooMuchLendAmount,
    /// The caller is neither the lender nor the administrator.
    InvalidOfferOwner,
    /// No collection is registered under the identifier.
    CollectionNotFound,
    CollectionLoadFail,
    /// No payment, more than one coin, a coin of value zero or a coin of
    /// another denomination was attached.
    DepositFail,
    /// The attached payment differs from the amount that is due.
    NotExactAmount,
    /// No live offer has the identifier.
    OfferNotFound,
    /// The offer has already been taken by a borrower.
    OfferAlreadyAccepted,
    /// The offer has not been taken by a borrower.
    OfferNotAccepted,
}

/// `StdError`'s `to_string`: the text under which the host library shows
/// its error. Nothing is claimed of the text.
#[verifier::external_body]
fn std_error_text(e: &cosmwasm_std::StdError) -> (text: String) {
    e.to_string()
}

impl ContractError {
    /// Whether the error is one that the host library reported.
    pub open spec fn is_std(self) -> bool {
        self is Std
    }

    /// The text that describes a rejection to a person; for an error of the
    /// host library, nothing is fixed here.
    pub open spec fn message_text(self) -> Seq<char> {
        match self {
            ContractError::Std(_) => Seq::empty(),
            ContractError::Unauthorized => "Not Owner"@,
            ContractError::InvalidNftOwner => "Invalid NFT Owner"@,
            ContractError::InvalidOfferId => "Invalid Offer Id"@,
            ContractError::InvalidBorrow => "Invalid Borrower"@,
            ContractError::TooMuchLendAmount =>
                "Lend amount should be less than floor price of collection"@,
            ContractError::InvalidOfferOwner => "Invalid Offer Owner"@,
            ContractError::CollectionNotFound => "Collection not found"@,
            ContractError::CollectionLoadFail => "Collections Loading Fail"@,
            ContractError::DepositFail => "DepositFail"@,
            ContractError::NotExactAmount => "Not Exact amount to lend"@,
            ContractError::OfferNotFound => "Offer not found"@,
            ContractError::OfferAlreadyAccepted => "Offer already accepted"@,
            ContractError::OfferNotAccepted => "Offer Not accepted"@,
        }
    }

    /// Describes the rejection to a person.
    pub fn message(&self) -> (text: String)
        ensures
            !self.is_std() ==> text@ == self.message_text(),
    {
        match self {
            ContractError::Std(e) => std_error_text(e),
            ContractError::Unauthorized => "Not Owner".to_owned(),
            ContractError::InvalidNftOwner => "Invalid NFT Owner".to_owned(),
            ContractError::InvalidOfferId => "Invalid Offer Id".to_owned(),
            ContractError::InvalidBorrow => "Invalid Borrower".to_owned(),
            ContractError::TooMuchLendAmount =>
                "Lend amount should be less than floor price of collection".to_owned(),
            ContractError::InvalidOfferOwner => "Invalid Offer Owner".to_owned(),
            ContractError::CollectionNotFound => "Collection not found".to_owned(),
            ContractError::CollectionLoadFail => "Collections Loading Fail".to_owned(),
            ContractError::DepositFail => "DepositFail".to_owned(),
            ContractError::NotExactAmount => "Not Exact amount to lend".to_owned(),
            ContractError::OfferNotFound => "Offer not found".to_owned(),
            ContractError::OfferAlreadyAccepted => "Offer already accepted".to_owned(),
            ContractError::OfferNotAccepted => "Offer Not accepted".to_owned(),
        }
    }
}

} // verus!
