//! Accounting core of a collateralised lending protocol.
//!
//! Lenders place offers of a fungible amount against a registry of
//! non-fungible collections; a borrower accepts one offer by depositing a
//! token of that collection; the loan is then either repaid with interest or
//! forfeited once its deadline has passed.

pub mod context;
pub mod contract;
pub mod error;
pub mod invariants;
pub mod ledger;
pub mod msg;
pub mod payment;
pub mod query;
pub mod response;
pub mod registry;
pub mod reward;
pub mod state;
pub mod wire;

pub use crate::contract::{execute, instantiate};
pub use crate::error::ContractError;
pub use crate::query::query;
