//! Verified core of a data-exchange marketplace.
//!
//! Sellers list data assets for sale, buyers purchase access to them at most
//! once, and an access-request workflow lets parties negotiate terms subject
//! to administrator approval.  The contract state is an explicit value; the
//! ledger substrate (storage, caller attestation, timestamps, payment
//! transfer) is supplied by the embedding layer, which passes the attested
//! caller and the current time into every operation.

pub mod contract;
pub mod identity;
pub mod laws;
pub mod marketplace;
pub mod simple;
pub mod types;

pub use contract::BookieContract;
pub use identity::Address;
pub use marketplace::DataMarketplace;
pub use marketplace::TokenTransfer;
pub use simple::SimpleContract;
pub use types::ContractStats;
pub use types::DataAccessRequest;
pub use types::DataAsset;
pub use types::Error;
pub use types::PurchaseRecord;
