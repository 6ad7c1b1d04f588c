//! A non-fungible-token contract core: an approval ledger with exact
//! storage-refund accounting and a registry of token series, stated over
//! plain values so that every rule is proved.

pub mod approval;
pub mod contract;
pub mod ids;
pub mod laws;
pub mod refund;
pub mod series;
pub mod table;
pub mod transfer;
pub mod types;
