//! Discovery of freshly deployed fungible-token contracts from call traces,
//! and the balance ledger of one tracked non-fungible contract.

pub mod bytes;
pub mod config;
pub mod decode;
pub mod ledger;
pub mod probe;
pub mod scan;
pub mod trace;
pub mod transfer;
