//! Transaction dispatch and validation core of a proof-of-stake ledger:
//! classifying transactions, charging fees, metering gas, running the
//! payload against a layered write-log and evaluating validity predicates.
pub mod address;
pub mod storage;
pub mod state;
pub mod protocol;
pub mod error;
pub mod gas;
pub mod vps;
pub mod tx;
pub mod fees;
pub mod payload;
pub mod dispatch;
