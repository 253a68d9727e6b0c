//! A library for funded "drops": batches of payouts addressed to off-chain
//! contacts, claimed through a verify / transfer / commit protocol whose
//! steps are driven by an outside host and decided here.

pub mod claim;
pub mod laws;
pub mod model;
pub mod query;
pub mod store;
