//! A collateralized installment-financing engine built on a share-based
//! yield reserve.
//!
//! Users deposit an underlying asset into a pooled reserve and receive
//! proportional shares; shares can be set aside as collateral ("protected")
//! to back an installment plan extended to a merchant, and are drawn down
//! automatically as installments come due.
//!
//! The library is the verified core: share pricing, the per-user share
//! ledger, the loan-to-value policy, and the installment plan state machine.
//! Host concerns (storage, authorization, event emission, calls into the
//! external reserve) live outside; every function here is a total state
//! transition on plain values, so a host shell only reads state, calls in,
//! and writes the result back.

pub mod errors;
pub mod math;
pub mod ledger;
pub mod plan;
pub mod policy;
pub mod pricing;
