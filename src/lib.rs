//! Settlement and resolution core of a binary prediction market.
//!
//! `pricing` holds the pari-mutuel pricing rules, `market` the settlement
//! engine, `payout` the payout computation of a resolved market,
//! `attestation` the trusted-execution verifier, `committee` the committee
//! vote resolver, `oracle` the adjudicator that ties the two oracle paths
//! to a market's configuration, `batching` the split of a submission into
//! per-market batches and `registry` the record of where markets live.

pub mod attestation;
pub mod batching;
pub mod committee;
pub mod market;
pub mod oracle;
pub mod payout;
pub mod pricing;
pub mod registry;

