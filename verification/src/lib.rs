//! A custodial escrow service for peer-to-peer tutoring payments.
//!
//! A payer deposits funds for a session into a custody ledger; the funds are
//! held until both parties confirm completion or a deadline elapses, then they
//! are released to the payee or refunded to the payer.  A companion component
//! records post-session ratings and keeps a running per-payee average, and a
//! uniqueness registry hands out single-use claims on identifier strings.

pub mod errors;
pub mod escrow;
pub mod laws;
pub mod ledger;
pub mod rating;
pub mod registry;
pub mod service;
