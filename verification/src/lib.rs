//! Verified core of a membership-card issuance and verification service.
//!
//! A person proves, through an upstream platform check (a qualifying comment
//! or access to a members-only video), that they are an active paying member,
//! and receives a digital membership card redeemable as a QR credential in an
//! external wallet. This crate holds the engine: the membership-proof
//! decision logic, the card lifecycle state machine, credential signing,
//! the wallet hand-off protocol, and the background re-verification sweep.
//! Network and database edges live outside the crate and hand plain values in.
#![verifier::loop_isolation(false)]
pub mod audit;
pub mod cards;
pub mod channel;
pub mod encryption;
pub mod health;
pub mod hexcodec;
pub mod issuance;
pub mod issuers;
pub mod members;
pub mod membership;
pub mod oidvp;
pub mod qr_payload;
pub mod references;
pub mod reverify;
pub mod signature;
pub mod store;
pub mod strutil;
pub mod vault;
pub mod verification;
pub mod wallet;
