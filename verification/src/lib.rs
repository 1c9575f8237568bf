//! Synthetic payment-card records for testing: card numbers with a valid
//! Luhn check digit, expiry dates and verification codes, generated from
//! issuer-prefix patterns.

pub mod text;
pub mod luhn;
pub mod network;
pub mod random;
pub mod expiry;
pub mod cvv;
pub mod card;
pub mod batch;
