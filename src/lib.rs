//! A listing market over a non-fungible-token ledger: owners ask a price for a token,
//! others buy it at exactly that price, owners withdraw their asks, and a listed token
//! cannot change hands by any other path.
//!
//! The token ledger and the host's payments stay outside: each operation takes the
//! ledger's answer for the token (its owner, or `None`), the caller, and what was paid.

pub mod error;
pub mod types;
pub mod market;
pub mod laws;
