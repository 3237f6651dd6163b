//! Pricing and state core of a credibility-aware matcher.
//!
//! The matcher quotes a spread around an oracle price. The spread widens with
//! the matcher's own inventory and narrows with one credibility signal: how
//! much of the market's open interest its insurance fund covers.
//!
//! - [`codec`]: little-endian integers at offsets of a byte buffer.
//! - [`context`]: the matcher's 320-byte record and its typed view.
//! - [`instruction`]: operation tags and call payloads.
//! - [`pricing`]: spread, execution price and risk limits.
//! - [`ledger`]: the external ledger and clock, read through their layouts.
//! - [`keys`]: identities as the host compares them.
//! - [`processor`]: the three operations and the dispatcher.
//! - [`error`]: why an operation was refused.

pub mod codec;
pub mod context;
pub mod error;
pub mod instruction;
pub mod keys;
pub mod ledger;
pub mod pricing;
pub mod processor;
