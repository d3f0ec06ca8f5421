//! A registry that sells uniquely numbered collectible records at a fixed
//! price, settling the storage rent each new record costs and refunding
//! the rest of the attached funds.
//!
//! - `ident`: the identifier counter and the decimal form of identifiers.
//! - `metadata`: display metadata derived from an identifier.
//! - `settlement`: the payment checks and the refund computation.
//! - `registry`: the registry state, its record store and the purchase.

use vstd::prelude::*;

pub mod ident;
pub mod metadata;
pub mod registry;
pub mod settlement;
