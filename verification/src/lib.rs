//! Deterministic ledger logic for treasury disbursement and cross-chain
//! asset bridging: bridge configuration storage, the periodic inflation and
//! payout engine, and the protocol-internal action execution context.

pub mod actions;
pub mod addr;
pub mod codec;
pub mod dec;
pub mod inflation;
pub mod inflation_types;
pub mod kv;
pub mod ledger;
pub mod params;
pub mod textfmt;

use vstd::prelude::*;

verus! {

/// Decimal places of the native token; a whitelisted wrapped-native asset
/// must be capped with exactly this precision.
pub const NATIVE_MAX_DECIMAL_PLACES: u8 = 6;

} // verus!
