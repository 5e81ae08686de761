//! Pricing and liquidity accounting for two-asset constant-product pools, with the vault,
//! bonding and fee-collection rules that surround them.
//!
//! Arithmetic is exact: amounts are 128-bit, intermediate products 256-bit (`wide`),
//! fractions carry 18 decimal places (`decimal`). Every operation that changes a pool
//! (`executor`) validates, computes and guards before it writes, and leaves the ledger
//! as it was when it fails.

pub mod arith;
pub mod wide;
pub mod decimal;
pub mod error;
pub mod asset;
pub mod swap_math;
pub mod spread;
pub mod liquidity;
pub mod pool;
pub mod executor;
pub mod laws;
pub mod vault;
pub mod fees;
pub mod bonding;
pub mod lair;
pub mod denoms;
