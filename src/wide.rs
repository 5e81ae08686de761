//! Unsigned 256-bit integers, held as two 128-bit halves.

use cosmwasm_std::Uint256;
use vstd::prelude::*;

verus! {

/// `2^128`, the weight of the high half.
pub open spec fn half_base() -> nat {
    0x1_0000_0000_0000_0000_0000_0000_0000_0000nat
}

/// `2^256`, one past the largest value a `U256` holds.
pub open spec fn wide_bound() -> nat {
    half_base() * half_base()
}

/// An unsigned 256-bit integer: `hi * 2^128 + lo`.
#[derive(Clone, Copy, Debug, PartialEq, Eq, Structural)]
pub struct U256 {
    pub hi: u128,
    pub lo: u128,
}

impl View for U256 {
    type V = nat;

    open spec fn view(&self) -> nat {
        (self.hi * half_base() + self.lo) as nat
    }
}

impl U256 {
    pub fn zero() -> (r: U256)
        ensures
            r@ == 0,
    {
        U256 { hi: 0, lo: 0 }
    }

    pub fn from_u128(x: u128) -> (r: U256)
        ensures
            r@ == x,
    {
        U256 { hi: 0, lo: x }
    }

    /// The value as a `u128`, when it fits.
    pub fn to_u128(self) -> (r: Option<u128>)
        ensures
            r is Some <==> self@ <= u128::MAX,
            r matches Some(x) ==> x == self@,
    {
        if self.hi == 0 {
            Some(self.lo)
        } else {
            None
        }
    }

    pub fn is_zero(self) -> (r: bool)
        ensures
            r == (self@ == 0),
    {
        self.hi == 0 && self.lo == 0
    }

    pub fn lt(self, other: U256) -> (r: bool)
        ensures
            r == (self@ < other@),
    {
        self.hi < other.hi || (self.hi == other.hi && self.lo < other.lo)
    }

    pub fn le(self, other: U256) -> (r: bool)
        ensures
            r == (self@ <= other@),
    {
        self.hi < other.hi || (self.hi == other.hi && self.lo <= other.lo)
    }

    pub fn checked_add(self, other: U256) -> (r: Option<U256>)
        ensures
            r is Some <==> self@ + other@ < wide_bound(),
            r matches Some(s) ==> s@ == self@ + other@,
    {
        let (lo, carry) = if self.lo <= u128::MAX - other.lo {
            (self.lo + other.lo, 0u128)
        } else {
            (self.lo - (u128::MAX - other.lo) - 1, 1u128)
        };
        if self.hi <= u128::MAX - other.hi && self.hi + other.hi <= u128::MAX - carry {
            Some(U256 { hi: self.hi + other.hi + carry, lo })
        } else {
            None
        }
    }

    pub fn checked_sub(self, other: U256) -> (r: Option<U256>)
        ensures
            r is Some <==> other@ <= self@,
            r matches Some(d) ==> d@ == self@ - other@,
    {
        if self.lt(other) {
            return None;
        }
        if self.lo >= other.lo {
            Some(U256 { hi: self.hi - other.hi, lo: self.lo - other.lo })
        } else {
            Some(U256 { hi: self.hi - other.hi - 1, lo: u128::MAX - (other.lo - self.lo) + 1 })
        }
    }
}

/// Relies on `cosmwasm_std::Uint256::checked_multiply_ratio`: `floor(a * num / den)`
/// computed through a 512-bit product, an error when `den` is zero or when the
/// quotient does not fit in 256 bits.
#[verifier::external_body]
pub(crate) fn checked_multiply_ratio(a: U256, num: U256, den: U256) -> (r: Option<U256>)
    ensures
        den@ == 0 ==> r is None,
        den@ != 0 ==> (r is Some <==> a@ * num@ / den@ < wide_bound()),
        r matches Some(q) ==> q@ == a@ * num@ / den@,
{
    let cw = |w: U256| {
        let mut b: [u8; 32] = [0u8; 32];
        b[..16].copy_from_slice(&w.hi.to_be_bytes());
        b[16..].copy_from_slice(&w.lo.to_be_bytes());
        Uint256::from_be_bytes(b)
    };
    let q = cw(a).checked_multiply_ratio(cw(num), cw(den)).ok()?.to_be_bytes();
    let (hi, lo) = q.split_at(16);
    Some(U256 { hi: u128::from_be_bytes(hi.try_into().ok()?), lo: u128::from_be_bytes(lo.try_into().ok()?) })
}

} // verus!
