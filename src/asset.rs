//! Assets and coins as plain values.

use vstd::prelude::*;

verus! {

/// What an asset is: a native denomination or a token contract.
#[derive(Clone, Debug, PartialEq, Eq)]
pub enum AssetInfo {
    Token { contract_addr: String },
    NativeToken { denom: String },
}

impl AssetInfo {
    /// The string that identifies the asset: its contract address or its denomination.
    pub open spec fn id(&self) -> Seq<char> {
        match self {
            AssetInfo::Token { contract_addr } => contract_addr@,
            AssetInfo::NativeToken { denom } => denom@,
        }
    }
}

/// An amount of an asset.
#[derive(Clone, Debug, PartialEq, Eq)]
pub struct Asset {
    pub info: AssetInfo,
    pub amount: u128,
}

impl Asset {
    /// The identifier of the asset's kind.
    pub fn get_id(&self) -> (r: String)
        ensures
            r@ == self.info.id(),
    {
        match &self.info {
            AssetInfo::Token { contract_addr } => contract_addr.clone(),
            AssetInfo::NativeToken { denom } => denom.clone(),
        }
    }
}

/// An amount of a native denomination.
#[derive(Clone, Debug, PartialEq, Eq)]
pub struct Coin {
    pub denom: String,
    pub amount: u128,
}

impl Coin {
    /// A copy with the same denomination and amount.
    pub fn duplicate(&self) -> (r: Coin)
        ensures
            r == *self,
    {
        Coin { denom: self.denom.clone(), amount: self.amount }
    }
}

} // verus!
