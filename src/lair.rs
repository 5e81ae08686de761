//! The bonding checks of the staking contract, where bonding assets are asset kinds.

use crate::asset::{Asset, AssetInfo, Coin};
use crate::error::ContractError;
use vstd::prelude::*;

pub use crate::bonding::{validate_claimed, validate_growth_rate};

verus! {

/// The denomination an asset kind stands for when bonding: a native denomination, or the
/// empty string for a token.
pub open spec fn bonding_denom(info: AssetInfo) -> Seq<char> {
    match info {
        AssetInfo::NativeToken { denom } => denom@,
        AssetInfo::Token { .. } => Seq::empty(),
    }
}

/// Whether some bonding asset stands for `denom`.
pub fn is_bonding_denom(bonding_assets: &Vec<AssetInfo>, denom: &String) -> (r: bool)
    ensures
        r == exists|i: int| 0 <= i < bonding_assets@.len() && bonding_denom(#[trigger] bonding_assets@[i]) == denom@,
{
    let mut i: usize = 0;
    while i < bonding_assets.len()
        invariant
            i <= bonding_assets@.len(),
            forall|k: int| 0 <= k < i ==> bonding_denom(#[trigger] bonding_assets@[k]) != denom@,
        decreases bonding_assets@.len() - i,
    {
        let found = match &bonding_assets[i] {
            AssetInfo::NativeToken { denom: d } => *d == *denom,
            AssetInfo::Token { .. } => denom.as_str().is_empty(),
        };
        if found {
            proof {
                if bonding_assets@[i as int] is Token {
                    assert(denom@ =~= Seq::<char>::empty());
                }
            }
            return true;
        }
        proof {
            if bonding_assets@[i as int] is Token {
                assert(denom@.len() != 0);
            }
        }
        i = i + 1;
    }
    false
}

/// The funds of a bonding message are exactly one positive coin, of `denom`, matching
/// `asset`, and some bonding asset stands for `denom`.
pub open spec fn funds_match(funds: Seq<Coin>, asset: Asset, denom: Seq<char>, bonding_assets: Seq<AssetInfo>) -> bool {
    &&& funds.len() == 1
    &&& funds[0].amount != 0
    &&& funds[0].amount == asset.amount
    &&& funds[0].denom@ == denom
    &&& exists|i: int| 0 <= i < bonding_assets.len() && bonding_denom(#[trigger] bonding_assets[i]) == denom
}

/// Checks that the funds sent with a bonding message match `asset` and that `denom` can be bonded.
pub fn validate_funds(funds: &Vec<Coin>, asset: &Asset, denom: &String, bonding_assets: &Vec<AssetInfo>) -> (r:
    Result<(), ContractError>)
    ensures
        funds_match(funds@, *asset, denom@, bonding_assets@) ==> r == Ok::<(), ContractError>(()),
        !funds_match(funds@, *asset, denom@, bonding_assets@) ==> r == Err::<(), ContractError>(
            ContractError::AssetMismatch,
        ),
{
    if funds.len() != 1 || funds[0].amount == 0 || funds[0].amount != asset.amount || funds[0].denom != *denom
        || !is_bonding_denom(bonding_assets, denom) {
        return Err(ContractError::AssetMismatch);
    }
    Ok(())
}

} // verus!
