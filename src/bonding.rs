//! Epochs and the checks made before bonding.

use crate::asset::{Asset, Coin};
use crate::decimal::{frac, Decimal, DECIMAL_FRACTIONAL};
use crate::error::ContractError;
use vstd::prelude::*;

verus! {

/// Seconds in a day.
pub const DAY_IN_SECONDS: u64 = 86_400;

/// Nanoseconds in a second.
pub const NANOS_PER_SECOND: u64 = 1_000_000_000;

/// When epochs start and how long each lasts, in nanoseconds.
#[derive(Clone, Copy, Debug, PartialEq, Eq, Structural)]
pub struct EpochConfig {
    pub duration: u64,
    pub genesis_epoch: u64,
}

/// A reward epoch: its number, its start in nanoseconds, and the rewards still unclaimed.
#[derive(Clone, Debug, PartialEq, Eq)]
pub struct Epoch {
    pub id: u64,
    pub start_time: u64,
    pub available: Vec<Asset>,
}

/// The epoch that `timestamp` falls in: none (0) before genesis, else one more than the
/// number of whole durations elapsed since genesis.
pub open spec fn epoch_at(config: EpochConfig, timestamp: nat) -> Result<u64, ContractError> {
    if timestamp < config.genesis_epoch {
        Ok(0)
    } else if config.duration == 0 {
        Err(ContractError::DivideByZero)
    } else if (timestamp - config.genesis_epoch) as nat / (config.duration as nat) + 1 > u64::MAX {
        Err(ContractError::Overflow)
    } else {
        Ok(((timestamp - config.genesis_epoch) as nat / (config.duration as nat) + 1) as u64)
    }
}

/// Calculates the epoch id of a timestamp (in nanoseconds) from the genesis configuration.
pub fn calculate_epoch(genesis_epoch_config: EpochConfig, timestamp: u64) -> (r: Result<u64, ContractError>)
    ensures
        r == epoch_at(genesis_epoch_config, timestamp as nat),
{
    if timestamp < genesis_epoch_config.genesis_epoch {
        return Ok(0);
    }
    let elapsed = timestamp - genesis_epoch_config.genesis_epoch;
    if genesis_epoch_config.duration == 0 {
        return Err(ContractError::DivideByZero);
    }
    let whole = elapsed / genesis_epoch_config.duration;
    if whole == u64::MAX {
        return Err(ContractError::Overflow);
    }
    Ok(whole + 1)
}

/// Rejects a growth rate above one.
pub fn validate_growth_rate(growth_rate: Decimal) -> (r: Result<(), ContractError>)
    ensures
        growth_rate@ > frac() ==> r == Err::<(), ContractError>(ContractError::InvalidGrowthRate),
        growth_rate@ <= frac() ==> r == Ok::<(), ContractError>(()),
{
    if growth_rate.atomics > DECIMAL_FRACTIONAL {
        return Err(ContractError::InvalidGrowthRate);
    }
    Ok(())
}

/// Whether `denom` is among `denoms`.
pub fn contains_denom(denoms: &Vec<String>, denom: &String) -> (r: bool)
    ensures
        r == exists|i: int| 0 <= i < denoms@.len() && #[trigger] denoms@[i]@ == denom@,
{
    let mut i: usize = 0;
    while i < denoms.len()
        invariant
            i <= denoms@.len(),
            forall|k: int| 0 <= k < i ==> #[trigger] denoms@[k]@ != denom@,
        decreases denoms@.len() - i,
    {
        if denoms[i] == *denom {
            return true;
        }
        i = i + 1;
    }
    false
}

/// The funds of a bonding message are exactly one positive coin, of `denom`, matching
/// `asset`, and `denom` can be bonded.
pub open spec fn funds_match(funds: Seq<Coin>, asset: Coin, denom: Seq<char>, bonding_assets: Seq<String>) -> bool {
    &&& funds.len() == 1
    &&& funds[0].amount != 0
    &&& funds[0].amount == asset.amount
    &&& funds[0].denom@ == denom
    &&& exists|i: int| 0 <= i < bonding_assets.len() && #[trigger] bonding_assets[i]@ == denom
}

/// Checks that the funds sent with a bonding message match `asset` and that `denom` can be bonded.
pub fn validate_funds(funds: &Vec<Coin>, asset: &Coin, denom: &String, bonding_assets: &Vec<String>) -> (r: Result<
    (),
    ContractError,
>)
    ensures
        funds_match(funds@, *asset, denom@, bonding_assets@) ==> r == Ok::<(), ContractError>(()),
        !funds_match(funds@, *asset, denom@, bonding_assets@) ==> r == Err::<(), ContractError>(
            ContractError::AssetMismatch,
        ),
{
    if funds.len() != 1 || funds[0].amount == 0 || funds[0].amount != asset.amount || funds[0].denom != *denom
        || !contains_denom(bonding_assets, denom) {
        return Err(ContractError::AssetMismatch);
    }
    Ok(())
}

/// Rejects bonding while the holder still has epochs to claim.
pub fn validate_claimed(claimable_epochs: &Vec<Epoch>) -> (r: Result<(), ContractError>)
    ensures
        claimable_epochs@.len() > 0 ==> r == Err::<(), ContractError>(ContractError::UnclaimedRewards),
        claimable_epochs@.len() == 0 ==> r == Ok::<(), ContractError>(()),
{
    if claimable_epochs.len() != 0 {
        return Err(ContractError::UnclaimedRewards);
    }
    Ok(())
}

/// Rejects bonding when the current epoch (other than the zeroth) started more than a day
/// before `current_time` (in seconds): its successor is overdue. A current time before the
/// epoch's start counts as no time elapsed.
pub fn validate_bonding_for_current_epoch(current_epoch: &Epoch, current_time: u64) -> (r: Result<(), ContractError>)
    ensures
        ({
            let start = current_epoch.start_time / NANOS_PER_SECOND;
            &&& (current_epoch.id != 0 && current_time > start && current_time - start > DAY_IN_SECONDS)
                ==> r == Err::<(), ContractError>(ContractError::NewEpochNotCreatedYet)
            &&& !(current_epoch.id != 0 && current_time > start && current_time - start > DAY_IN_SECONDS)
                ==> r == Ok::<(), ContractError>(())
        }),
{
    let start = current_epoch.start_time / NANOS_PER_SECOND;
    if current_epoch.id != 0 && current_time > start && current_time - start > DAY_IN_SECONDS {
        return Err(ContractError::NewEpochNotCreatedYet);
    }
    Ok(())
}

/// Of the newest epochs, newest first and at most `grace_period` of them, the one that
/// falls out of the grace period when the next epoch is created: the oldest, once there
/// are `grace_period` of them. With a grace period of zero, the empty epoch.
pub fn get_expiring_epoch(newest_epochs: Vec<Epoch>, grace_period: u64) -> (r: Option<Epoch>)
    ensures
        newest_epochs@.len() != grace_period ==> r is None,
        newest_epochs@.len() == grace_period && grace_period > 0 ==> r == Some(newest_epochs@.last()),
        newest_epochs@.len() == grace_period && grace_period == 0 ==> (r matches Some(e) && e.id == 0
            && e.start_time == 0 && e.available@.len() == 0),
{
    let mut newest_epochs = newest_epochs;
    if newest_epochs.len() as u64 != grace_period {
        return None;
    }
    match newest_epochs.pop() {
        Some(e) => Some(e),
        None => Some(Epoch { id: 0, start_time: 0, available: Vec::new() }),
    }
}

/// Whether a holder who last claimed `last_claimed` can claim `epoch`.
pub open spec fn is_claimable(epoch: Epoch, last_claimed: u64) -> bool {
    epoch.id > last_claimed && epoch.available@.len() > 0
}

/// The epochs of `epochs` claimable after `last_claimed`, in order.
pub open spec fn claimable_after(epochs: Seq<Epoch>, last_claimed: u64) -> Seq<Epoch>
    decreases epochs.len(),
{
    if epochs.len() == 0 {
        Seq::empty()
    } else {
        let rest = claimable_after(epochs.drop_last(), last_claimed);
        if is_claimable(epochs.last(), last_claimed) {
            rest.push(epochs.last())
        } else {
            rest
        }
    }
}

/// The epochs a holder can claim, from those within the grace period: none when the holder
/// has never bonded (`last_claimed` is `None`), else those after the last claimed one that
/// still hold rewards.
pub fn query_claimable(claimable_epochs: Vec<Epoch>, last_claimed: Option<u64>) -> (r: Vec<Epoch>)
    ensures
        last_claimed is None ==> r@.len() == 0,
        last_claimed matches Some(l) ==> r@ == claimable_after(claimable_epochs@, l),
{
    let l = match last_claimed {
        Some(l) => l,
        None => return Vec::new(),
    };
    let ghost all = claimable_epochs@;
    let mut rest = claimable_epochs;
    let mut out: Vec<Epoch> = Vec::new();
    let ghost mut done: int = 0;
    while rest.len() > 0
        invariant
            0 <= done <= all.len(),
            rest@ == all.subrange(done, all.len() as int),
            out@ == claimable_after(all.subrange(0, done), l),
        decreases rest@.len(),
    {
        let e = rest.remove(0);
        proof {
            assert(all.subrange(0, done + 1).drop_last() == all.subrange(0, done));
            assert(all.subrange(0, done + 1).last() == e);
        }
        if e.id > l && e.available.len() > 0 {
            out.push(e);
        }
        proof {
            done = done + 1;
            assert(rest@ == all.subrange(done, all.len() as int));
        }
    }
    proof {
        assert(all.subrange(0, all.len() as int) == all);
    }
    out
}

} // verus!
