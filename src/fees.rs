//! Collected fees: looking one up, and adding up fees reported by many contracts.

use crate::asset::{Asset, AssetInfo};
use crate::error::ContractError;
use crate::vault::copy_info;
use vstd::prelude::*;

verus! {

/// The amount of the first fee in `fees` whose asset has identifier `id`, or zero.
pub open spec fn fee_for(fees: Seq<Asset>, id: Seq<char>) -> nat
    decreases fees.len(),
{
    if fees.len() == 0 {
        0
    } else if fees[0].info.id() == id {
        fees[0].amount as nat
    } else {
        fee_for(fees.drop_first(), id)
    }
}

/// The protocol fee collected for the asset with identifier `asset_id`, zero if none was.
#[verifier::loop_isolation(false)]
pub fn get_protocol_fee_for_asset(collected_protocol_fees: Vec<Asset>, asset_id: String) -> (r: u128)
    ensures
        r == fee_for(collected_protocol_fees@, asset_id@),
{
    let fees = &collected_protocol_fees;
    let ghost all = collected_protocol_fees@;
    let mut i: usize = 0;
    assert(fees@.subrange(0, fees@.len() as int) == fees@);
    while i < fees.len()
        invariant
            i <= fees@.len(),
            fees@ == all,
            fee_for(all, asset_id@) == fee_for(fees@.subrange(i as int, fees@.len() as int), asset_id@),
        decreases fees@.len() - i,
    {
        let ghost rest = fees@.subrange(i as int, fees@.len() as int);
        assert(rest.drop_first() == fees@.subrange(i as int + 1, fees@.len() as int));
        assert(rest[0] == fees@[i as int]);
        let id = fees[i].get_id();
        if id == asset_id {
            return fees[i].amount;
        }
        i = i + 1;
    }
    0
}

/// Two asset kinds are the same: both tokens or both native, with the same identifier.
pub open spec fn same_kind(a: AssetInfo, b: AssetInfo) -> bool {
    (a is Token) == (b is Token) && a.id() == b.id()
}

pub fn is_same_kind(a: &AssetInfo, b: &AssetInfo) -> (r: bool)
    ensures
        r == same_kind(*a, *b),
{
    match (a, b) {
        (AssetInfo::Token { contract_addr: x }, AssetInfo::Token { contract_addr: y }) => *x == *y,
        (AssetInfo::NativeToken { denom: x }, AssetInfo::NativeToken { denom: y }) => *x == *y,
        _ => false,
    }
}

/// The first position in `acc` of an asset of the same kind as `info`, if any.
pub open spec fn kind_position(acc: Seq<Asset>, info: AssetInfo) -> Option<int>
    decreases acc.len(),
{
    if acc.len() == 0 {
        None
    } else if same_kind(acc[0].info, info) {
        Some(0)
    } else {
        match kind_position(acc.drop_first(), info) {
            Some(j) => Some(j + 1),
            None => None,
        }
    }
}

/// `acc` with `fee` added: to the first entry of its kind, or as a new last entry.
pub open spec fn add_fee(acc: Seq<Asset>, fee: Asset) -> Result<Seq<Asset>, ContractError> {
    match kind_position(acc, fee.info) {
        Some(j) => {
            if acc[j].amount + fee.amount > u128::MAX {
                Err(ContractError::Overflow)
            } else {
                Ok(acc.update(j, Asset { amount: (acc[j].amount + fee.amount) as u128, ..acc[j] }))
            }
        },
        None => Ok(acc.push(fee)),
    }
}

/// The fees of `fees` added up by asset kind, in order of first appearance.
pub open spec fn accumulated(fees: Seq<Asset>) -> Result<Seq<Asset>, ContractError>
    decreases fees.len(),
{
    if fees.len() == 0 {
        Ok(Seq::empty())
    } else {
        match accumulated(fees.drop_last()) {
            Ok(acc) => add_fee(acc, fees.last()),
            Err(e) => Err(e),
        }
    }
}

proof fn lemma_kind_position(acc: Seq<Asset>, info: AssetInfo, i: int)
    requires
        0 <= i <= acc.len(),
        forall|k: int| 0 <= k < i ==> !same_kind(#[trigger] acc[k].info, info),
    ensures
        i < acc.len() && same_kind(acc[i].info, info) ==> kind_position(acc, info) == Some(i),
        i == acc.len() ==> kind_position(acc, info) is None,
    decreases i,
{
    if i > 0 {
        let rest = acc.drop_first();
        assert forall|k: int| 0 <= k < i - 1 implies !same_kind(#[trigger] rest[k].info, info) by {
            assert(rest[k] == acc[k + 1]);
        }
        lemma_kind_position(rest, info, i - 1);
        assert(!same_kind(acc[0].info, info));
    }
}

/// Adds `fee` into `acc`, as `add_fee` describes.
fn add_fee_into(acc: &mut Vec<Asset>, fee: Asset) -> (r: Result<(), ContractError>)
    ensures
        match add_fee(old(acc)@, fee) {
            Ok(s) => r is Ok && final(acc)@ == s,
            Err(e) => r == Err::<(), ContractError>(e),
        },
{
    let mut i: usize = 0;
    while i < acc.len()
        invariant
            i <= acc@.len(),
            acc@ == old(acc)@,
            forall|k: int| 0 <= k < i ==> !same_kind(#[trigger] acc@[k].info, fee.info),
        decreases acc@.len() - i,
    {
        if is_same_kind(&acc[i].info, &fee.info) {
            proof {
                lemma_kind_position(acc@, fee.info, i as int);
            }
            let current = acc[i].amount;
            if current > u128::MAX - fee.amount {
                return Err(ContractError::Overflow);
            }
            let updated = Asset { info: copy_info(&acc[i].info), amount: current + fee.amount };
            acc.set(i, updated);
            return Ok(());
        }
        i = i + 1;
    }
    proof {
        lemma_kind_position(acc@, fee.info, i as int);
    }
    acc.push(fee);
    Ok(())
}

/// Adds up fees reported by many contracts, so that each asset kind appears once, with
/// the sum of its amounts, in order of first appearance.
#[verifier::loop_isolation(false)]
pub fn accumulate_fees(fees: Vec<Asset>) -> (r: Result<Vec<Asset>, ContractError>)
    ensures
        match accumulated(fees@) {
            Ok(s) => r matches Ok(v) && v@ == s,
            Err(e) => r == Err::<Vec<Asset>, ContractError>(e),
        },
{
    let ghost all = fees@;
    let mut rest = fees;
    let mut acc: Vec<Asset> = Vec::new();
    let ghost mut done: int = 0;
    while rest.len() > 0
        invariant
            0 <= done <= all.len(),
            rest@ == all.subrange(done, all.len() as int),
            accumulated(all.subrange(0, done)) == Ok::<Seq<Asset>, ContractError>(acc@),
        decreases rest@.len(),
    {
        let fee = rest.remove(0);
        proof {
            assert(all.subrange(0, done + 1).drop_last() == all.subrange(0, done));
            assert(all.subrange(0, done + 1).last() == fee);
        }
        let ghost before = acc@;
        assert(accumulated(all.subrange(0, done + 1)) == add_fee(before, fee));
        match add_fee_into(&mut acc, fee) {
            Ok(()) => {},
            Err(e) => {
                proof {
                    lemma_accumulated_stops(all, done + 1);
                }
                return Err(e);
            },
        }
        proof {
            done = done + 1;
            assert(rest@ == all.subrange(done, all.len() as int));
        }
    }
    proof {
        assert(all.subrange(0, all.len() as int) == all);
    }
    Ok(acc)
}

/// Once adding up a prefix fails, adding up the whole fails the same way.
proof fn lemma_accumulated_stops(all: Seq<Asset>, n: int)
    requires
        0 < n <= all.len(),
        accumulated(all.subrange(0, n)) is Err,
    ensures
        accumulated(all) == accumulated(all.subrange(0, n)),
    decreases all.len() - n,
{
    if n < all.len() {
        assert(all.subrange(0, n + 1).drop_last() == all.subrange(0, n));
        lemma_accumulated_stops(all, n + 1);
    } else {
        assert(all.subrange(0, n) == all);
    }
}

} // verus!
