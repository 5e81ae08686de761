//! Pools and the ledger that holds them, keyed by identifier.

use crate::decimal::PoolFee;
use vstd::prelude::*;

verus! {

/// The pricing curve of a pool.
#[derive(Clone, Copy, Debug, PartialEq, Eq, Structural)]
pub enum PoolType {
    /// `reserve0 * reserve1` is kept constant by every swap, fees aside.
    ConstantProduct,
}

/// One side of a pool: a denomination, how much of it the pool holds, and its decimals.
#[derive(Clone, Debug, PartialEq, Eq)]
pub struct Reserve {
    pub denom: String,
    pub amount: u128,
    pub decimals: u8,
}

impl Reserve {
    /// A copy with the same fields.
    pub fn duplicate(&self) -> (r: Reserve)
        ensures
            r == *self,
    {
        Reserve { denom: self.denom.clone(), amount: self.amount, decimals: self.decimals }
    }

    /// The same reserve holding `amount`.
    pub fn with_amount(&self, amount: u128) -> (r: Reserve)
        ensures
            r == (Reserve { amount, ..*self }),
    {
        Reserve { denom: self.denom.clone(), amount, decimals: self.decimals }
    }
}

/// A two-asset pool.
#[derive(Clone, Debug, PartialEq, Eq)]
pub struct Pool {
    pub identifier: String,
    pub reserve0: Reserve,
    pub reserve1: Reserve,
    pub pool_fees: PoolFee,
    pub pool_type: PoolType,
}

impl Pool {
    /// Distinct denominations, at most 18 decimals each, fees summing below one.
    pub open spec fn wf(&self) -> bool {
        &&& self.reserve0.denom@ != self.reserve1.denom@
        &&& self.reserve0.decimals <= 18
        &&& self.reserve1.decimals <= 18
        &&& self.pool_fees.valid()
    }

    /// Whether the pool satisfies `wf`.
    pub fn is_well_formed(&self) -> (r: bool)
        ensures
            r == self.wf(),
    {
        self.reserve0.denom != self.reserve1.denom && self.reserve0.decimals <= 18
            && self.reserve1.decimals <= 18 && self.pool_fees.is_valid()
    }

    /// A copy with the same fields.
    pub fn duplicate(&self) -> (r: Pool)
        ensures
            r == *self,
    {
        Pool {
            identifier: self.identifier.clone(),
            reserve0: self.reserve0.duplicate(),
            reserve1: self.reserve1.duplicate(),
            pool_fees: self.pool_fees,
            pool_type: self.pool_type,
        }
    }

    /// The same pool holding `a0` and `a1`.
    pub open spec fn with_amounts(self, a0: nat, a1: nat) -> Pool {
        Pool {
            reserve0: Reserve { amount: a0 as u128, ..self.reserve0 },
            reserve1: Reserve { amount: a1 as u128, ..self.reserve1 },
            ..self
        }
    }

    pub fn set_amounts(&self, a0: u128, a1: u128) -> (r: Pool)
        ensures
            r == self.with_amounts(a0 as nat, a1 as nat),
    {
        Pool {
            identifier: self.identifier.clone(),
            reserve0: self.reserve0.with_amount(a0),
            reserve1: self.reserve1.with_amount(a1),
            pool_fees: self.pool_fees,
            pool_type: self.pool_type,
        }
    }
}

/// No two pools share an identifier.
pub open spec fn ids_unique(pools: Seq<Pool>) -> bool {
    forall|i: int, j: int|
        0 <= i < pools.len() && 0 <= j < pools.len() && #[trigger] pools[i].identifier@
            == #[trigger] pools[j].identifier@ ==> i == j
}

pub open spec fn ledger_wf(pools: Seq<Pool>) -> bool {
    &&& ids_unique(pools)
    &&& forall|i: int| 0 <= i < pools.len() ==> #[trigger] pools[i].wf()
}

/// Where the pool with identifier `id` stands, if any.
pub open spec fn pool_index(pools: Seq<Pool>, id: Seq<char>) -> Option<int> {
    if exists|i: int| 0 <= i < pools.len() && #[trigger] pools[i].identifier@ == id {
        Some(choose|i: int| 0 <= i < pools.len() && #[trigger] pools[i].identifier@ == id)
    } else {
        None
    }
}

/// The pool with identifier `id` is at `i`.
pub proof fn lemma_pool_index(pools: Seq<Pool>, id: Seq<char>, i: int)
    requires
        ids_unique(pools),
        0 <= i < pools.len(),
        pools[i].identifier@ == id,
    ensures
        pool_index(pools, id) == Some(i),
{
    let j = choose|j: int| 0 <= j < pools.len() && #[trigger] pools[j].identifier@ == id;
    assert(pools[j].identifier@ == pools[i].identifier@);
}

/// The pools, each under a unique identifier.
pub struct PoolLedger {
    pools: Vec<Pool>,
}

impl View for PoolLedger {
    type V = Seq<Pool>;

    closed spec fn view(&self) -> Seq<Pool> {
        self.pools@
    }
}

impl PoolLedger {
    /// Identifiers are unique and every pool is well formed.
    pub open spec fn wf(&self) -> bool {
        ledger_wf(self@)
    }

    pub fn new() -> (r: PoolLedger)
        ensures
            r@ == Seq::<Pool>::empty(),
            r.wf(),
    {
        PoolLedger { pools: Vec::new() }
    }

    /// Where the pool with identifier `id` stands.
    pub fn position(&self, id: &String) -> (r: Option<usize>)
        requires
            self.wf(),
        ensures
            r is Some <==> pool_index(self@, id@) is Some,
            r matches Some(i) ==> pool_index(self@, id@) == Some(i as int) && i < self@.len(),
    {
        let mut i: usize = 0;
        while i < self.pools.len()
            invariant
                i <= self.pools@.len(),
                ledger_wf(self.pools@),
                forall|k: int| 0 <= k < i ==> #[trigger] self.pools@[k].identifier@ != id@,
            decreases self.pools@.len() - i,
        {
            if self.pools[i].identifier == *id {
                proof {
                    lemma_pool_index(self.pools@, id@, i as int);
                }
                return Some(i);
            }
            i = i + 1;
        }
        None
    }

    /// The pool at `i`.
    pub fn pool_at(&self, i: usize) -> (r: &Pool)
        requires
            self.wf(),
            i < self@.len(),
        ensures
            *r == self@[i as int],
            r.wf(),
    {
        &self.pools[i]
    }

    /// A copy of the pool with identifier `id`.
    pub fn get(&self, id: &String) -> (r: Option<Pool>)
        requires
            self.wf(),
        ensures
            match pool_index(self@, id@) {
                None => r is None,
                Some(i) => r == Some(self@[i]),
            },
    {
        match self.position(id) {
            Some(i) => Some(self.pool_at(i).duplicate()),
            None => None,
        }
    }

    /// Stores `pool`, in place of the pool with its identifier if there is one.
    pub fn put(&mut self, pool: Pool)
        requires
            old(self).wf(),
            pool.wf(),
        ensures
            final(self).wf(),
            final(self)@ == match pool_index(old(self)@, pool.identifier@) {
                Some(i) => old(self)@.update(i, pool),
                None => old(self)@.push(pool),
            },
    {
        match self.position(&pool.identifier) {
            Some(i) => self.replace(i, pool),
            None => {
                self.pools.push(pool);
                proof {
                    assert forall|i: int, j: int|
                        0 <= i < self.pools@.len() && 0 <= j < self.pools@.len()
                            && #[trigger] self.pools@[i].identifier@
                            == #[trigger] self.pools@[j].identifier@ implies i == j by {
                        if i < self.pools@.len() - 1 && j == self.pools@.len() - 1 {
                            assert(pool_index(old(self)@, self.pools@[j].identifier@) is Some);
                        }
                        if j < self.pools@.len() - 1 && i == self.pools@.len() - 1 {
                            assert(pool_index(old(self)@, self.pools@[i].identifier@) is Some);
                        }
                    }
                }
            },
        }
    }

    /// Replaces the pool at `i` by `pool`, which has the same identifier.
    pub fn replace(&mut self, i: usize, pool: Pool)
        requires
            old(self).wf(),
            i < old(self)@.len(),
            pool.wf(),
            pool.identifier@ == old(self)@[i as int].identifier@,
        ensures
            final(self).wf(),
            final(self)@ == old(self)@.update(i as int, pool),
    {
        self.pools.set(i, pool);
        proof {
            assert forall|a: int, b: int|
                0 <= a < self.pools@.len() && 0 <= b < self.pools@.len()
                    && #[trigger] self.pools@[a].identifier@ == #[trigger] self.pools@[b].identifier@ implies a
                == b by {
                assert(old(self)@[a].identifier@ == self.pools@[a].identifier@);
                assert(old(self)@[b].identifier@ == self.pools@[b].identifier@);
            }
        }
    }
}

} // verus!
