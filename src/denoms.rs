//! Denominations of pool share tokens: recognising them and reading their pair identifier.

use crate::asset::Coin;
use crate::error::ContractError;
use vstd::prelude::*;

verus! {

/// The suffix that share-token denominations carry.
pub const LP_SYMBOL: &'static str = "uLP";

/// The separator before the pair identifier in a share-token denomination,
/// `{label}.pair.{identifier}.{LP_SYMBOL}`.
pub const PAIR_MARKER: &'static str = ".pair.";

/// `needle` occurs in `hay` at position `i`.
pub open spec fn occurs_at(hay: Seq<char>, needle: Seq<char>, i: int) -> bool {
    0 <= i && i + needle.len() <= hay.len() && hay.subrange(i, i + needle.len()) == needle
}

/// `needle` occurs in `hay`.
pub open spec fn occurs(hay: Seq<char>, needle: Seq<char>) -> bool {
    exists|i: int| occurs_at(hay, needle, i)
}

/// Whether `needle` occurs in `hay` at `i`.
fn matches_at(hay: &str, needle: &str, i: usize, hay_len: usize, needle_len: usize) -> (r: bool)
    requires
        hay_len == hay@.len(),
        needle_len == needle@.len(),
        i + needle_len <= hay_len,
    ensures
        r == occurs_at(hay@, needle@, i as int),
{
    let mut j: usize = 0;
    while j < needle_len
        invariant
            hay_len == hay@.len(),
            needle_len == needle@.len(),
            i + needle_len <= hay_len,
            j <= needle_len,
            forall|k: int| 0 <= k < j ==> hay@[i + k] == needle@[k],
        decreases needle_len - j,
    {
        if hay.get_char(i + j) != needle.get_char(j) {
            proof {
                assert(hay@.subrange(i as int, i + needle_len)[j as int] != needle@[j as int]);
            }
            return false;
        }
        j = j + 1;
    }
    proof {
        assert(hay@.subrange(i as int, i + needle_len) =~= needle@);
    }
    true
}

/// The first position at or after `from` where `needle` occurs in `hay`.
pub fn find_from(hay: &str, needle: &str, from: usize) -> (r: Option<usize>)
    ensures
        r matches Some(i) ==> from <= i && occurs_at(hay@, needle@, i as int) && forall|k: int|
            from <= k < i ==> !occurs_at(hay@, needle@, k),
        r is None ==> forall|k: int| from <= k ==> !occurs_at(hay@, needle@, k),
{
    let hay_len = hay.unicode_len();
    let needle_len = needle.unicode_len();
    if needle_len > hay_len {
        return None;
    }
    let last = hay_len - needle_len;
    let mut i: usize = from;
    while i <= last
        invariant
            hay_len == hay@.len(),
            needle_len == needle@.len(),
            last + needle_len == hay_len,
            from <= i,
            forall|k: int| from <= k < i ==> !occurs_at(hay@, needle@, k),
        decreases last + 1 - i,
    {
        if matches_at(hay, needle, i, hay_len, needle_len) {
            return Some(i);
        }
        if i == last {
            return None;
        }
        i = i + 1;
    }
    None
}

/// Whether `needle` occurs in `hay`.
pub fn contains(hay: &str, needle: &str) -> (r: bool)
    ensures
        r == occurs(hay@, needle@),
{
    match find_from(hay, needle, 0) {
        Some(_) => true,
        None => {
            assert forall|k: int| !occurs_at(hay@, needle@, k) by {
                if k < 0 {
                }
            }
            false
        },
    }
}

/// A share-token denomination: it holds the pair marker or the share symbol.
pub open spec fn is_lp_spec(denom: Seq<char>) -> bool {
    occurs(denom, PAIR_MARKER@) || occurs(denom, LP_SYMBOL@)
}

/// Whether `denom` is the denomination of a pool share token.
pub fn is_lp_denom(denom: &String) -> (r: bool)
    ensures
        r == is_lp_spec(denom@),
{
    contains(denom.as_str(), PAIR_MARKER) || contains(denom.as_str(), LP_SYMBOL)
}

/// `id` is what follows the first pair marker of `denom`, which stands at `i`, up to the
/// next marker (at `e`) or the end (`e` is the length).
pub open spec fn pair_segment_at(denom: Seq<char>, i: int, e: int, id: Seq<char>) -> bool {
    &&& occurs_at(denom, PAIR_MARKER@, i)
    &&& (forall|k: int| 0 <= k < i ==> !occurs_at(denom, PAIR_MARKER@, k))
    &&& i + PAIR_MARKER@.len() <= e <= denom.len()
    &&& (e == denom.len() || occurs_at(denom, PAIR_MARKER@, e))
    &&& (forall|k: int| i + PAIR_MARKER@.len() <= k < e ==> !occurs_at(denom, PAIR_MARKER@, k))
    &&& id == denom.subrange(i + PAIR_MARKER@.len(), e)
}

/// The pair identifier in a share-token denomination: what follows the first pair marker,
/// up to the next marker or the end.
pub fn pair_identifier(denom: &String) -> (r: Option<String>)
    ensures
        r is None <==> forall|k: int| !occurs_at(denom@, PAIR_MARKER@, k),
        r matches Some(found) ==> exists|i: int, e: int| #[trigger] pair_segment_at(denom@, i, e, found@),
{
    let s = denom.as_str();
    let hay_len = s.unicode_len();
    let marker_len = PAIR_MARKER.unicode_len();
    let i = match find_from(s, PAIR_MARKER, 0) {
        Some(i) => i,
        None => {
            assert forall|k: int| !occurs_at(denom@, PAIR_MARKER@, k) by {
                if k < 0 {
                }
            }
            return None;
        },
    };
    let start = i + marker_len;
    let end = match find_from(s, PAIR_MARKER, start) {
        Some(e) => e,
        None => hay_len,
    };
    let segment = String::from_str(s.substring_char(start, end));
    let r = Some(segment);
    proof {
        assert(pair_segment_at(denom@, i as int, end as int, r->0@));
    }
    r
}

/// A share token to withdraw, and the pair it belongs to.
#[derive(Clone, Debug, PartialEq, Eq)]
pub struct LpWithdrawal {
    pub pair_identifier: String,
    pub lp_token: Coin,
}

/// The share tokens among `funds`, in order.
pub open spec fn lp_coins(funds: Seq<Coin>) -> Seq<Coin>
    decreases funds.len(),
{
    if funds.len() == 0 {
        Seq::empty()
    } else {
        let rest = lp_coins(funds.drop_last());
        if is_lp_spec(funds.last().denom@) {
            rest.push(funds.last())
        } else {
            rest
        }
    }
}

/// `w` withdraws the share token `c` from the pair its denomination names.
pub open spec fn withdraws(w: LpWithdrawal, c: Coin) -> bool {
    &&& w.lp_token == c
    &&& exists|i: int, e: int| #[trigger] pair_segment_at(c.denom@, i, e, w.pair_identifier@)
}

/// Picks the share tokens out of `funds`, each with its pair identifier, in order. A share
/// token without a pair marker cannot be withdrawn.
pub fn lp_withdrawals(funds: &Vec<Coin>) -> (r: Result<Vec<LpWithdrawal>, ContractError>)
    ensures
        r is Err <==> exists|k: int|
            0 <= k < funds@.len() && is_lp_spec(#[trigger] funds@[k].denom@) && forall|j: int|
                !occurs_at(funds@[k].denom@, PAIR_MARKER@, j),
        r matches Err(e) ==> e == ContractError::InvalidLpTokenDenom,
        r matches Ok(v) ==> v@.len() == lp_coins(funds@).len() && forall|m: int|
            0 <= m < v@.len() ==> withdraws(#[trigger] v@[m], lp_coins(funds@)[m]),
{
    let mut out: Vec<LpWithdrawal> = Vec::new();
    let mut i: usize = 0;
    while i < funds.len()
        invariant
            i <= funds@.len(),
            out@.len() == lp_coins(funds@.subrange(0, i as int)).len(),
            forall|m: int|
                0 <= m < out@.len() ==> withdraws(#[trigger] out@[m], lp_coins(funds@.subrange(0, i as int))[m]),
            forall|k: int|
                0 <= k < i && is_lp_spec(#[trigger] funds@[k].denom@) ==> exists|j: int|
                    occurs_at(funds@[k].denom@, PAIR_MARKER@, j),
        decreases funds@.len() - i,
    {
        proof {
            assert(funds@.subrange(0, i + 1).drop_last() == funds@.subrange(0, i as int));
            assert(funds@.subrange(0, i + 1).last() == funds@[i as int]);
        }
        let coin = &funds[i];
        let ghost before = out@;
        let ghost prefix = lp_coins(funds@.subrange(0, i as int));
        if is_lp_denom(&coin.denom) {
            match pair_identifier(&coin.denom) {
                Some(id) => {
                    let ghost idv = id@;
                    assert(exists|a: int, b: int| #[trigger] pair_segment_at(coin.denom@, a, b, idv));
                    out.push(LpWithdrawal { pair_identifier: id, lp_token: coin.duplicate() });
                    proof {
                        let grown = lp_coins(funds@.subrange(0, i + 1));
                        assert(grown == prefix.push(funds@[i as int]));
                        assert forall|m: int| 0 <= m < out@.len() implies withdraws(
                            #[trigger] out@[m],
                            grown[m],
                        ) by {
                            if m < before.len() {
                                assert(out@[m] == before[m]);
                            } else {
                                assert(out@[m].lp_token == funds@[i as int]);
                                assert(out@[m].pair_identifier@ == idv);
                            }
                        }
                    }
                },
                None => {
                    return Err(ContractError::InvalidLpTokenDenom);
                },
            }
        }
        i = i + 1;
    }
    proof {
        assert(funds@.subrange(0, funds@.len() as int) == funds@);
    }
    Ok(out)
}

/// The coins of `funds` to swap into `distribution_denom`: neither share tokens nor the
/// distribution denomination itself, in order.
pub open spec fn swappable(funds: Seq<Coin>, distribution_denom: Seq<char>) -> Seq<Coin>
    decreases funds.len(),
{
    if funds.len() == 0 {
        Seq::empty()
    } else {
        let rest = swappable(funds.drop_last(), distribution_denom);
        let c = funds.last();
        if !is_lp_spec(c.denom@) && c.denom@ != distribution_denom {
            rest.push(c)
        } else {
            rest
        }
    }
}

/// Picks the coins that have to be swapped into the distribution denomination.
pub fn coins_to_swap(funds: &Vec<Coin>, distribution_denom: &String) -> (r: Vec<Coin>)
    ensures
        r@ == swappable(funds@, distribution_denom@),
{
    let mut out: Vec<Coin> = Vec::new();
    let mut i: usize = 0;
    while i < funds.len()
        invariant
            i <= funds@.len(),
            out@ == swappable(funds@.subrange(0, i as int), distribution_denom@),
        decreases funds@.len() - i,
    {
        proof {
            assert(funds@.subrange(0, i + 1).drop_last() == funds@.subrange(0, i as int));
            assert(funds@.subrange(0, i + 1).last() == funds@[i as int]);
        }
        let coin = &funds[i];
        if !is_lp_denom(&coin.denom) && coin.denom != *distribution_denom {
            out.push(coin.duplicate());
        }
        i = i + 1;
    }
    proof {
        assert(funds@.subrange(0, funds@.len() as int) == funds@);
    }
    out
}

/// A swap through a pool is skipped when the pool is empty on some side.
pub fn skip_swap(pool_assets: &Vec<Coin>) -> (r: bool)
    ensures
        r == exists|k: int| 0 <= k < pool_assets@.len() && #[trigger] pool_assets@[k].amount == 0,
{
    let mut i: usize = 0;
    while i < pool_assets.len()
        invariant
            i <= pool_assets@.len(),
            forall|k: int| 0 <= k < i ==> #[trigger] pool_assets@[k].amount != 0,
        decreases pool_assets@.len() - i,
    {
        if pool_assets[i].amount == 0 {
            return true;
        }
        i = i + 1;
    }
    false
}

} // verus!
