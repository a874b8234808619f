//! The fee calculator: pure functions computing the protocol fee (with its
//! discount tier) and per-creator royalty splits from a sale price.
//!
//! All rates are scaled in a widened integer type and truncated: a basis-
//! point rate takes `amount * bps / 10000`, a creator share takes
//! `base * share / 100`.

use vstd::prelude::*;

use vstd::arithmetic::div_mod::{lemma_div_is_ordered, lemma_div_pos_is_pos, lemma_div_by_multiple};
use vstd::arithmetic::mul::{lemma_mul_inequality, lemma_mul_nonnegative, lemma_mul_upper_bound};

use crate::errors::MarketplaceError;
use crate::states::Creator;

verus! {

/// The truncated basis-point portion of an amount.
pub open spec fn spec_bps_fee(amount: u64, bps: u16) -> int {
    ((amount as int) * (bps as int)) / 10000
}

/// The truncated percentage cut of a royalty base owed to one creator share.
pub open spec fn spec_share_cut(base: u64, share: u8) -> int {
    ((base as int) * (share as int)) / 100
}

/// The protocol fee rate that actually applies to a sale.
pub open spec fn spec_applied_bps(fee_bps: u16, discount_bps: u16, is_discount_eligible: bool) -> u16 {
    if is_discount_eligible {
        discount_bps
    } else {
        fee_bps
    }
}

/// The sum of the first `n` creator cuts of a royalty base.
pub open spec fn spec_cuts_sum(base: u64, creators: Seq<Creator>, n: int) -> int
    decreases n,
{
    if n <= 0 {
        0
    } else {
        spec_cuts_sum(base, creators, n - 1) + spec_share_cut(base, creators[n - 1].share)
    }
}

/// A basis-point portion is non-negative, and with a rate of at most 10000
/// it never exceeds the amount itself.
pub proof fn lemma_bps_fee_bounds(amount: u64, bps: u16)
    ensures
        0 <= spec_bps_fee(amount, bps),
        bps <= 10000 ==> spec_bps_fee(amount, bps) <= amount,
{
    lemma_mul_nonnegative(amount as int, bps as int);
    lemma_div_pos_is_pos((amount as int) * (bps as int), 10000);
    if bps <= 10000 {
        lemma_mul_inequality(bps as int, 10000, amount as int);
        lemma_div_is_ordered((amount as int) * (bps as int), (amount as int) * 10000, 10000);
        lemma_div_by_multiple(amount as int, 10000);
        assert((amount as int) * 10000 == 10000 * (amount as int)) by (nonlinear_arith);
        assert((bps as int) * (amount as int) == (amount as int) * (bps as int)) by (nonlinear_arith);
    }
}

/// A lower basis-point rate yields a portion at most that of a higher rate.
pub proof fn lemma_bps_fee_mono(amount: u64, lo: u16, hi: u16)
    requires
        lo <= hi,
    ensures
        spec_bps_fee(amount, lo) <= spec_bps_fee(amount, hi),
{
    lemma_mul_inequality(lo as int, hi as int, amount as int);
    assert((lo as int) * (amount as int) == (amount as int) * (lo as int)) by (nonlinear_arith);
    assert((hi as int) * (amount as int) == (amount as int) * (hi as int)) by (nonlinear_arith);
    lemma_div_is_ordered((amount as int) * (lo as int), (amount as int) * (hi as int), 10000);
}

/// A creator cut is non-negative.
pub proof fn lemma_share_cut_nonneg(base: u64, share: u8)
    ensures
        0 <= spec_share_cut(base, share),
{
    lemma_mul_nonnegative(base as int, share as int);
    lemma_div_pos_is_pos((base as int) * (share as int), 100);
}

/// A sum of creator cuts is non-negative and grows with each creator.
pub proof fn lemma_cuts_sum_nonneg(base: u64, creators: Seq<Creator>, n: int)
    ensures
        0 <= spec_cuts_sum(base, creators, n),
        forall|m: int| 0 <= m <= n ==> #[trigger] spec_cuts_sum(base, creators, m)
            <= spec_cuts_sum(base, creators, n),
    decreases n,
{
    if n > 0 {
        lemma_cuts_sum_nonneg(base, creators, n - 1);
        lemma_share_cut_nonneg(base, creators[n - 1].share);
    }
}

/// The basis-point portion of an amount at a rate of at most 10000.
/// Total: such a portion always fits, since it is at most the amount.
pub fn fee_portion(amount: u64, bps: u16) -> (r: u64)
    requires
        bps <= 10000,
    ensures
        r == spec_bps_fee(amount, bps),
        r <= amount,
{
    proof {
        lemma_bps_fee_bounds(amount, bps);
        lemma_mul_upper_bound(bps as int, u16::MAX as int, amount as int, u64::MAX as int);
        assert((bps as int) * (amount as int) == (amount as int) * (bps as int)) by (nonlinear_arith);
    }
    let wide: u128 = (bps as u128) * (amount as u128);
    let q: u128 = wide / 10000;
    q as u64
}

/// The protocol fee of a sale: the undiscounted amount, and the amount
/// actually charged once discount eligibility is applied.
pub fn protocol_fee(price: u64, fee_bps: u16, discount_bps: u16, is_discount_eligible: bool) -> (r: (
    u64,
    u64,
))
    requires
        fee_bps <= 10000,
        discount_bps <= fee_bps,
    ensures
        r.0 == spec_bps_fee(price, fee_bps),
        r.1 == spec_bps_fee(price, spec_applied_bps(fee_bps, discount_bps, is_discount_eligible)),
        r.1 <= r.0 <= price,
{
    let total = fee_portion(price, fee_bps);
    let charged = if is_discount_eligible {
        fee_portion(price, discount_bps)
    } else {
        total
    };
    proof {
        if is_discount_eligible {
            lemma_bps_fee_mono(price, discount_bps, fee_bps);
        }
    }
    (total, charged)
}

/// The royalty split of a sale: the royalty base scaled from the price by
/// the asset's royalty rate, each creator's truncated cut of that base, and
/// the dust remainder left over after all cuts.
///
/// Fails with `NumericalOverflow` exactly when the royalty base would exceed
/// the price, or the cuts together would exceed the base.
pub fn royalties(price: u64, royalty_bps: u16, creators: &Vec<Creator>) -> (r: Result<
    (u64, Vec<u64>, u64),
    MarketplaceError,
>)
    ensures
        match r {
            Ok((base, cuts, dust)) => {
                &&& base == spec_bps_fee(price, royalty_bps)
                &&& base <= price
                &&& cuts@.len() == creators@.len()
                &&& forall|i: int| 0 <= i < creators@.len() ==> #[trigger] cuts@[i]
                    == spec_share_cut(base, creators@[i].share)
                &&& spec_cuts_sum(base, creators@, creators@.len() as int) <= base
                &&& dust == base - spec_cuts_sum(base, creators@, creators@.len() as int)
            },
            Err(e) => {
                &&& e == MarketplaceError::NumericalOverflow
                &&& {
                    ||| spec_bps_fee(price, royalty_bps) > price
                    ||| spec_cuts_sum(
                        spec_bps_fee(price, royalty_bps) as u64,
                        creators@,
                        creators@.len() as int,
                    ) > spec_bps_fee(price, royalty_bps)
                }
            },
        },
{
    proof {
        lemma_bps_fee_bounds(price, royalty_bps);
        lemma_mul_upper_bound(royalty_bps as int, u16::MAX as int, price as int, u64::MAX as int);
        assert((royalty_bps as int) * (price as int) == (price as int) * (royalty_bps as int))
            by (nonlinear_arith);
    }
    let wide: u128 = (royalty_bps as u128) * (price as u128);
    let base_wide: u128 = wide / 10000;
    if base_wide > price as u128 {
        return Err(MarketplaceError::NumericalOverflow);
    }
    let base: u64 = base_wide as u64;
    let n = creators.len();
    let mut cuts: Vec<u64> = Vec::new();
    let mut remaining: u64 = base;
    let mut i: usize = 0;
    while i < n
        invariant
            n == creators@.len(),
            0 <= i <= n,
            base == spec_bps_fee(price, royalty_bps),
            base <= price,
            cuts@.len() == i,
            forall|j: int| 0 <= j < i ==> #[trigger] cuts@[j] == spec_share_cut(base, creators@[j].share),
            remaining == base - spec_cuts_sum(base, creators@, i as int),
            0 <= spec_cuts_sum(base, creators@, i as int) <= base,
        decreases n - i,
    {
        proof {
            lemma_share_cut_nonneg(base, creators@[i as int].share);
            lemma_mul_upper_bound(base as int, u64::MAX as int, creators@[i as int].share as int, u8::MAX as int);
        }
        let cut_wide: u128 = (base as u128) * (creators[i].share as u128) / 100;
        if cut_wide > remaining as u128 {
            proof {
                lemma_cuts_sum_nonneg(base, creators@, creators@.len() as int);
                assert(spec_cuts_sum(base, creators@, i as int + 1) > base);
            }
            return Err(MarketplaceError::NumericalOverflow);
        }
        let cut: u64 = cut_wide as u64;
        remaining = remaining - cut;
        cuts.push(cut);
        i = i + 1;
    }
    Ok((base, cuts, remaining))
}

} // verus!
