//! The fee model: a flat fee in basis points, and the same fee decaying
//! linearly to zero over a discount period.

use crate::error::SolscatterError;
use crate::fixed::{
    ceil_in_range, ceil_units, decimal_from_u64, decimal_try_ceil_u64, decimal_try_div_u64,
    decimal_try_mul, decimal_try_mul_u64, fixed_limit, word, WAD,
};
use vstd::prelude::*;

verus! {

/// How many basis points make the whole.
pub const BIPS_DENOMINATOR: u64 = 10_000;

/// The largest product of a principal and a rate in basis points for which
/// a fee over a period that has begun is always computed.
pub const MAX_WEIGHTED_PRINCIPAL: u128 = 6_000_000_000_000_000_000_000;

/// A fee rate in basis points.
#[derive(Clone, Copy, Debug, PartialEq, Eq, Structural)]
pub struct Fee {
    pub bips: u16,
}

/// The fee on `principal` at `rate_bips` basis points, rounded up.
pub open spec fn flat_fee(principal: nat, rate_bips: nat) -> nat {
    (principal * rate_bips + 9_999) / 10_000
}

/// The part of a rate that is left when `remaining` of `period` is still to
/// run, in basis points as a scaled value, rounded down.
pub open spec fn remaining_share(remaining: nat, period: nat) -> nat {
    (remaining * (WAD as nat) * 10_000) / period
}

/// The rate in basis points that applies when `remaining` of `period` is
/// still to run, as a scaled value, rounded down.
pub open spec fn effective_rate(rate_bips: nat, remaining: nat, period: nat) -> nat {
    (rate_bips * remaining_share(remaining, period)) / 10_000
}

/// The fee on `principal` at the effective rate, as a scaled value, rounded
/// down.
pub open spec fn scaled_fee(principal: nat, rate_bips: nat, remaining: nat, period: nat) -> nat {
    (principal * effective_rate(rate_bips, remaining, period)) / 10_000
}

/// The fee on `principal` when `remaining` of `period` is still to run,
/// rounded up to a whole amount.
pub open spec fn discounted_fee(
    principal: nat,
    rate_bips: nat,
    remaining: nat,
    period: nat,
) -> nat {
    ceil_units(scaled_fee(principal, rate_bips, remaining, period))
}

/// The fee on `principal` at time `now` for a rate that started to decay at
/// `start` and reaches zero `period` later.
pub open spec fn decayed_fee(
    principal: nat,
    rate_bips: nat,
    period: nat,
    start: int,
    now: int,
) -> nat {
    if principal == 0 {
        0
    } else if now == start {
        flat_fee(principal, rate_bips)
    } else if start + period < now {
        0
    } else {
        discounted_fee(principal, rate_bips, (start + period - now) as nat, period)
    }
}

/// Whether every intermediate value of the discounted fee fits in 192 bits
/// and the fee itself in a `u64`.
pub open spec fn discount_in_range(
    principal: nat,
    rate_bips: nat,
    remaining: nat,
    period: nat,
) -> bool {
    &&& rate_bips * (WAD as nat) * remaining_share(remaining, period) < fixed_limit()
    &&& principal * (WAD as nat) * effective_rate(rate_bips, remaining, period) < fixed_limit()
    &&& discounted_fee(principal, rate_bips, remaining, period) <= u64::MAX
}

/// What `Fee::calculate_fee` returns.
pub open spec fn flat_fee_outcome(principal: nat, rate_bips: nat) -> Result<u64, SolscatterError> {
    if flat_fee(principal, rate_bips) <= u64::MAX {
        Ok(flat_fee(principal, rate_bips) as u64)
    } else {
        Err(SolscatterError::Overflow)
    }
}

/// What `Fee::calculate_fee_with_discount_peroid` returns.
pub open spec fn decayed_fee_outcome(
    principal: nat,
    rate_bips: nat,
    period: nat,
    start: int,
    now: int,
) -> Result<u64, SolscatterError> {
    if principal == 0 {
        Ok(0)
    } else if start <= 0 || now <= 0 {
        Err(SolscatterError::InvalidTimestamp)
    } else if now == start {
        flat_fee_outcome(principal, rate_bips)
    } else if start + period > i64::MAX {
        Err(SolscatterError::Overflow)
    } else if start + period < now {
        Ok(0)
    } else if period == 0 {
        Err(SolscatterError::InvalidPeriod)
    } else if !discount_in_range(principal, rate_bips, (start + period - now) as nat, period) {
        Err(SolscatterError::Overflow)
    } else {
        Ok(discounted_fee(principal, rate_bips, (start + period - now) as nat, period) as u64)
    }
}

proof fn lemma_mul_wad_cancels(n: nat)
    ensures
        (n * (WAD as nat)) / (WAD as nat) == n,
        (n * (WAD as nat)) / 10_000 == n * 100_000_000_000_000,
        ceil_units(n * 100_000_000_000_000) == (n + 9_999) / 10_000,
{
}

proof fn lemma_mul_regroup(a: nat, b: nat, c: nat)
    ensures
        a * b * c == (a * c) * b,
        a * b * c == a * (b * c),
{
    assert(a * b * c == (a * c) * b) by (nonlinear_arith);
    assert(a * b * c == a * (b * c)) by (nonlinear_arith);
}

proof fn lemma_product_bound(a: nat, b: nat, x: nat, y: nat)
    requires
        a <= x,
        b <= y,
    ensures
        a * b <= x * y,
{
    assert(a * b <= x * y) by (nonlinear_arith)
        requires
            a <= x,
            b <= y,
    ;
}

/// A rate of zero costs nothing, whatever the principal.
pub proof fn lemma_flat_fee_zero_rate(principal: nat)
    ensures
        flat_fee(principal, 0) == 0,
        flat_fee_outcome(principal, 0) == Ok::<u64, SolscatterError>(0),
{
    assert(principal * 0 == 0) by (nonlinear_arith);
}

/// At the moment the decay starts the fee is the flat fee: no part of the
/// period has run.
pub proof fn lemma_decayed_fee_at_start(principal: nat, rate_bips: nat, period: nat, t: int)
    ensures
        decayed_fee(principal, rate_bips, period, t, t) == flat_fee(principal, rate_bips),
        t > 0 ==> decayed_fee_outcome(principal, rate_bips, period, t, t) == flat_fee_outcome(
            principal,
            rate_bips,
        ),
{
    assert(0 * rate_bips == 0) by (nonlinear_arith);
}

/// At the end of a period that is not empty the fee is zero.
pub proof fn lemma_decayed_fee_at_end(principal: nat, rate_bips: nat, period: nat, start: int)
    requires
        period > 0,
    ensures
        decayed_fee(principal, rate_bips, period, start, start + period) == 0,
        start > 0 && start + period <= i64::MAX ==> decayed_fee_outcome(
            principal,
            rate_bips,
            period,
            start,
            start + period,
        ) == Ok::<u64, SolscatterError>(0),
{
    lemma_zero_remaining(principal, rate_bips, period);
}

/// Whatever fee is returned is the decayed fee.
pub proof fn lemma_outcome_is_decayed_fee(
    principal: nat,
    rate_bips: nat,
    period: nat,
    start: int,
    now: int,
)
    ensures
        decayed_fee_outcome(principal, rate_bips, period, start, now) matches Ok(fee) ==> fee
            == decayed_fee(principal, rate_bips, period, start, now),
{
}

/// Once the period has begun, a fee is always computed for a principal
/// whose product with the rate stays within `MAX_WEIGHTED_PRINCIPAL`, and it
/// never exceeds the flat fee.
pub proof fn lemma_discount_in_range(principal: nat, rate_bips: nat, remaining: nat, period: nat)
    requires
        period > 0,
        remaining <= period,
        rate_bips <= u16::MAX,
        principal * rate_bips <= MAX_WEIGHTED_PRINCIPAL,
    ensures
        discount_in_range(principal, rate_bips, remaining, period),
        discounted_fee(principal, rate_bips, remaining, period) <= flat_fee(principal, rate_bips),
{
    let wad = WAD as nat;
    let share = remaining_share(remaining, period);
    let effective = effective_rate(rate_bips, remaining, period);
    let weighted = principal * rate_bips;
    assert(share <= wad * 10_000) by (nonlinear_arith)
        requires
            share == (remaining * wad * 10_000) / period,
            remaining <= period,
            period > 0,
    ;
    assert(rate_bips * share <= rate_bips * (wad * 10_000)) by (nonlinear_arith)
        requires
            share <= wad * 10_000,
    ;
    assert(effective <= rate_bips * wad) by (nonlinear_arith)
        requires
            effective == (rate_bips * share) / 10_000,
            rate_bips * share <= rate_bips * (wad * 10_000),
    ;
    assert(rate_bips * wad * share <= 65_535 * wad * (wad * 10_000)) by (nonlinear_arith)
        requires
            share <= wad * 10_000,
            rate_bips <= 65_535,
    ;
    assert(principal * effective <= weighted * wad) by (nonlinear_arith)
        requires
            effective <= rate_bips * wad,
            weighted == principal * rate_bips,
    ;
    assert(principal * wad * effective == (principal * effective) * wad) by (nonlinear_arith);
    assert((principal * effective) * wad <= weighted * wad * wad) by (nonlinear_arith)
        requires
            principal * effective <= weighted * wad,
    ;
    assert(fixed_limit() > 6_000_000_000_000_000_000_000 * wad * wad && fixed_limit() > 65_535
        * wad * (wad * 10_000)) by (nonlinear_arith)
        requires
            fixed_limit() == word() * word() * word(),
            word() == 0x1_0000_0000_0000_0000,
            wad == 1_000_000_000_000_000_000,
    ;
    assert(weighted * wad * wad <= 6_000_000_000_000_000_000_000 * wad * wad) by (nonlinear_arith)
        requires
            weighted <= 6_000_000_000_000_000_000_000,
    ;
    let fee = scaled_fee(principal, rate_bips, remaining, period);
    assert(fee <= (weighted * wad) / 10_000) by (nonlinear_arith)
        requires
            fee == (principal * effective) / 10_000,
            principal * effective <= weighted * wad,
    ;
    lemma_mul_wad_cancels(weighted);
}

/// The fee on `principal` at the rate scaled by `remaining / period`, as
/// an exact ratio rounded up once.
pub open spec fn exact_fee(principal: nat, rate_bips: nat, remaining: nat, period: nat) -> nat {
    (principal * rate_bips * remaining + (period * 10_000 - 1) as nat) / (period * 10_000)
}

proof fn lemma_div_bounds(x: nat, d: nat)
    requires
        d > 0,
    ensures
        (x / d) * d <= x < (x / d) * d + d,
{
    assert((x / d) * d <= x < (x / d) * d + d) by (nonlinear_arith)
        requires
            d > 0,
    ;
}

/// Holding each ratio to eighteen decimal places costs less than one unit:
/// the discounted fee is the exact fee or one below it.
pub proof fn lemma_discounted_fee_is_close(
    principal: nat,
    rate_bips: nat,
    remaining: nat,
    period: nat,
)
    requires
        period > 0,
        principal <= u64::MAX,
        rate_bips <= u16::MAX,
    ensures
        discounted_fee(principal, rate_bips, remaining, period) <= exact_fee(
            principal,
            rate_bips,
            remaining,
            period,
        ) <= discounted_fee(principal, rate_bips, remaining, period) + 1,
{
    let wad = WAD as nat;
    let p = principal;
    let r = rate_bips;
    let a = remaining * wad * 10_000;
    let share = a / period;
    let eff = (r * share) / 10_000;
    let sf = (p * eff) / 10_000;
    let n = p * r * remaining;
    let d = period * 10_000;
    let e = (n + (d - 1) as nat) / d;
    let fee = (sf + (wad - 1) as nat) / wad;
    lemma_div_bounds(a, period);
    lemma_div_bounds(r * share, 10_000);
    lemma_div_bounds(p * eff, 10_000);
    lemma_div_bounds(n + (d - 1) as nat, d);
    lemma_div_bounds(sf + (wad - 1) as nat, wad);
    // what the three roundings lose
    let pr = p * r;
    assert(pr <= 0xffff_ffff_ffff_ffff * 0xffff) by (nonlinear_arith)
        requires
            pr == p * r,
            p <= 0xffff_ffff_ffff_ffff,
            r <= 0xffff,
    ;
    let lost = pr + p * 10_000 + 100_000_000;
    assert(lost < 100_000_000 * wad);
    // upper bound: sf * period <= n * 10^14
    assert(p * eff * 10_000 <= pr * share) by (nonlinear_arith)
        requires
            eff * 10_000 <= r * share,
            pr == p * r,
    ;
    assert(pr * share * period <= pr * a) by (nonlinear_arith)
        requires
            share * period <= a,
    ;
    assert(pr * a == n * (wad * 10_000)) by (nonlinear_arith)
        requires
            pr == p * r,
            n == p * r * remaining,
            a == remaining * wad * 10_000,
    ;
    assert(sf * 100_000_000 * period <= n * (wad * 10_000)) by (nonlinear_arith)
        requires
            sf * 10_000 <= p * eff,
            p * eff * 10_000 <= pr * share,
            pr * share * period <= pr * a,
            pr * a == n * (wad * 10_000),
    ;
    assert(sf <= e * wad) by (nonlinear_arith)
        requires
            sf * 100_000_000 * period <= n * (wad * 10_000),
            n <= e * d,
            d == period * 10_000,
            period > 0,
            wad == 1_000_000_000_000_000_000,
    ;
    assert(fee <= e) by (nonlinear_arith)
        requires
            sf <= e * wad,
            fee * wad <= sf + (wad - 1),
            wad == 1_000_000_000_000_000_000,
    ;
    // lower bound: sf * 10^8 * period + period * lost > n * 10^22
    assert(p * eff * 10_000 + p * 10_000 >= pr * share) by (nonlinear_arith)
        requires
            r * share < eff * 10_000 + 10_000,
            pr == p * r,
    ;
    assert(pr * share * period + pr * period >= pr * a) by (nonlinear_arith)
        requires
            a < share * period + period,
    ;
    assert(sf * 100_000_000 * period + lost * period > n * (wad * 10_000)) by (nonlinear_arith)
        requires
            p * eff < sf * 10_000 + 10_000,
            p * eff * 10_000 + p * 10_000 >= pr * share,
            pr * share * period + pr * period >= pr * a,
            pr * a == n * (wad * 10_000),
            lost == pr + p * 10_000 + 100_000_000,
            period > 0,
    ;
    if e >= 2 {
        assert(sf > (e - 2) * wad) by (nonlinear_arith)
            requires
                sf * 100_000_000 * period + lost * period > n * (wad * 10_000),
                n + (d - 1) >= e * d,
                d == period * 10_000,
                lost < 100_000_000 * wad,
                period > 0,
                e >= 2,
                wad == 1_000_000_000_000_000_000,
        ;
        assert(fee + 1 >= e) by (nonlinear_arith)
            requires
                sf > (e - 2) * wad,
                sf + (wad - 1) < fee * wad + wad,
                wad == 1_000_000_000_000_000_000,
        ;
    }
}

proof fn lemma_zero_remaining(principal: nat, rate_bips: nat, period: nat)
    requires
        period > 0,
    ensures
        discounted_fee(principal, rate_bips, 0, period) == 0,
        discount_in_range(principal, rate_bips, 0, period),
{
    let wad = WAD as nat;
    assert(0 * wad * 10_000 == 0) by (nonlinear_arith);
    assert(0nat / period == 0) by (nonlinear_arith)
        requires
            period > 0,
    ;
    assert(rate_bips * 0 == 0) by (nonlinear_arith);
    assert(principal * 0 == 0) by (nonlinear_arith);
    assert(rate_bips * wad * 0 == 0) by (nonlinear_arith);
    assert(principal * wad * 0 == 0) by (nonlinear_arith);
    assert(fixed_limit() > 0) by (nonlinear_arith)
        requires
            fixed_limit() == word() * word() * word(),
            word() == 0x1_0000_0000_0000_0000,
    ;
}

impl Fee {
    /// The flat fee on `principle_amount`, rounded up: zero for a zero
    /// principal, `Overflow` when the fee does not fit in a `u64`.
    pub fn calculate_fee(&self, principle_amount: u64) -> (r: Result<u64, SolscatterError>)
        ensures
            r == flat_fee_outcome(principle_amount as nat, self.bips as nat),
    {
        if principle_amount == 0 {
            assert(0nat * (self.bips as nat) == 0) by (nonlinear_arith);
            return Ok(0);
        }
        let ghost n: nat = (principle_amount as nat) * (self.bips as nat);
        let scaled = decimal_from_u64(principle_amount);
        proof {
            lemma_mul_regroup(principle_amount as nat, WAD as nat, self.bips as nat);
            lemma_mul_wad_cancels(n);
            lemma_product_bound(
                principle_amount as nat,
                self.bips as nat,
                0xffff_ffff_ffff_ffff,
                0xffff,
            );
            assert(fixed_limit() > 0xffff_ffff_ffff_ffff * 0xffff * WAD) by (nonlinear_arith)
                requires
                    fixed_limit() == word() * word() * word(),
                    word() == 0x1_0000_0000_0000_0000,
                    WAD == 1_000_000_000_000_000_000,
            ;
        }
        let product = match decimal_try_mul_u64(scaled, self.bips as u64) {
            Ok(p) => p,
            Err(_) => {
                return Err(SolscatterError::Overflow);
            },
        };
        let share = match decimal_try_div_u64(product, BIPS_DENOMINATOR) {
            Ok(s) => s,
            Err(_) => {
                return Err(SolscatterError::Overflow);
            },
        };
        match decimal_try_ceil_u64(share) {
            Ok(fee) => Ok(fee),
            Err(_) => Err(SolscatterError::Overflow),
        }
    }

    /// The fee on `principle_amount` at `current_timestamp`, for a rate that
    /// starts at `bips` at `start_calculate_timestamp` and falls linearly to
    /// zero over `discount_period`.
    ///
    /// A zero principal costs nothing. Otherwise both timestamps must be
    /// positive. At the start the fee is the flat fee; after the end of the
    /// period it is zero; in between the rate is scaled by the share of the
    /// period that remains, each ratio held to eighteen decimal places, and
    /// the fee rounded up.
    pub fn calculate_fee_with_discount_peroid(
        &self,
        principle_amount: u64,
        discount_period: u64,
        start_calculate_timestamp: i64,
        current_timestamp: i64,
    ) -> (r: Result<u64, SolscatterError>)
        ensures
            r == decayed_fee_outcome(
                principle_amount as nat,
                self.bips as nat,
                discount_period as nat,
                start_calculate_timestamp as int,
                current_timestamp as int,
            ),
    {
        if principle_amount == 0 {
            return Ok(0);
        }
        if start_calculate_timestamp <= 0 || current_timestamp <= 0 {
            return Err(SolscatterError::InvalidTimestamp);
        }
        if start_calculate_timestamp == current_timestamp {
            return self.calculate_fee(principle_amount);
        }
        if discount_period > 0x7fff_ffff_ffff_ffff {
            return Err(SolscatterError::Overflow);
        }
        let time_at_zero_fee = match start_calculate_timestamp.checked_add(discount_period as i64) {
            Some(t) => t,
            None => {
                return Err(SolscatterError::Overflow);
            },
        };
        if time_at_zero_fee < current_timestamp {
            return Ok(0);
        }
        let delta_time: u64 = (time_at_zero_fee - current_timestamp) as u64;
        let ghost principal = principle_amount as nat;
        let ghost rate = self.bips as nat;
        let ghost remaining = delta_time as nat;
        let ghost period = discount_period as nat;
        let ghost share = remaining_share(remaining, period);
        let ghost effective = effective_rate(rate, remaining, period);

        let elapsed = decimal_from_u64(delta_time);
        proof {
            assert(fixed_limit() > 0xffff_ffff_ffff_ffff * WAD * 10_000) by (nonlinear_arith)
                requires
                    fixed_limit() == word() * word() * word(),
                    word() == 0x1_0000_0000_0000_0000,
                    WAD == 1_000_000_000_000_000_000,
            ;
        }
        let elapsed_bips = match decimal_try_mul_u64(elapsed, BIPS_DENOMINATOR) {
            Ok(v) => v,
            Err(_) => {
                return Err(SolscatterError::Overflow);
            },
        };
        let discount = match decimal_try_div_u64(elapsed_bips, discount_period) {
            Ok(v) => v,
            Err(_) => {
                return Err(SolscatterError::InvalidPeriod);
            },
        };
        let full_rate = decimal_from_u64(self.bips as u64);
        proof {
            lemma_mul_regroup(rate, WAD as nat, share);
            lemma_mul_wad_cancels(rate * share);
        }
        let discounted = match decimal_try_mul(full_rate, discount) {
            Ok(v) => v,
            Err(_) => {
                return Err(SolscatterError::Overflow);
            },
        };
        let final_rate = match decimal_try_div_u64(discounted, BIPS_DENOMINATOR) {
            Ok(v) => v,
            Err(_) => {
                return Err(SolscatterError::Overflow);
            },
        };
        let scaled_principal = decimal_from_u64(principle_amount);
        proof {
            lemma_mul_regroup(principal, WAD as nat, effective);
            lemma_mul_wad_cancels(principal * effective);
        }
        let weighted = match decimal_try_mul(scaled_principal, final_rate) {
            Ok(v) => v,
            Err(_) => {
                return Err(SolscatterError::Overflow);
            },
        };
        let share_of_principal = match decimal_try_div_u64(weighted, BIPS_DENOMINATOR) {
            Ok(v) => v,
            Err(_) => {
                return Err(SolscatterError::Overflow);
            },
        };
        proof {
            let pe = principal * effective;
            assert(fixed_limit() > 2 * WAD) by (nonlinear_arith)
                requires
                    fixed_limit() == word() * word() * word(),
                    word() == 0x1_0000_0000_0000_0000,
                    WAD == 1_000_000_000_000_000_000,
            ;
            assert(pe + (WAD - 1) < fixed_limit()) by (nonlinear_arith)
                requires
                    pe * (WAD as nat) < fixed_limit(),
                    fixed_limit() > 2 * WAD,
                    WAD == 1_000_000_000_000_000_000,
            ;
        }
        match decimal_try_ceil_u64(share_of_principal) {
            Ok(fee) => Ok(fee),
            Err(_) => Err(SolscatterError::Overflow),
        }
    }
}

} // verus!
