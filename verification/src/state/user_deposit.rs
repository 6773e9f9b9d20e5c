//! One depositor's record in the ledger, and the early-withdrawal rate that
//! it carries.

use crate::error::SolscatterError;
use crate::fixed::{
    decimal_from_u64, decimal_try_add, decimal_try_div_u64, decimal_try_mul_u64, fixed_limit,
    word, Fixed, WAD,
};
use crate::identity::Identity;
use crate::state::fee::Fee;
use vstd::prelude::*;

verus! {

/// The record at one ledger slot.
#[derive(Clone, Copy, Debug)]
pub struct UserDeposit {
    /// The ledger slot, assigned once.
    pub slot: u64,
    /// The principal held.
    pub amount: u64,
    /// The blended early-withdrawal rate in basis points.
    pub penalty_fee: Fixed,
    /// Who may deposit to and withdraw from the record.
    pub owner: Identity,
    /// When the last deposit was made, if any was.
    pub latest_deposit_timestamp: Option<i64>,
}

/// How much of a period that began at `last` is still to run at `now`.
pub open spec fn remaining_time(last: int, period: int, now: int) -> nat {
    if last + period > now {
        (last + period - now) as nat
    } else {
        0
    }
}

/// The scaled rate `rate` after its linear decay since the last deposit, or
/// the reason why it cannot be computed. A record without a deposit keeps
/// its rate.
pub open spec fn refreshed_rate(rate: nat, last: Option<i64>, now: int, period: int) -> Result<
    nat,
    SolscatterError,
> {
    match last {
        None => Ok(rate),
        Some(t) => if t <= 0 || now <= 0 {
            Err(SolscatterError::InvalidTimestamp)
        } else if period <= 0 {
            Err(SolscatterError::InvalidPeriod)
        } else if rate * remaining_time(t as int, period, now) >= fixed_limit() {
            Err(SolscatterError::Overflow)
        } else {
            Ok((rate * remaining_time(t as int, period, now)) / (period as nat))
        },
    }
}

/// The average of the scaled rate `rate` and the rate `base_bips`, weighted
/// by the principal `held` and the principal `added`.
pub open spec fn blended_rate(held: nat, rate: nat, added: nat, base_bips: nat) -> Result<
    nat,
    SolscatterError,
> {
    if added == 0 {
        Ok(rate)
    } else if held + added > u64::MAX {
        Err(SolscatterError::Overflow)
    } else if rate * held + base_bips * (WAD as nat) * added >= fixed_limit() {
        Err(SolscatterError::Overflow)
    } else {
        Ok((rate * held + base_bips * (WAD as nat) * added) / (held + added))
    }
}

/// The scaled rate of a record after `added` is deposited at `now`: the
/// rate is first refreshed, then blended with the base rate.
pub open spec fn updated_rate(
    held: nat,
    rate: nat,
    last: Option<i64>,
    added: nat,
    now: int,
    period: int,
    base_bips: nat,
) -> Result<nat, SolscatterError> {
    match refreshed_rate(rate, last, now, period) {
        Ok(refreshed) => blended_rate(held, refreshed, added, base_bips),
        Err(e) => Err(e),
    }
}

/// A refreshed rate never exceeds the rate it came from once the period
/// has begun: it is the whole rate at the moment of the deposit and nothing
/// from the end of the period on.
pub proof fn lemma_refreshed_rate_decays(rate: nat, last: i64, now: int, period: int)
    requires
        refreshed_rate(rate, Some(last), now, period) is Ok,
        last <= now,
    ensures
        refreshed_rate(rate, Some(last), now, period)->Ok_0 <= rate,
        now == last ==> refreshed_rate(rate, Some(last), now, period)->Ok_0 == rate,
        now >= last + period ==> refreshed_rate(rate, Some(last), now, period)->Ok_0 == 0,
{
    let remaining = remaining_time(last as int, period, now);
    let refreshed = (rate * remaining) / (period as nat);
    assert(refreshed <= rate) by (nonlinear_arith)
        requires
            refreshed == (rate * remaining) / (period as nat),
            remaining <= period,
            period > 0,
    ;
    if now == last {
        assert(refreshed == rate) by (nonlinear_arith)
            requires
                refreshed == (rate * remaining) / (period as nat),
                remaining == period,
                period > 0,
        ;
    }
    if now >= last + period {
        assert(refreshed == 0) by (nonlinear_arith)
            requires
                refreshed == (rate * remaining) / (period as nat),
                remaining == 0,
                period > 0,
        ;
    }
}

/// A blended rate lies between the rate of the principal held and the base
/// rate, and a record that held nothing takes the base rate.
pub proof fn lemma_blended_rate_between(held: nat, rate: nat, added: nat, base_bips: nat)
    requires
        added > 0,
        blended_rate(held, rate, added, base_bips) is Ok,
    ensures
        ({
            let blended = blended_rate(held, rate, added, base_bips)->Ok_0;
            let base = base_bips * (WAD as nat);
            &&& rate <= base ==> rate <= blended <= base
            &&& base <= rate ==> base <= blended <= rate
            &&& held == 0 ==> blended == base
        }),
{
    let base = base_bips * (WAD as nat);
    let total = held + added;
    let weighted = rate * held + base * added;
    let blended = weighted / total;
    if rate <= base {
        assert(rate <= blended <= base) by (nonlinear_arith)
            requires
                blended == weighted / total,
                weighted == rate * held + base * added,
                total == held + added,
                added > 0,
                rate <= base,
        ;
    }
    if base <= rate {
        assert(base <= blended <= rate) by (nonlinear_arith)
            requires
                blended == weighted / total,
                weighted == rate * held + base * added,
                total == held + added,
                added > 0,
                base <= rate,
        ;
    }
    if held == 0 {
        assert(blended == base) by (nonlinear_arith)
            requires
                blended == weighted / total,
                weighted == rate * held + base * added,
                total == held + added,
                added > 0,
                held == 0,
        ;
    }
}

impl UserDeposit {
    /// Lets the rate decay for the time that has passed since the last
    /// deposit: it is scaled by the share of `penalty_period` that remains
    /// at `current_timestamp`. On an error the record is unchanged.
    pub fn refresh_penalty_fee(&mut self, current_timestamp: i64, penalty_period: i64) -> (r:
        Result<(), SolscatterError>)
        ensures
            match refreshed_rate(
                old(self).penalty_fee@,
                old(self).latest_deposit_timestamp,
                current_timestamp as int,
                penalty_period as int,
            ) {
                Ok(rate) => r is Ok && final(self).penalty_fee@ == rate,
                Err(e) => r == Err::<(), SolscatterError>(e) && final(self).penalty_fee == old(
                    self
                ).penalty_fee,
            },
            final(self).slot == old(self).slot,
            final(self).amount == old(self).amount,
            final(self).owner == old(self).owner,
            final(self).latest_deposit_timestamp == old(self).latest_deposit_timestamp,
    {
        let last = match self.latest_deposit_timestamp {
            None => {
                return Ok(());
            },
            Some(t) => t,
        };
        if last <= 0 || current_timestamp <= 0 {
            return Err(SolscatterError::InvalidTimestamp);
        }
        if penalty_period <= 0 {
            return Err(SolscatterError::InvalidPeriod);
        }
        let end: i128 = last as i128 + penalty_period as i128;
        let remaining: u64 = if end > current_timestamp as i128 {
            (end - current_timestamp as i128) as u64
        } else {
            0
        };
        let weighted = match decimal_try_mul_u64(self.penalty_fee, remaining) {
            Ok(v) => v,
            Err(_) => {
                return Err(SolscatterError::Overflow);
            },
        };
        match decimal_try_div_u64(weighted, penalty_period as u64) {
            Ok(v) => {
                self.penalty_fee = v;
                Ok(())
            },
            Err(_) => Err(SolscatterError::InvalidPeriod),
        }
    }

    /// Sets the rate for a deposit of `amount` on top of the principal held:
    /// the rate is refreshed, then averaged with `platform_penalty_fee`,
    /// each weighted by its principal. On an error the record is unchanged.
    pub fn update_penalty_fee(
        &mut self,
        amount: u64,
        current_timestamp: i64,
        penalty_period: i64,
        platform_penalty_fee: Fee,
    ) -> (r: Result<(), SolscatterError>)
        ensures
            match updated_rate(
                old(self).amount as nat,
                old(self).penalty_fee@,
                old(self).latest_deposit_timestamp,
                amount as nat,
                current_timestamp as int,
                penalty_period as int,
                platform_penalty_fee.bips as nat,
            ) {
                Ok(rate) => r is Ok && final(self).penalty_fee@ == rate,
                Err(e) => r == Err::<(), SolscatterError>(e) && final(self).penalty_fee == old(
                    self
                ).penalty_fee,
            },
            final(self).slot == old(self).slot,
            final(self).amount == old(self).amount,
            final(self).owner == old(self).owner,
            final(self).latest_deposit_timestamp == old(self).latest_deposit_timestamp,
    {
        let before = self.penalty_fee;
        match self.refresh_penalty_fee(current_timestamp, penalty_period) {
            Ok(()) => {},
            Err(e) => {
                return Err(e);
            },
        }
        if amount == 0 {
            return Ok(());
        }
        let refreshed = self.penalty_fee;
        let total = match self.amount.checked_add(amount) {
            Some(t) => t,
            None => {
                self.penalty_fee = before;
                return Err(SolscatterError::Overflow);
            },
        };
        let base = decimal_from_u64(platform_penalty_fee.bips as u64);
        proof {
            assert(base@ * (amount as nat) <= 65_535 * (WAD as nat) * 0xffff_ffff_ffff_ffff)
                by (nonlinear_arith)
                requires
                    base@ == (platform_penalty_fee.bips as nat) * (WAD as nat),
                    platform_penalty_fee.bips <= 65_535,
                    amount <= 0xffff_ffff_ffff_ffff,
            ;
            assert(fixed_limit() > 65_535 * (WAD as nat) * 0xffff_ffff_ffff_ffff)
                by (nonlinear_arith)
                requires
                    fixed_limit() == word() * word() * word(),
                    word() == 0x1_0000_0000_0000_0000,
                    WAD == 1_000_000_000_000_000_000,
            ;
        }
        let added = match decimal_try_mul_u64(base, amount) {
            Ok(v) => v,
            Err(_) => {
                self.penalty_fee = before;
                return Err(SolscatterError::Overflow);
            },
        };
        let held = match decimal_try_mul_u64(refreshed, self.amount) {
            Ok(v) => v,
            Err(_) => {
                self.penalty_fee = before;
                return Err(SolscatterError::Overflow);
            },
        };
        let sum = match decimal_try_add(held, added) {
            Ok(v) => v,
            Err(_) => {
                self.penalty_fee = before;
                return Err(SolscatterError::Overflow);
            },
        };
        match decimal_try_div_u64(sum, total) {
            Ok(v) => {
                self.penalty_fee = v;
                Ok(())
            },
            Err(_) => {
                self.penalty_fee = before;
                Err(SolscatterError::Overflow)
            },
        }
    }
}

} // verus!
