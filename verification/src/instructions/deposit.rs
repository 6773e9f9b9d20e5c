//! Adding principal to a record.

use crate::error::SolscatterError;
use crate::state::main_state::MainState;
use crate::state::user_deposit::{updated_rate, UserDeposit};
use vstd::prelude::*;

verus! {

/// The rate that a record carries after a deposit of `amount` at `now`, or
/// the reason why the deposit is refused.
pub open spec fn deposit_outcome(
    main_state: MainState,
    user_deposit: UserDeposit,
    amount: u64,
    now: i64,
) -> Result<nat, SolscatterError> {
    if user_deposit.amount + amount > u64::MAX || main_state.total_deposit + amount > u64::MAX {
        Err(SolscatterError::Overflow)
    } else {
        updated_rate(
            user_deposit.amount as nat,
            user_deposit.penalty_fee@,
            user_deposit.latest_deposit_timestamp,
            amount as nat,
            now as int,
            main_state.penalty_period as int,
            main_state.penalty_early_withdraw_fee.bips as nat,
        )
    }
}

/// Whether `after` is the record `before` with a deposit of `amount` at
/// `now` and the rate `rate`.
pub open spec fn deposited(
    before: UserDeposit,
    after: UserDeposit,
    amount: u64,
    now: i64,
    rate: nat,
) -> bool {
    &&& after.slot == before.slot
    &&& after.owner == before.owner
    &&& after.amount == before.amount + amount
    &&& after.penalty_fee@ == rate
    &&& after.latest_deposit_timestamp == Some(now)
}

/// Books a deposit of `amount` at `now`: the rate is blended from the
/// principal held before the deposit, then the record and the pool's total
/// grow by `amount` and the record takes `now` as its deposit time. On an
/// error nothing changes.
pub fn update_state(
    main_state: &mut MainState,
    user_deposit: &mut UserDeposit,
    amount: u64,
    now: i64,
) -> (r: Result<(), SolscatterError>)
    ensures
        match deposit_outcome(*old(main_state), *old(user_deposit), amount, now) {
            Ok(rate) => ({
                &&& r is Ok
                &&& deposited(*old(user_deposit), *final(user_deposit), amount, now, rate)
                &&& *final(main_state) == old(main_state).with_total_deposit(
                    old(main_state).total_deposit + amount,
                )
            }),
            Err(e) => ({
                &&& r == Err::<(), SolscatterError>(e)
                &&& *final(main_state) == *old(main_state)
                &&& *final(user_deposit) == *old(user_deposit)
            }),
        },
{
    let held = match user_deposit.amount.checked_add(amount) {
        Some(v) => v,
        None => {
            return Err(SolscatterError::Overflow);
        },
    };
    let total = match main_state.total_deposit.checked_add(amount) {
        Some(v) => v,
        None => {
            return Err(SolscatterError::Overflow);
        },
    };
    match user_deposit.update_penalty_fee(
        amount,
        now,
        main_state.penalty_period,
        main_state.penalty_early_withdraw_fee,
    ) {
        Ok(()) => {},
        Err(e) => {
            return Err(e);
        },
    }
    user_deposit.amount = held;
    user_deposit.latest_deposit_timestamp = Some(now);
    main_state.total_deposit = total;
    Ok(())
}

/// Deposits `amount` at `now`. A deposit of nothing succeeds and changes
/// nothing; any other is booked by `update_state`.
pub fn handler(
    main_state: &mut MainState,
    user_deposit: &mut UserDeposit,
    amount: u64,
    now: i64,
) -> (r: Result<(), SolscatterError>)
    ensures
        amount == 0 ==> r is Ok && *final(main_state) == *old(main_state) && *final(user_deposit)
            == *old(user_deposit),
        amount != 0 ==> match deposit_outcome(*old(main_state), *old(user_deposit), amount, now) {
            Ok(rate) => ({
                &&& r is Ok
                &&& deposited(*old(user_deposit), *final(user_deposit), amount, now, rate)
                &&& *final(main_state) == old(main_state).with_total_deposit(
                    old(main_state).total_deposit + amount,
                )
            }),
            Err(e) => ({
                &&& r == Err::<(), SolscatterError>(e)
                &&& *final(main_state) == *old(main_state)
                &&& *final(user_deposit) == *old(user_deposit)
            }),
        },
{
    if amount == 0 {
        return Ok(());
    }
    update_state(main_state, user_deposit, amount, now)
}

} // verus!
