//! Taking principal out of a record, less the early-withdrawal penalty.

use crate::error::SolscatterError;
use crate::state::fee::decayed_fee_outcome;
use crate::state::main_state::MainState;
use crate::state::user_deposit::{refreshed_rate, UserDeposit};
use crate::state::yi_token::{yi_yitokens_for_underlying, yitokens_for_underlying, YiTokenFees};
use vstd::prelude::*;

verus! {

/// Why a withdrawal of `amount` cannot be made from the record, if it
/// cannot.
pub open spec fn validation_error(user_deposit: UserDeposit, amount: u64) -> Option<
    SolscatterError,
> {
    if amount > user_deposit.amount {
        Some(SolscatterError::InsufficientPrincipal)
    } else if user_deposit.latest_deposit_timestamp is None {
        Some(SolscatterError::NeverDeposited)
    } else {
        None
    }
}

/// The refreshed rate of the record and the penalty for a withdrawal of
/// `amount` at `now`, or the reason why the withdrawal is refused.
pub open spec fn withdraw_outcome(
    main_state: MainState,
    user_deposit: UserDeposit,
    amount: u64,
    now: i64,
) -> Result<(nat, u64), SolscatterError> {
    match validation_error(user_deposit, amount) {
        Some(e) => Err(e),
        None => match refreshed_rate(
            user_deposit.penalty_fee@,
            user_deposit.latest_deposit_timestamp,
            now as int,
            main_state.penalty_period as int,
        ) {
            Err(e) => Err(e),
            Ok(rate) => match decayed_fee_outcome(
                amount as nat,
                main_state.penalty_early_withdraw_fee.bips as nat,
                main_state.penalty_period as nat,
                user_deposit.latest_deposit_timestamp->Some_0 as int,
                now as int,
            ) {
                Err(e) => Err(e),
                Ok(fee) => if fee > amount || amount > main_state.total_deposit {
                    Err(SolscatterError::Overflow)
                } else {
                    Ok((rate, fee))
                },
            },
        },
    }
}

/// Whether `after` is the record `before` less `amount`, with the rate
/// `rate`.
pub open spec fn withdrawn(before: UserDeposit, after: UserDeposit, amount: u64, rate: nat) -> bool {
    &&& after.slot == before.slot
    &&& after.owner == before.owner
    &&& after.amount == before.amount - amount
    &&& after.penalty_fee@ == rate
    &&& after.latest_deposit_timestamp == before.latest_deposit_timestamp
}

/// The number of yield-bearing tokens that stand for `amount` of the
/// underlying token and have to leave the pool's position for a withdrawal
/// of `amount`. Fails with `Overflow` where the conversion has no result.
pub fn calculate_yi_amount(
    yi_token: &YiTokenFees,
    amount: u64,
    total_underlying_tokens: u64,
    total_supply: u64,
) -> (r: Result<u64, SolscatterError>)
    ensures
        r == match yitokens_for_underlying(
            yi_token.stake_fee_millibps,
            amount,
            total_underlying_tokens,
            total_supply,
        ) {
            Some(yi_amount) => Ok::<u64, SolscatterError>(yi_amount),
            None => Err::<u64, SolscatterError>(SolscatterError::Overflow),
        },
{
    match yi_yitokens_for_underlying(
        yi_token.stake_fee_millibps,
        amount,
        total_underlying_tokens,
        total_supply,
    ) {
        Some(yi_amount) => Ok(yi_amount),
        None => Err(SolscatterError::Overflow),
    }
}

/// Checks that the record holds `amount` and has received a deposit.
pub fn validate(user_deposit: &UserDeposit, amount: u64) -> (r: Result<(), SolscatterError>)
    ensures
        match validation_error(*user_deposit, amount) {
            Some(e) => r == Err::<(), SolscatterError>(e),
            None => r is Ok,
        },
{
    if amount > user_deposit.amount {
        return Err(SolscatterError::InsufficientPrincipal);
    }
    if user_deposit.latest_deposit_timestamp.is_none() {
        return Err(SolscatterError::NeverDeposited);
    }
    Ok(())
}

/// Takes `amount` from the record and from the pool's total. Fails with
/// `InsufficientPrincipal` when the record holds less and with `Overflow`
/// when the total does; then nothing changes.
pub fn update_state(main_state: &mut MainState, user_deposit: &mut UserDeposit, amount: u64) -> (r:
    Result<(), SolscatterError>)
    ensures
        amount > old(user_deposit).amount ==> r == Err::<(), SolscatterError>(
            SolscatterError::InsufficientPrincipal,
        ),
        amount <= old(user_deposit).amount && amount > old(main_state).total_deposit ==> r
            == Err::<(), SolscatterError>(SolscatterError::Overflow),
        r is Err ==> *final(main_state) == *old(main_state),
        r is Err ==> *final(user_deposit) == *old(user_deposit),
        amount <= old(user_deposit).amount && amount <= old(main_state).total_deposit ==> r is Ok,
        r is Ok ==> *final(user_deposit) == (UserDeposit {
            amount: (old(user_deposit).amount - amount) as u64,
            ..*old(user_deposit)
        }),
        r is Ok ==> *final(main_state) == old(main_state).with_total_deposit(
            old(main_state).total_deposit - amount,
        ),
{
    if amount > user_deposit.amount {
        return Err(SolscatterError::InsufficientPrincipal);
    }
    if amount > main_state.total_deposit {
        return Err(SolscatterError::Overflow);
    }
    user_deposit.amount = user_deposit.amount - amount;
    main_state.total_deposit = main_state.total_deposit - amount;
    Ok(())
}

/// Withdraws `amount` at `now` and returns what the owner receives and the
/// penalty, which add up to `amount`.
///
/// The record must hold `amount` and have received a deposit. Its rate is
/// refreshed; the penalty is the pool's early-withdrawal fee on `amount`,
/// decayed over the penalty period since the last deposit. On an error
/// nothing changes.
pub fn withdraw(
    main_state: &mut MainState,
    user_deposit: &mut UserDeposit,
    amount: u64,
    now: i64,
) -> (r: Result<(u64, u64), SolscatterError>)
    ensures
        match withdraw_outcome(*old(main_state), *old(user_deposit), amount, now) {
            Ok((rate, fee)) => ({
                &&& r == Ok::<(u64, u64), SolscatterError>(((amount - fee) as u64, fee))
                &&& withdrawn(*old(user_deposit), *final(user_deposit), amount, rate)
                &&& *final(main_state) == old(main_state).with_total_deposit(
                    old(main_state).total_deposit - amount,
                )
            }),
            Err(e) => ({
                &&& r == Err::<(u64, u64), SolscatterError>(e)
                &&& *final(main_state) == *old(main_state)
                &&& *final(user_deposit) == *old(user_deposit)
            }),
        },
{
    match validate(user_deposit, amount) {
        Ok(()) => {},
        Err(e) => {
            return Err(e);
        },
    }
    let last = match user_deposit.latest_deposit_timestamp {
        Some(t) => t,
        None => {
            return Err(SolscatterError::NeverDeposited);
        },
    };
    let mut refreshed = *user_deposit;
    match refreshed.refresh_penalty_fee(now, main_state.penalty_period) {
        Ok(()) => {},
        Err(e) => {
            return Err(e);
        },
    }
    let penalty_fee = match main_state.penalty_early_withdraw_fee.calculate_fee_with_discount_peroid(
        amount,
        main_state.penalty_period as u64,
        last,
        now,
    ) {
        Ok(fee) => fee,
        Err(e) => {
            return Err(e);
        },
    };
    if penalty_fee > amount || amount > main_state.total_deposit {
        return Err(SolscatterError::Overflow);
    }
    let receive_amount: u64 = amount - penalty_fee;
    user_deposit.penalty_fee = refreshed.penalty_fee;
    user_deposit.amount = user_deposit.amount - amount;
    main_state.total_deposit = main_state.total_deposit - amount;
    Ok((receive_amount, penalty_fee))
}

} // verus!
