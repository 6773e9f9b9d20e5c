//! Opening a round's drawing.

use crate::error::SolscatterError;
use crate::state::drawing_result::{
    DrawingResult, DrawingState, Winner, MAX_NUMBER_OF_REWARDS,
};
use crate::state::main_state::MainState;
use crate::state::yi_token::{
    underlying_for_yitokens, yi_underlying_for_yitokens, yi_yitokens_for_underlying,
    yitokens_for_underlying, YiTokenFees,
};
use vstd::prelude::*;

verus! {

/// Whether a drawing can be opened for `number_of_rewards` rewards with
/// these thresholds: between one and ten rewards, and one threshold each.
pub open spec fn rewards_match(number_of_rewards: u8, random_numbers: Seq<u64>) -> bool {
    1 <= number_of_rewards <= MAX_NUMBER_OF_REWARDS && random_numbers.len() == number_of_rewards
}

/// Checks the number of rewards against its bounds and against the number
/// of thresholds.
pub fn validate(number_of_rewards: u8, random_numbers: &Vec<u64>) -> (r: Result<
    (),
    SolscatterError,
>)
    ensures
        rewards_match(number_of_rewards, random_numbers@) ==> r is Ok,
        !rewards_match(number_of_rewards, random_numbers@) ==> r == Err::<(), SolscatterError>(
            SolscatterError::RewardCountMismatch,
        ),
{
    if number_of_rewards == 0 || number_of_rewards > MAX_NUMBER_OF_REWARDS {
        return Err(SolscatterError::RewardCountMismatch);
    }
    if random_numbers.len() != number_of_rewards as usize {
        return Err(SolscatterError::RewardCountMismatch);
    }
    Ok(())
}

/// The yield of the pool's position of `yi_amount` yield-bearing tokens,
/// in those tokens: the position is valued in the underlying token, the
/// principal that the pool owes is taken off, and what is left is converted
/// back.
///
/// `Overflow` where a conversion has no result or the position is worth
/// less than the principal; `NoYield` where it is worth exactly the
/// principal.
pub open spec fn yield_outcome(
    yi_token: YiTokenFees,
    yi_amount: u64,
    total_underlying_tokens: u64,
    total_supply: u64,
    total_deposit: u64,
) -> Result<u64, SolscatterError> {
    match underlying_for_yitokens(
        yi_token.unstake_fee_millibps,
        yi_amount,
        total_underlying_tokens,
        total_supply,
    ) {
        None => Err(SolscatterError::Overflow),
        Some(worth) => if worth < total_deposit {
            Err(SolscatterError::Overflow)
        } else if worth == total_deposit {
            Err(SolscatterError::NoYield)
        } else {
            match yitokens_for_underlying(
                yi_token.stake_fee_millibps,
                (worth - total_deposit) as u64,
                total_underlying_tokens,
                total_supply,
            ) {
                None => Err(SolscatterError::Overflow),
                Some(reward) => Ok(reward),
            }
        },
    }
}

/// The number of yield-bearing tokens to take out of the pool's position of
/// `yi_amount` for a drawing: the yield above `total_deposit`, where
/// `total_supply` yield-bearing tokens stand for `total_underlying_tokens`.
pub fn calculate_yield(
    yi_token: &YiTokenFees,
    yi_amount: u64,
    total_underlying_tokens: u64,
    total_supply: u64,
    total_deposit: u64,
) -> (r: Result<u64, SolscatterError>)
    ensures
        r == yield_outcome(*yi_token, yi_amount, total_underlying_tokens, total_supply, total_deposit),
{
    let yi_underlying_amount = match yi_underlying_for_yitokens(
        yi_token.unstake_fee_millibps,
        yi_amount,
        total_underlying_tokens,
        total_supply,
    ) {
        Some(v) => v,
        None => {
            return Err(SolscatterError::Overflow);
        },
    };
    if yi_underlying_amount < total_deposit {
        return Err(SolscatterError::Overflow);
    }
    let reward_underlying_amount = yi_underlying_amount - total_deposit;
    if reward_underlying_amount == 0 {
        return Err(SolscatterError::NoYield);
    }
    match yi_yitokens_for_underlying(
        yi_token.stake_fee_millibps,
        reward_underlying_amount,
        total_underlying_tokens,
        total_supply,
    ) {
        Some(reward_yi_amount) => Ok(reward_yi_amount),
        None => Err(SolscatterError::Overflow),
    }
}

/// Opens the drawing of the pool's current round over `reward_amount`, with
/// one threshold for each reward. The session starts processing before the
/// first slot, without winners, and keeps the pool's total principal of this
/// moment.
pub fn handler(
    main_state: &MainState,
    reward_amount: u64,
    number_of_rewards: u8,
    random_numbers: Vec<u64>,
) -> (r: Result<DrawingResult, SolscatterError>)
    ensures
        !rewards_match(number_of_rewards, random_numbers@) ==> r == Err::<
            DrawingResult,
            SolscatterError,
        >(SolscatterError::RewardCountMismatch),
        rewards_match(number_of_rewards, random_numbers@) ==> (r matches Ok(session)
            && session.wf() && session.round == main_state.current_round && session.state
            == DrawingState::Processing && session.reward_amount == reward_amount
            && session.number_of_rewards == number_of_rewards && session.winners@ == Seq::new(
            number_of_rewards as nat,
            |i: int| None::<Winner>,
        ) && session.random_numbers@ == random_numbers@ && session.total_deposit
            == main_state.total_deposit && session.last_processed_slot == 0
            && session.finished_timestamp is None),
{
    match validate(number_of_rewards, &random_numbers) {
        Ok(()) => {},
        Err(e) => {
            return Err(e);
        },
    }
    let mut winners: Vec<Option<Winner>> = Vec::new();
    let mut count: u8 = 0;
    while count < number_of_rewards
        invariant
            count <= number_of_rewards,
            winners@.len() == count,
            forall|j: int| 0 <= j < count ==> (#[trigger] winners@[j]) is None,
        decreases number_of_rewards - count,
    {
        winners.push(None);
        count = count + 1;
    }
    assert(winners@ =~= Seq::new(number_of_rewards as nat, |i: int| None::<Winner>));
    assert(winners@[0] is None);
    Ok(
        DrawingResult {
            round: main_state.current_round,
            state: DrawingState::Processing,
            reward_amount,
            number_of_rewards,
            winners,
            random_numbers,
            total_deposit: main_state.total_deposit,
            last_processed_slot: 0,
            finished_timestamp: None,
        },
    )
}

} // verus!
