//! One step of a drawing: the record at the next ledger slot is weighed
//! against every reward that has no winner yet.

use crate::error::SolscatterError;
use crate::identity::Identity;
use crate::state::drawing_result::{all_resolved, DrawingResult, DrawingState, Winner};
use crate::state::main_state::MainState;
use crate::state::user_deposit::UserDeposit;
use vstd::prelude::*;

verus! {

/// The threshold of one reward after a record of `amount` was weighed: a
/// reward without a winner that the record does not win has the amount
/// taken off its threshold.
pub open spec fn stepped_threshold(threshold: u64, winner: Option<Winner>, amount: u64) -> u64 {
    if winner is None && threshold >= amount {
        (threshold - amount) as u64
    } else {
        threshold
    }
}

/// The winner of one reward after the record of `owner` with `amount` was
/// weighed: the owner wins a reward without a winner whose threshold is
/// below the amount.
pub open spec fn stepped_winner(
    threshold: u64,
    winner: Option<Winner>,
    amount: u64,
    owner: Identity,
) -> Option<Winner> {
    if winner is None && threshold < amount {
        Some(Winner { pubkey: owner, can_claim: true })
    } else {
        winner
    }
}

/// The thresholds of all rewards after one record was weighed.
pub open spec fn stepped_thresholds(
    thresholds: Seq<u64>,
    winners: Seq<Option<Winner>>,
    amount: u64,
) -> Seq<u64> {
    Seq::new(thresholds.len(), |i: int| stepped_threshold(thresholds[i], winners[i], amount))
}

/// The winners of all rewards after one record was weighed. Each reward is
/// drawn on its own, so one owner may win several.
pub open spec fn stepped_winners(
    thresholds: Seq<u64>,
    winners: Seq<Option<Winner>>,
    amount: u64,
    owner: Identity,
) -> Seq<Option<Winner>> {
    Seq::new(winners.len(), |i: int| stepped_winner(thresholds[i], winners[i], amount, owner))
}

/// Why the step for `processing_slot` is refused, if it is.
pub open spec fn step_error(
    main_state: MainState,
    drawing_result: DrawingResult,
    user_deposit: UserDeposit,
    processing_slot: u64,
) -> Option<SolscatterError> {
    if drawing_result.state != DrawingState::Processing {
        Some(SolscatterError::SessionNotProcessing)
    } else if processing_slot != drawing_result.last_processed_slot + 1 {
        Some(SolscatterError::OutOfOrderStep)
    } else if processing_slot > main_state.current_slot {
        Some(SolscatterError::LedgerExhaustedBeforeResolution)
    } else if user_deposit.slot != processing_slot {
        Some(SolscatterError::UnknownSlot)
    } else if main_state.current_round == u64::MAX && all_resolved(
        stepped_winners(
            drawing_result.random_numbers@,
            drawing_result.winners@,
            user_deposit.amount,
            user_deposit.owner,
        ),
    ) {
        Some(SolscatterError::Overflow)
    } else {
        None
    }
}

/// Whether `after` is the session `before` one step on: `user_deposit` was
/// weighed at `now`.
pub open spec fn stepped(
    before: DrawingResult,
    after: DrawingResult,
    user_deposit: UserDeposit,
    now: i64,
) -> bool {
    &&& after.round == before.round
    &&& after.reward_amount == before.reward_amount
    &&& after.number_of_rewards == before.number_of_rewards
    &&& after.total_deposit == before.total_deposit
    &&& after.random_numbers@ == stepped_thresholds(
        before.random_numbers@,
        before.winners@,
        user_deposit.amount,
    )
    &&& after.winners@ == stepped_winners(
        before.random_numbers@,
        before.winners@,
        user_deposit.amount,
        user_deposit.owner,
    )
    &&& after.last_processed_slot == before.last_processed_slot + 1
    &&& after.state == if all_resolved(after.winners@) {
        DrawingState::Finished
    } else {
        DrawingState::Processing
    }
    &&& after.finished_timestamp == if all_resolved(after.winners@) {
        Some(now)
    } else {
        before.finished_timestamp
    }
}

/// A drawing that is well formed and has come to the end of the ledger is
/// refused its next step with `LedgerExhaustedBeforeResolution`, whatever
/// record is offered.
pub proof fn lemma_exhausted_drawing_is_refused(
    main_state: MainState,
    drawing_result: DrawingResult,
    user_deposit: UserDeposit,
)
    requires
        drawing_result.exhausted(main_state),
        drawing_result.last_processed_slot < u64::MAX,
    ensures
        step_error(
            main_state,
            drawing_result,
            user_deposit,
            (drawing_result.last_processed_slot + 1) as u64,
        ) == Some(SolscatterError::LedgerExhaustedBeforeResolution),
{
}

/// The weight of the first `count` records: the sum of their amounts.
pub open spec fn weight_of(records: Seq<UserDeposit>, count: int) -> nat
    decreases count,
{
    if count <= 0 {
        0
    } else {
        weight_of(records, count - 1) + records[count - 1].amount as nat
    }
}

/// The threshold and the winner of one reward after the records were
/// weighed in turn.
pub open spec fn drawn(threshold: u64, winner: Option<Winner>, records: Seq<UserDeposit>) -> (
    u64,
    Option<Winner>,
)
    decreases records.len(),
{
    if records.len() == 0 {
        (threshold, winner)
    } else {
        let before = drawn(threshold, winner, records.drop_last());
        (
            stepped_threshold(before.0, before.1, records.last().amount),
            stepped_winner(before.0, before.1, records.last().amount, records.last().owner),
        )
    }
}

/// Whether the record at `index` is the one at which the weight passed
/// first exceeds `threshold`.
pub open spec fn wins_at(threshold: u64, records: Seq<UserDeposit>, index: int) -> bool {
    &&& 0 <= index < records.len()
    &&& weight_of(records, index) <= threshold < weight_of(records, index + 1)
}

proof fn lemma_weight_of_prefix(records: Seq<UserDeposit>, count: int)
    requires
        records.len() > 0,
        count < records.len(),
    ensures
        weight_of(records.drop_last(), count) == weight_of(records, count),
    decreases count,
{
    if count > 0 {
        lemma_weight_of_prefix(records, count - 1);
    }
}

/// The steps of a drawing make a lottery by cumulative weight: a reward
/// that starts with `threshold` goes to the owner of the first record at
/// which the weight passed exceeds the threshold, and then keeps what was
/// left of the threshold before that record. While the weight of all
/// records stays within the threshold, the reward has no winner and the
/// threshold is reduced by that weight.
pub proof fn lemma_cumulative_weight_lottery(threshold: u64, records: Seq<UserDeposit>)
    ensures
        forall|index: int| #[trigger]
            wins_at(threshold, records, index) ==> drawn(threshold, None, records) == (
                (threshold - weight_of(records, index)) as u64,
                Some(Winner { pubkey: records[index].owner, can_claim: true }),
            ),
        weight_of(records, records.len() as int) <= threshold ==> drawn(threshold, None, records)
            == ((threshold - weight_of(records, records.len() as int)) as u64, None::<Winner>),
    decreases records.len(),
{
    if records.len() > 0 {
        let rest = records.drop_last();
        let count = rest.len() as int;
        lemma_cumulative_weight_lottery(threshold, rest);
        lemma_weight_of_prefix(records, count);
        assert forall|index: int| #[trigger] wins_at(threshold, records, index) implies drawn(
            threshold,
            None,
            records,
        ) == (
            (threshold - weight_of(records, index)) as u64,
            Some(Winner { pubkey: records[index].owner, can_claim: true }),
        ) by {
            if index < count {
                lemma_weight_of_prefix(records, index);
                lemma_weight_of_prefix(records, index + 1);
                assert(wins_at(threshold, rest, index));
            }
        }
    }
}

/// One more step continues the drawing: a reward that stands where the
/// records weighed so far have brought it stands, after the step, where
/// these records and the one just weighed bring it.
pub proof fn lemma_step_extends_drawing(
    threshold: u64,
    weighed: Seq<UserDeposit>,
    before: DrawingResult,
    after: DrawingResult,
    user_deposit: UserDeposit,
    now: i64,
    reward: int,
)
    requires
        before.wf(),
        0 <= reward < before.number_of_rewards,
        stepped(before, after, user_deposit, now),
        (before.random_numbers@[reward], before.winners@[reward]) == drawn(threshold, None, weighed),
    ensures
        (after.random_numbers@[reward], after.winners@[reward]) == drawn(
            threshold,
            None,
            weighed.push(user_deposit),
        ),
{
    assert(weighed.push(user_deposit).drop_last() =~= weighed);
}

/// Advances the drawing by the record at `processing_slot`.
///
/// The session must be processing, the slot must be the one after the last
/// that was examined and must exist in the ledger, and `user_deposit` must
/// be the record at that slot. When the last reward finds its winner the
/// session is finished at `now` and the pool moves to its next round. On an
/// error nothing changes.
pub fn handler(
    main_state: &mut MainState,
    drawing_result: &mut DrawingResult,
    user_deposit: &UserDeposit,
    processing_slot: u64,
    now: i64,
) -> (r: Result<(), SolscatterError>)
    requires
        old(drawing_result).wf(),
    ensures
        final(drawing_result).wf(),
        match step_error(*old(main_state), *old(drawing_result), *user_deposit, processing_slot) {
            Some(e) => ({
                &&& r == Err::<(), SolscatterError>(e)
                &&& *final(drawing_result) == *old(drawing_result)
                &&& *final(main_state) == *old(main_state)
            }),
            None => ({
                &&& r is Ok
                &&& stepped(*old(drawing_result), *final(drawing_result), *user_deposit, now)
                &&& *final(main_state) == if final(drawing_result).state
                    == DrawingState::Finished {
                    old(main_state).with_current_round(old(main_state).current_round + 1)
                } else {
                    *old(main_state)
                }
            }),
        },
{
    match drawing_result.state {
        DrawingState::Processing => {},
        DrawingState::Finished => {
            return Err(SolscatterError::SessionNotProcessing);
        },
    }
    if drawing_result.last_processed_slot == u64::MAX || processing_slot
        != drawing_result.last_processed_slot + 1 {
        return Err(SolscatterError::OutOfOrderStep);
    }
    if processing_slot > main_state.current_slot {
        return Err(SolscatterError::LedgerExhaustedBeforeResolution);
    }
    if user_deposit.slot != processing_slot {
        return Err(SolscatterError::UnknownSlot);
    }
    let amount = user_deposit.amount;
    let owner = user_deposit.owner;
    let n = drawing_result.winners.len();
    let mut winners: Vec<Option<Winner>> = Vec::new();
    let mut random_numbers: Vec<u64> = Vec::new();
    let mut resolved = true;
    let mut index: usize = 0;
    while index < n
        invariant
            *drawing_result == *old(drawing_result),
            index <= n,
            n == drawing_result.winners@.len(),
            n == drawing_result.random_numbers@.len(),
            winners@.len() == index,
            random_numbers@.len() == index,
            forall|j: int|
                0 <= j < index ==> #[trigger] winners@[j] == stepped_winner(
                    drawing_result.random_numbers@[j],
                    drawing_result.winners@[j],
                    amount,
                    owner,
                ),
            forall|j: int|
                0 <= j < index ==> #[trigger] random_numbers@[j] == stepped_threshold(
                    drawing_result.random_numbers@[j],
                    drawing_result.winners@[j],
                    amount,
                ),
            resolved == (forall|j: int| 0 <= j < index ==> (#[trigger] winners@[j]) is Some),
        decreases n - index,
    {
        let ghost found = winners@;
        let threshold = drawing_result.random_numbers[index];
        match drawing_result.winners[index] {
            Some(winner) => {
                winners.push(Some(winner));
                random_numbers.push(threshold);
            },
            None => {
                if threshold < amount {
                    winners.push(Some(Winner { pubkey: owner, can_claim: true }));
                    random_numbers.push(threshold);
                } else {
                    winners.push(None);
                    random_numbers.push(threshold - amount);
                    resolved = false;
                    assert(winners@[index as int] is None);
                }
            },
        }
        assert(forall|j: int| 0 <= j < index ==> winners@[j] == #[trigger] found[j]);
        index = index + 1;
    }
    assert(winners@ =~= stepped_winners(
        drawing_result.random_numbers@,
        drawing_result.winners@,
        amount,
        owner,
    ));
    assert(random_numbers@ =~= stepped_thresholds(
        drawing_result.random_numbers@,
        drawing_result.winners@,
        amount,
    ));
    if resolved {
        if main_state.current_round == u64::MAX {
            return Err(SolscatterError::Overflow);
        }
        main_state.current_round = main_state.current_round + 1;
        drawing_result.state = DrawingState::Finished;
        drawing_result.finished_timestamp = Some(now);
    }
    drawing_result.winners = winners;
    drawing_result.random_numbers = random_numbers;
    drawing_result.last_processed_slot = processing_slot;
    Ok(())
}

} // verus!
