//! Paying out the rewards of a finished drawing.

use crate::error::SolscatterError;
use crate::identity::Identity;
use crate::state::drawing_result::{DrawingResult, DrawingState, Winner};
use vstd::prelude::*;

verus! {

/// Whether `user` can claim the reward that `winner` stands for.
pub open spec fn claimable(winner: Option<Winner>, user: Identity) -> bool {
    winner matches Some(w) && w.pubkey == user && w.can_claim
}

/// The number of rewards that `user` can claim.
pub open spec fn claim_count(winners: Seq<Option<Winner>>, user: Identity) -> nat
    decreases winners.len(),
{
    if winners.len() == 0 {
        0
    } else {
        claim_count(winners.drop_last(), user) + if claimable(winners.last(), user) {
            1nat
        } else {
            0nat
        }
    }
}

/// One reward after `user` has claimed: a reward that the user could claim
/// is marked as claimed, any other is as it was.
pub open spec fn claimed_winner(winner: Option<Winner>, user: Identity) -> Option<Winner> {
    if claimable(winner, user) {
        Some(Winner { pubkey: user, can_claim: false })
    } else {
        winner
    }
}

/// All rewards after `user` has claimed.
pub open spec fn claimed_winners(winners: Seq<Option<Winner>>, user: Identity) -> Seq<
    Option<Winner>,
> {
    Seq::new(winners.len(), |i: int| claimed_winner(winners[i], user))
}

/// Whether `user` won none of the rewards.
pub open spec fn is_not_winner(winners: Seq<Option<Winner>>, user: Identity) -> bool {
    forall|i: int|
        0 <= i < winners.len() ==> ((#[trigger] winners[i]) matches Some(w) ==> w.pubkey != user)
}

/// Nothing can be claimed exactly when no reward is claimable, and then a
/// claim leaves every reward as it was.
pub proof fn lemma_claim_count_zero(winners: Seq<Option<Winner>>, user: Identity)
    ensures
        claim_count(winners, user) == 0 <==> (forall|i: int|
            0 <= i < winners.len() ==> !claimable(#[trigger] winners[i], user)),
        claim_count(winners, user) == 0 ==> claimed_winners(winners, user) == winners,
        claim_count(winners, user) <= winners.len(),
    decreases winners.len(),
{
    if winners.len() > 0 {
        lemma_claim_count_zero(winners.drop_last(), user);
        assert(forall|i: int|
            0 <= i < winners.len() - 1 ==> winners.drop_last()[i] == #[trigger] winners[i]);
        if claim_count(winners, user) == 0 {
            assert forall|i: int| 0 <= i < winners.len() implies !claimable(
                #[trigger] winners[i],
                user,
            ) by {
                if i < winners.len() - 1 {
                    assert(winners.drop_last()[i] == winners[i]);
                }
            }
        } else {
            if claimable(winners.last(), user) {
                assert(claimable(winners[winners.len() - 1], user));
            } else {
                let i = choose|i: int|
                    0 <= i < winners.len() - 1 && claimable(
                        #[trigger] winners.drop_last()[i],
                        user,
                    );
                assert(claimable(winners[i], user));
            }
        }
    }
    if claim_count(winners, user) == 0 {
        assert(claimed_winners(winners, user) =~= winners);
    }
}

/// An identity that won no reward is paid nothing, and its claim leaves
/// every reward as it was.
pub proof fn lemma_non_winner_claims_nothing(winners: Seq<Option<Winner>>, user: Identity)
    requires
        is_not_winner(winners, user),
    ensures
        claim_count(winners, user) == 0,
        claimed_winners(winners, user) == winners,
{
    lemma_claim_count_zero(winners, user);
}

/// After a claim nothing is left to claim: a second claim by the same
/// identity is paid nothing and leaves every reward as the first claim left
/// it.
pub proof fn lemma_second_claim_is_empty(winners: Seq<Option<Winner>>, user: Identity)
    ensures
        claim_count(claimed_winners(winners, user), user) == 0,
        claimed_winners(claimed_winners(winners, user), user) == claimed_winners(winners, user),
{
    lemma_claim_count_zero(claimed_winners(winners, user), user);
}

/// Pays `user` the rewards that they won in a finished drawing and have not
/// claimed yet, and marks these as claimed. Each reward pays an equal share
/// of the reward amount, rounded down.
///
/// Fails with `DrawingIsNotFinished`, and changes nothing, while the
/// drawing is processing.
pub fn handler(drawing_result: &mut DrawingResult, user: Identity) -> (r: Result<
    u64,
    SolscatterError,
>)
    requires
        old(drawing_result).wf(),
    ensures
        final(drawing_result).wf(),
        old(drawing_result).state != DrawingState::Finished ==> r == Err::<u64, SolscatterError>(
            SolscatterError::DrawingIsNotFinished,
        ) && *final(drawing_result) == *old(drawing_result),
        old(drawing_result).state == DrawingState::Finished ==> r == Ok::<u64, SolscatterError>(
            (old(drawing_result).each_reward_amount() * claim_count(
                old(drawing_result).winners@,
                user,
            )) as u64,
        ),
        final(drawing_result).winners@ == if old(drawing_result).state == DrawingState::Finished {
            claimed_winners(old(drawing_result).winners@, user)
        } else {
            old(drawing_result).winners@
        },
        is_not_winner(old(drawing_result).winners@, user) ==> final(drawing_result).winners@
            == old(drawing_result).winners@ && (r matches Ok(paid) ==> paid == 0),
        final(drawing_result).round == old(drawing_result).round,
        final(drawing_result).state == old(drawing_result).state,
        final(drawing_result).reward_amount == old(drawing_result).reward_amount,
        final(drawing_result).number_of_rewards == old(drawing_result).number_of_rewards,
        final(drawing_result).random_numbers == old(drawing_result).random_numbers,
        final(drawing_result).total_deposit == old(drawing_result).total_deposit,
        final(drawing_result).last_processed_slot == old(drawing_result).last_processed_slot,
        final(drawing_result).finished_timestamp == old(drawing_result).finished_timestamp,
{
    match drawing_result.state {
        DrawingState::Finished => {},
        DrawingState::Processing => {
            return Err(SolscatterError::DrawingIsNotFinished);
        },
    }
    let each_reward_amount: u64 = drawing_result.reward_amount / (
    drawing_result.number_of_rewards as u64);
    let n = drawing_result.winners.len();
    let ghost before = drawing_result.winners@;
    let mut winners: Vec<Option<Winner>> = Vec::new();
    let mut total_receive_amount: u64 = 0;
    let mut index: usize = 0;
    proof {
        assert(each_reward_amount * n <= drawing_result.reward_amount) by (nonlinear_arith)
            requires
                each_reward_amount == (drawing_result.reward_amount as nat) / (n as nat),
                n > 0,
        ;
    }
    while index < n
        invariant
            *drawing_result == *old(drawing_result),
            before == drawing_result.winners@,
            index <= n,
            n == before.len(),
            winners@.len() == index,
            forall|j: int|
                0 <= j < index ==> #[trigger] winners@[j] == claimed_winner(before[j], user),
            total_receive_amount == each_reward_amount * claim_count(before.take(index as int), user),
            claim_count(before.take(index as int), user) <= index,
            each_reward_amount * n <= u64::MAX,
        decreases n - index,
    {
        let ghost counted = claim_count(before.take(index as int), user);
        proof {
            assert(before.take(index + 1).drop_last() =~= before.take(index as int));
            assert(each_reward_amount * (counted + 1) <= each_reward_amount * n)
                by (nonlinear_arith)
                requires
                    counted + 1 <= n,
            ;
            assert(each_reward_amount * (counted + 1) == each_reward_amount * counted
                + each_reward_amount) by (nonlinear_arith);
        }
        match drawing_result.winners[index] {
            Some(winner) => {
                if winner.pubkey == user && winner.can_claim {
                    total_receive_amount = total_receive_amount + each_reward_amount;
                    winners.push(Some(Winner { pubkey: winner.pubkey, can_claim: false }));
                } else {
                    winners.push(Some(winner));
                }
            },
            None => {
                winners.push(None);
            },
        }
        index = index + 1;
    }
    proof {
        assert(before.take(n as int) =~= before);
        assert(winners@ =~= claimed_winners(before, user));
        assert forall|i: int| 0 <= i < winners@.len() implies (#[trigger] winners@[i]) is Some by {
            assert(before[i] is Some);
        }
        if is_not_winner(before, user) {
            lemma_non_winner_claims_nothing(before, user);
            assert(each_reward_amount * 0 == 0) by (nonlinear_arith);
        }
    }
    drawing_result.winners = winners;
    Ok(total_receive_amount)
}

} // verus!
