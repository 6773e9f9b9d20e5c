//! One round's drawing: the rewards on offer, the random thresholds that
//! are still to be consumed, and the winners found so far.

use crate::error::SolscatterError;
use crate::identity::Identity;
use crate::state::main_state::MainState;
use vstd::prelude::*;

verus! {

/// The most rewards that one drawing can hold.
pub const MAX_NUMBER_OF_REWARDS: u8 = 10;

/// Whether a drawing still examines the ledger.
#[derive(Clone, Copy, Debug, PartialEq, Eq, Structural)]
pub enum DrawingState {
    Processing,
    Finished,
}

/// The owner who won a reward, and whether the reward is still to be
/// claimed.
#[derive(Clone, Copy, Debug, PartialEq, Eq, Structural)]
pub struct Winner {
    pub pubkey: Identity,
    pub can_claim: bool,
}

/// The session of one round.
#[derive(Debug)]
pub struct DrawingResult {
    pub round: u64,
    pub state: DrawingState,
    /// The yield that the round distributes.
    pub reward_amount: u64,
    pub number_of_rewards: u8,
    /// The winner of each reward, once found.
    pub winners: Vec<Option<Winner>>,
    /// For each reward the weight that is still to be passed before its
    /// winner is reached.
    pub random_numbers: Vec<u64>,
    /// The pool's total principal when the drawing opened.
    pub total_deposit: u64,
    /// The last ledger slot that was examined; zero before the first step.
    pub last_processed_slot: u64,
    pub finished_timestamp: Option<i64>,
}

/// Whether every reward has its winner.
pub open spec fn all_resolved(winners: Seq<Option<Winner>>) -> bool {
    forall|i: int| 0 <= i < winners.len() ==> (#[trigger] winners[i]) is Some
}

/// The number of bytes that a stored drawing with `number_of_rewards`
/// rewards takes: a tag of eight bytes, the fixed fields, and four times
/// the room of the winners (34 bytes each) and of the thresholds (8 bytes
/// each).
pub open spec fn drawing_result_space(number_of_rewards: nat) -> nat {
    8 + 8 + 1 + 8 + 1 + 4 * (34 * number_of_rewards) + 4 * (8 * number_of_rewards) + 8 + 8 + 9
}

impl DrawingResult {
    /// The number of rewards is between one and ten, each reward has a
    /// threshold and a place for its winner, and the drawing is finished
    /// exactly when every reward has its winner.
    pub open spec fn wf(&self) -> bool {
        &&& 1 <= self.number_of_rewards <= MAX_NUMBER_OF_REWARDS
        &&& self.winners@.len() == self.number_of_rewards
        &&& self.random_numbers@.len() == self.number_of_rewards
        &&& (self.state == DrawingState::Finished) == all_resolved(self.winners@)
    }

    /// What one reward pays: an equal share of the reward amount, rounded
    /// down. The remainder stays with the pool.
    pub open spec fn each_reward_amount(&self) -> nat {
        (self.reward_amount as nat) / (self.number_of_rewards as nat)
    }

    /// The room to reserve for a drawing with `number_of_rewards` rewards.
    pub fn space(number_of_rewards: u8) -> (r: Result<usize, SolscatterError>)
        ensures
            number_of_rewards == 0 || number_of_rewards > MAX_NUMBER_OF_REWARDS ==> r == Err::<
                usize,
                SolscatterError,
            >(SolscatterError::RewardCountMismatch),
            1 <= number_of_rewards <= MAX_NUMBER_OF_REWARDS ==> r == Ok::<usize, SolscatterError>(
                drawing_result_space(number_of_rewards as nat) as usize,
            ) && drawing_result_space(number_of_rewards as nat) == 51 + 168 * number_of_rewards,
    {
        if number_of_rewards == 0 || number_of_rewards > MAX_NUMBER_OF_REWARDS {
            return Err(SolscatterError::RewardCountMismatch);
        }
        let n: usize = number_of_rewards as usize;
        Ok(8 + 8 + 1 + 8 + 1 + 4 * (34 * n) + 4 * (8 * n) + 8 + 8 + 9)
    }

    /// Whether every reward has its winner.
    pub fn is_resolved(&self) -> (b: bool)
        ensures
            b == all_resolved(self.winners@),
    {
        let mut i: usize = 0;
        while i < self.winners.len()
            invariant
                i <= self.winners@.len(),
                forall|j: int| 0 <= j < i ==> (#[trigger] self.winners@[j]) is Some,
            decreases self.winners@.len() - i,
        {
            if self.winners[i].is_none() {
                return false;
            }
            i = i + 1;
        }
        true
    }

    /// Whether the drawing has come to the end of the ledger with a reward
    /// unresolved: it is processing and has examined every slot that the
    /// pool has allocated. Such a drawing makes no step until a record is
    /// opened.
    pub open spec fn exhausted(&self, main_state: MainState) -> bool {
        self.state == DrawingState::Processing && self.last_processed_slot
            >= main_state.current_slot
    }

    /// Whether the drawing has come to the end of the ledger with a reward
    /// unresolved.
    pub fn is_exhausted(&self, main_state: &MainState) -> (b: bool)
        ensures
            b == self.exhausted(*main_state),
    {
        match self.state {
            DrawingState::Processing => self.last_processed_slot >= main_state.current_slot,
            DrawingState::Finished => false,
        }
    }

    /// Whether the session is well formed.
    pub fn is_well_formed(&self) -> (b: bool)
        ensures
            b == self.wf(),
    {
        if self.number_of_rewards == 0 || self.number_of_rewards > MAX_NUMBER_OF_REWARDS {
            return false;
        }
        if self.winners.len() != self.number_of_rewards as usize || self.random_numbers.len()
            != self.number_of_rewards as usize {
            return false;
        }
        let resolved = self.is_resolved();
        match self.state {
            DrawingState::Finished => resolved,
            DrawingState::Processing => !resolved,
        }
    }
}

} // verus!
