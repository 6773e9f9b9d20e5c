//! The pool's singleton state.

use crate::identity::Identity;
use crate::state::fee::Fee;
use vstd::prelude::*;

verus! {

/// The aggregate that every ledger operation reads and updates.
#[derive(Clone, Copy, Debug)]
pub struct MainState {
    /// The slot that was allocated last; zero while the ledger is empty.
    pub current_slot: u64,
    /// The round whose drawing is open or comes next.
    pub current_round: u64,
    /// The principal held over all deposit records.
    pub total_deposit: u64,
    /// The account that supplies randomness.
    pub vrf_account_pubkey: Identity,
    /// The time in seconds over which an early-withdrawal penalty decays.
    pub penalty_period: i64,
    /// The early-withdrawal penalty at the moment of a deposit.
    pub penalty_early_withdraw_fee: Fee,
    /// The platform's own fee.
    pub platform_fee: Fee,
}

impl MainState {
    /// The slot that the next record will get.
    pub open spec fn next_slot(&self) -> nat {
        (self.current_slot + 1) as nat
    }

    /// This state with another last slot.
    pub open spec fn with_current_slot(self, current_slot: int) -> MainState {
        MainState { current_slot: current_slot as u64, ..self }
    }

    /// This state with another round.
    pub open spec fn with_current_round(self, current_round: int) -> MainState {
        MainState { current_round: current_round as u64, ..self }
    }

    /// This state with another total principal.
    pub open spec fn with_total_deposit(self, total_deposit: int) -> MainState {
        MainState { total_deposit: total_deposit as u64, ..self }
    }
}

} // verus!
