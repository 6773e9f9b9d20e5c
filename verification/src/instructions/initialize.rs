//! Setting up the pool.

use crate::duration::SECS_PER_DAY;
use crate::identity::Identity;
use crate::state::fee::Fee;
use crate::state::main_state::MainState;
use vstd::prelude::*;

verus! {

/// The state of a new pool: an empty ledger before its first round, a
/// penalty period of seven days, an early-withdrawal penalty of five percent
/// and a platform fee of one percent.
pub fn initialize_main_state(vrf_account_pubkey: Identity) -> (main_state: MainState)
    ensures
        main_state == (MainState {
            current_slot: 0,
            current_round: 1,
            total_deposit: 0,
            vrf_account_pubkey,
            penalty_period: 604_800,
            penalty_early_withdraw_fee: Fee { bips: 500 },
            platform_fee: Fee { bips: 100 },
        }),
{
    MainState {
        current_slot: 0,
        current_round: 1,
        total_deposit: 0,
        vrf_account_pubkey,
        penalty_period: 7 * SECS_PER_DAY,
        penalty_early_withdraw_fee: Fee { bips: 500 },
        platform_fee: Fee { bips: 100 },
    }
}

} // verus!
