//! Opening a depositor's record.

use crate::error::SolscatterError;
use crate::fixed::Fixed;
use crate::identity::Identity;
use crate::state::main_state::MainState;
use crate::state::user_deposit::UserDeposit;
use crate::state::user_deposit_reference::UserDepositReference;
use vstd::prelude::*;

verus! {

/// Whether `user_deposit` is the record that `owner` gets at `slot`: it
/// holds nothing, carries no rate and has seen no deposit.
pub open spec fn opened(user_deposit: UserDeposit, slot: nat, owner: Identity) -> bool {
    &&& user_deposit.slot == slot
    &&& user_deposit.owner == owner
    &&& user_deposit.amount == 0
    &&& user_deposit.penalty_fee@ == 0
    &&& user_deposit.latest_deposit_timestamp is None
}

/// Allocates the next ledger slot to `depositor`: an empty record without a
/// deposit time, and the reference that leads to it. Fails with `Overflow`,
/// and changes nothing, when no slot number is left.
pub fn handler(main_state: &mut MainState, depositor: Identity) -> (r: Result<
    (UserDeposit, UserDepositReference),
    SolscatterError,
>)
    ensures
        old(main_state).current_slot == u64::MAX ==> r is Err,
        r matches Err(e) ==> e == SolscatterError::Overflow && *final(main_state) == *old(
            main_state
        ),
        old(main_state).current_slot < u64::MAX ==> *final(main_state) == old(
            main_state
        ).with_current_slot(old(main_state).current_slot + 1),
        old(main_state).current_slot < u64::MAX ==> (r matches Ok((user_deposit, reference))
            && opened(user_deposit, old(main_state).next_slot(), depositor) && reference.slot
            == user_deposit.slot),
{
    if main_state.current_slot == u64::MAX {
        return Err(SolscatterError::Overflow);
    }
    let slot: u64 = main_state.current_slot + 1;
    main_state.current_slot = slot;
    Ok(
        (
            UserDeposit {
                slot,
                amount: 0,
                penalty_fee: Fixed::zero(),
                owner: depositor,
                latest_deposit_timestamp: None,
            },
            UserDepositReference { slot },
        ),
    )
}

} // verus!
