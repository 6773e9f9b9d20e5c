//! The deposit ledger: the pool's state together with every deposit record,
//! one per owner, in the order of their slots.

use crate::error::SolscatterError;
use crate::identity::Identity;
use crate::instructions::deposit::{deposit_outcome, deposited};
use crate::instructions::deposit_initialize::opened;
use crate::instructions::drawing::{step_error, stepped};
use crate::instructions::withdraw::{withdraw_outcome, withdrawn};
use crate::state::drawing_result::{DrawingResult, DrawingState};
use crate::state::main_state::MainState;
use crate::state::user_deposit::UserDeposit;
use crate::state::user_deposit_reference::UserDepositReference;
use vstd::prelude::*;

verus! {

/// The pool's state and its deposit records. The record of slot `s` stands
/// at index `s - 1`.
#[derive(Debug)]
pub struct Ledger {
    pub main_state: MainState,
    pub user_deposits: Vec<UserDeposit>,
}

/// The principal that the records hold together.
pub open spec fn total_amount(records: Seq<UserDeposit>) -> nat
    decreases records.len(),
{
    if records.len() == 0 {
        0
    } else {
        total_amount(records.drop_last()) + records.last().amount as nat
    }
}

/// Whether one of the records belongs to `owner`.
pub open spec fn has_owner(records: Seq<UserDeposit>, owner: Identity) -> bool {
    exists|i: int| 0 <= i < records.len() && (#[trigger] records[i]).owner == owner
}

/// Whether `after` holds the records of `before` but for the one at `index`.
pub open spec fn same_but_at(before: Seq<UserDeposit>, after: Seq<UserDeposit>, index: int) -> bool {
    &&& after.len() == before.len()
    &&& forall|j: int| 0 <= j < before.len() && j != index ==> #[trigger] after[j] == before[j]
}

/// Replacing one record changes the total by the difference of the two
/// amounts, and no record holds more than the total.
pub proof fn lemma_total_amount_update(records: Seq<UserDeposit>, index: int, record: UserDeposit)
    requires
        0 <= index < records.len(),
    ensures
        total_amount(records.update(index, record)) == total_amount(records)
            - records[index].amount + record.amount,
        records[index].amount <= total_amount(records),
    decreases records.len(),
{
    let updated = records.update(index, record);
    if index == records.len() - 1 {
        assert(updated.drop_last() =~= records.drop_last());
    } else {
        lemma_total_amount_update(records.drop_last(), index, record);
        assert(updated.drop_last() =~= records.drop_last().update(index, record));
    }
}

/// The first records hold no more than all of them.
pub proof fn lemma_total_amount_prefix(records: Seq<UserDeposit>, count: int)
    requires
        0 <= count <= records.len(),
    ensures
        total_amount(records.take(count)) <= total_amount(records),
    decreases records.len(),
{
    if count == records.len() {
        assert(records.take(count) =~= records);
    } else {
        lemma_total_amount_prefix(records.drop_last(), count);
        assert(records.drop_last().take(count) =~= records.take(count));
    }
}

impl Ledger {
    /// The slots are dense and start at one, no owner holds two records,
    /// and the pool's total is the sum of the records' amounts.
    pub open spec fn wf(&self) -> bool {
        &&& self.main_state.current_slot == self.user_deposits@.len()
        &&& forall|i: int|
            0 <= i < self.user_deposits@.len() ==> (#[trigger] self.user_deposits@[i]).slot == i + 1
        &&& forall|i: int, j: int|
            0 <= i < j < self.user_deposits@.len() ==> (#[trigger] self.user_deposits@[i]).owner != (
            #[trigger] self.user_deposits@[j]).owner
        &&& self.main_state.total_deposit == total_amount(self.user_deposits@)
    }

    /// Whether the ledger has a record at `slot`.
    pub open spec fn has_slot(&self, slot: u64) -> bool {
        1 <= slot <= self.user_deposits@.len()
    }

    /// The record at `slot`.
    pub open spec fn record(&self, slot: u64) -> UserDeposit {
        self.user_deposits@[slot - 1]
    }

    /// A ledger without records around `main_state`, which must count no
    /// slot and no principal.
    pub fn new(main_state: MainState) -> (r: Option<Ledger>)
        ensures
            main_state.current_slot == 0 && main_state.total_deposit == 0 ==> (r matches Some(ledger)
                && ledger.wf() && ledger.main_state == main_state && ledger.user_deposits@.len()
                == 0),
            !(main_state.current_slot == 0 && main_state.total_deposit == 0) ==> r is None,
    {
        if main_state.current_slot != 0 || main_state.total_deposit != 0 {
            return None;
        }
        Some(Ledger { main_state, user_deposits: Vec::new() })
    }

    /// Whether the ledger is well formed.
    pub fn is_well_formed(&self) -> (b: bool)
        ensures
            b == self.wf(),
    {
        let count = self.user_deposits.len();
        if self.main_state.current_slot != count as u64 {
            return false;
        }
        let mut total: u64 = 0;
        let mut index: usize = 0;
        assert(self.user_deposits@.take(0) =~= Seq::<UserDeposit>::empty());
        while index < count
            invariant
                index <= count,
                count == self.user_deposits@.len(),
                count <= u64::MAX,
                forall|i: int| 0 <= i < index ==> (#[trigger] self.user_deposits@[i]).slot == i + 1,
                forall|i: int, j: int|
                    0 <= i < j < index ==> (#[trigger] self.user_deposits@[i]).owner != (
                    #[trigger] self.user_deposits@[j]).owner,
                total == total_amount(self.user_deposits@.take(index as int)),
            decreases count - index,
        {
            let user_deposit = self.user_deposits[index];
            if user_deposit.slot != index as u64 + 1 {
                return false;
            }
            let mut earlier: usize = 0;
            while earlier < index
                invariant
                    earlier <= index,
                    index < self.user_deposits@.len(),
                    user_deposit == self.user_deposits@[index as int],
                    forall|i: int|
                        0 <= i < earlier ==> (#[trigger] self.user_deposits@[i]).owner
                            != user_deposit.owner,
                decreases index - earlier,
            {
                if self.user_deposits[earlier].owner == user_deposit.owner {
                    return false;
                }
                earlier = earlier + 1;
            }
            proof {
                assert(self.user_deposits@.take(index + 1).drop_last() =~= self.user_deposits@.take(
                    index as int,
                ));
                lemma_total_amount_prefix(self.user_deposits@, index + 1);
            }
            total = match total.checked_add(user_deposit.amount) {
                Some(sum) => sum,
                None => {
                    return false;
                },
            };
            index = index + 1;
        }
        assert(self.user_deposits@.take(count as int) =~= self.user_deposits@);
        total == self.main_state.total_deposit
    }

    /// The slot of `owner`'s record, if they have one.
    pub fn reference(&self, owner: Identity) -> (r: Option<UserDepositReference>)
        requires
            self.wf(),
        ensures
            r is Some == has_owner(self.user_deposits@, owner),
            r matches Some(reference) ==> self.has_slot(reference.slot) && self.record(
                reference.slot,
            ).owner == owner,
    {
        let mut index: usize = 0;
        while index < self.user_deposits.len()
            invariant
                self.wf(),
                index <= self.user_deposits@.len(),
                forall|j: int| 0 <= j < index ==> (#[trigger] self.user_deposits@[j]).owner != owner,
            decreases self.user_deposits@.len() - index,
        {
            if self.user_deposits[index].owner == owner {
                return Some(UserDepositReference { slot: self.user_deposits[index].slot });
            }
            index = index + 1;
        }
        None
    }

    /// Opens a record for `owner` at the next slot and returns the slot.
    /// Fails with `DuplicateOwner` when the owner has a record, and with
    /// `Overflow` when no slot number is left; then nothing changes.
    pub fn open(&mut self, owner: Identity) -> (r: Result<u64, SolscatterError>)
        requires
            old(self).wf(),
        ensures
            final(self).wf(),
            has_owner(old(self).user_deposits@, owner) ==> r == Err::<u64, SolscatterError>(
                SolscatterError::DuplicateOwner,
            ),
            !has_owner(old(self).user_deposits@, owner) && old(self).main_state.current_slot
                == u64::MAX ==> r == Err::<u64, SolscatterError>(SolscatterError::Overflow),
            r is Err ==> *final(self) == *old(self),
            !has_owner(old(self).user_deposits@, owner) && old(self).main_state.current_slot
                < u64::MAX ==> ({
                &&& r == Ok::<u64, SolscatterError>((old(self).main_state.current_slot + 1) as u64)
                &&& final(self).main_state == old(self).main_state.with_current_slot(
                    old(self).main_state.current_slot + 1,
                )
                &&& final(self).user_deposits@.len() == old(self).user_deposits@.len() + 1
                &&& final(self).user_deposits@.drop_last() == old(self).user_deposits@
                &&& opened(final(self).user_deposits@.last(), old(self).main_state.next_slot(), owner)
            }),
    {
        if self.reference(owner).is_some() {
            return Err(SolscatterError::DuplicateOwner);
        }
        let mut main_state = self.main_state;
        match crate::instructions::deposit_initialize::handler(&mut main_state, owner) {
            Err(e) => Err(e),
            Ok((user_deposit, reference)) => {
                self.main_state = main_state;
                self.user_deposits.push(user_deposit);
                assert(self.user_deposits@.drop_last() =~= old(self).user_deposits@);
                Ok(reference.slot)
            },
        }
    }

    /// Deposits `amount` into the record at `slot` at `now`. A deposit of
    /// nothing changes nothing. Fails with `UnknownSlot` when the ledger
    /// has no such slot, and with what refuses the deposit; then nothing
    /// changes.
    pub fn deposit(&mut self, slot: u64, amount: u64, now: i64) -> (r: Result<(), SolscatterError>)
        requires
            old(self).wf(),
        ensures
            final(self).wf(),
            !old(self).has_slot(slot) ==> r == Err::<(), SolscatterError>(
                SolscatterError::UnknownSlot,
            ),
            r is Err ==> *final(self) == *old(self),
            old(self).has_slot(slot) && amount == 0 ==> r is Ok && *final(self) == *old(self),
            old(self).has_slot(slot) && amount != 0 ==> match deposit_outcome(
                old(self).main_state,
                old(self).record(slot),
                amount,
                now,
            ) {
                Ok(rate) => ({
                    &&& r is Ok
                    &&& same_but_at(old(self).user_deposits@, final(self).user_deposits@, slot - 1)
                    &&& deposited(old(self).record(slot), final(self).record(slot), amount, now, rate)
                    &&& final(self).main_state == old(self).main_state.with_total_deposit(
                        old(self).main_state.total_deposit + amount,
                    )
                }),
                Err(e) => r == Err::<(), SolscatterError>(e),
            },
    {
        if slot == 0 || slot > self.user_deposits.len() as u64 {
            return Err(SolscatterError::UnknownSlot);
        }
        if amount == 0 {
            return Ok(());
        }
        let index: usize = (slot - 1) as usize;
        let mut main_state = self.main_state;
        let mut user_deposit = self.user_deposits[index];
        match crate::instructions::deposit::update_state(
            &mut main_state,
            &mut user_deposit,
            amount,
            now,
        ) {
            Ok(()) => {},
            Err(e) => {
                return Err(e);
            },
        }
        proof {
            lemma_total_amount_update(self.user_deposits@, index as int, user_deposit);
        }
        self.main_state = main_state;
        self.user_deposits.set(index, user_deposit);
        Ok(())
    }

    /// Withdraws `amount` from the record at `slot` at `now` and returns
    /// what the owner receives and the penalty. Fails with `UnknownSlot`
    /// when the ledger has no such slot, and with what refuses the
    /// withdrawal; then nothing changes.
    pub fn withdraw(&mut self, slot: u64, amount: u64, now: i64) -> (r: Result<
        (u64, u64),
        SolscatterError,
    >)
        requires
            old(self).wf(),
        ensures
            final(self).wf(),
            !old(self).has_slot(slot) ==> r == Err::<(u64, u64), SolscatterError>(
                SolscatterError::UnknownSlot,
            ),
            r is Err ==> *final(self) == *old(self),
            old(self).has_slot(slot) ==> match withdraw_outcome(
                old(self).main_state,
                old(self).record(slot),
                amount,
                now,
            ) {
                Ok((rate, fee)) => ({
                    &&& r == Ok::<(u64, u64), SolscatterError>(((amount - fee) as u64, fee))
                    &&& same_but_at(old(self).user_deposits@, final(self).user_deposits@, slot - 1)
                    &&& withdrawn(old(self).record(slot), final(self).record(slot), amount, rate)
                    &&& final(self).main_state == old(self).main_state.with_total_deposit(
                        old(self).main_state.total_deposit - amount,
                    )
                }),
                Err(e) => r == Err::<(u64, u64), SolscatterError>(e),
            },
    {
        if slot == 0 || slot > self.user_deposits.len() as u64 {
            return Err(SolscatterError::UnknownSlot);
        }
        let index: usize = (slot - 1) as usize;
        let mut main_state = self.main_state;
        let mut user_deposit = self.user_deposits[index];
        let paid = match crate::instructions::withdraw::withdraw(
            &mut main_state,
            &mut user_deposit,
            amount,
            now,
        ) {
            Ok(paid) => paid,
            Err(e) => {
                return Err(e);
            },
        };
        proof {
            lemma_total_amount_update(self.user_deposits@, index as int, user_deposit);
        }
        self.main_state = main_state;
        self.user_deposits.set(index, user_deposit);
        Ok(paid)
    }

    /// Why the drawing step for `processing_slot` is refused, if it is.
    pub open spec fn drawing_error(
        &self,
        drawing_result: DrawingResult,
        processing_slot: u64,
    ) -> Option<SolscatterError> {
        if drawing_result.state != DrawingState::Processing {
            Some(SolscatterError::SessionNotProcessing)
        } else if processing_slot != drawing_result.last_processed_slot + 1 {
            Some(SolscatterError::OutOfOrderStep)
        } else if !self.has_slot(processing_slot) {
            Some(SolscatterError::LedgerExhaustedBeforeResolution)
        } else {
            step_error(self.main_state, drawing_result, self.record(processing_slot), processing_slot)
        }
    }

    /// Advances the drawing by the record at `processing_slot`, as it is
    /// now. A step past the last record fails with
    /// `LedgerExhaustedBeforeResolution`: the session is still processing
    /// and some reward will find no winner in this ledger. On an error
    /// nothing changes. The records are never changed.
    pub fn drawing(
        &mut self,
        drawing_result: &mut DrawingResult,
        processing_slot: u64,
        now: i64,
    ) -> (r: Result<(), SolscatterError>)
        requires
            old(self).wf(),
            old(drawing_result).wf(),
        ensures
            final(self).wf(),
            final(drawing_result).wf(),
            final(self).user_deposits == old(self).user_deposits,
            r is Ok ==> final(drawing_result).last_processed_slot == old(
                drawing_result
            ).last_processed_slot + 1,
            r is Ok ==> final(drawing_result).last_processed_slot <= final(
                self
            ).main_state.current_slot,
            r is Err ==> *final(drawing_result) == *old(drawing_result),
            r is Err ==> *final(self) == *old(self),
            match old(self).drawing_error(*old(drawing_result), processing_slot) {
                Some(e) => r == Err::<(), SolscatterError>(e),
                None => ({
                    &&& r is Ok
                    &&& stepped(
                        *old(drawing_result),
                        *final(drawing_result),
                        old(self).record(processing_slot),
                        now,
                    )
                    &&& final(self).main_state == if final(drawing_result).state
                        == DrawingState::Finished {
                        old(self).main_state.with_current_round(
                            old(self).main_state.current_round + 1,
                        )
                    } else {
                        old(self).main_state
                    }
                }),
            },
    {
        match drawing_result.state {
            DrawingState::Processing => {},
            DrawingState::Finished => {
                return Err(SolscatterError::SessionNotProcessing);
            },
        }
        if drawing_result.last_processed_slot == u64::MAX || processing_slot
            != drawing_result.last_processed_slot + 1 {
            return Err(SolscatterError::OutOfOrderStep);
        }
        if processing_slot > self.user_deposits.len() as u64 {
            return Err(SolscatterError::LedgerExhaustedBeforeResolution);
        }
        let index: usize = (processing_slot - 1) as usize;
        let user_deposit = self.user_deposits[index];
        let mut main_state = self.main_state;
        let r = crate::instructions::drawing::handler(
            &mut main_state,
            drawing_result,
            &user_deposit,
            processing_slot,
            now,
        );
        self.main_state = main_state;
        r
    }
}

} // verus!
