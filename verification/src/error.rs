use vstd::prelude::*;

verus! {

/// Everything that can go wrong in a ledger, drawing or fee operation.
#[derive(Clone, Copy, Debug, PartialEq, Eq, Structural)]
pub enum SolscatterError {
    /// No deposit record exists at the slot that was named.
    UnknownSlot,
    /// The owner already holds a ledger slot.
    DuplicateOwner,
    /// A sum, product or difference left the range of its type.
    Overflow,
    /// A withdrawal asked for more than the record holds.
    InsufficientPrincipal,
    /// A withdrawal from a record that never received a deposit.
    NeverDeposited,
    /// The number of rewards is outside `1..=10`, or the number of random
    /// thresholds differs from it.
    RewardCountMismatch,
    /// A drawing step on a session that is no longer processing.
    SessionNotProcessing,
    /// A drawing step for a slot other than the next one.
    OutOfOrderStep,
    /// Every ledger entry was examined and some reward is still unresolved.
    LedgerExhaustedBeforeResolution,
    /// A claim against a session whose drawing has not finished.
    DrawingIsNotFinished,
    /// A timestamp that must be positive was zero or negative.
    InvalidTimestamp,
    /// A ratio over a period was asked for and the period is not positive.
    InvalidPeriod,
    /// A random value is to be reduced to a range that is empty.
    InvalidMaxResult,
    /// The pool's position is worth exactly the principal: there is no
    /// yield to draw for.
    NoYield,
}

} // verus!
