//! The link from a depositor to the ledger slot that holds their record.

use vstd::prelude::*;

verus! {

/// Where a depositor's record lies in the ledger.
#[derive(Clone, Copy, Debug, PartialEq, Eq, Structural)]
pub struct UserDepositReference {
    pub slot: u64,
}

} // verus!
