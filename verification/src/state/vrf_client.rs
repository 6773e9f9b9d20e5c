//! What the pool keeps of the randomness that it received last.

use crate::identity::Identity;
use vstd::prelude::*;

verus! {

/// The last random value that a randomness account delivered.
#[derive(Clone, Copy, Debug)]
pub struct VrfClientState {
    /// Who set the state up.
    pub authority: Identity,
    /// The bound below which `result` is kept.
    pub max_result: u64,
    /// The randomness account.
    pub vrf: Identity,
    /// The random bytes that were received last.
    pub result_buffer: [u8; 32],
    /// The random value that was derived from them.
    pub result: u128,
    /// When the value last changed.
    pub last_timestamp: i64,
}

} // verus!
