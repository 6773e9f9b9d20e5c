//! Setting up the state that receives randomness.

use crate::identity::Identity;
use crate::state::vrf_client::VrfClientState;
use vstd::prelude::*;

verus! {

/// The state before any randomness was received: it belongs to
/// `authority`, listens to `vrf`, and keeps values below the largest `u64`.
pub fn handler(vrf: Identity, authority: Identity) -> (state: VrfClientState)
    ensures
        state.authority == authority,
        state.vrf == vrf,
        state.max_result == u64::MAX,
        state.result == 0,
        state.last_timestamp == 0,
        forall|i: int| 0 <= i < 32 ==> state.result_buffer@[i] == 0,
{
    VrfClientState {
        authority,
        max_result: u64::MAX,
        vrf,
        result_buffer: [0u8; 32],
        result: 0,
        last_timestamp: 0,
    }
}

} // verus!
