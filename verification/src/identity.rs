//! The identity of an account holder.

use vstd::prelude::*;

verus! {

/// A 256-bit public key, held as its two 128-bit halves.
#[derive(Clone, Copy, Debug, PartialEq, Eq, Structural)]
pub struct Identity {
    pub hi: u128,
    pub lo: u128,
}

} // verus!
