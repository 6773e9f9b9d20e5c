//! Lengths of time in seconds.

use vstd::prelude::*;

verus! {

pub const SECS_PER_DAY: i64 = 86_400;

} // verus!
