//! Taking in the random bytes that a randomness account delivers.

use crate::error::SolscatterError;
use crate::state::vrf_client::VrfClientState;
use vstd::prelude::*;

verus! {

/// The number that `bytes` spell with the least significant byte first.
pub open spec fn le_value(bytes: Seq<u8>) -> nat
    decreases bytes.len(),
{
    if bytes.len() == 0 {
        0
    } else {
        bytes[0] as nat + 256 * le_value(bytes.drop_first())
    }
}

/// The random value that the buffer carries: its first sixteen bytes.
pub open spec fn first_word(result_buffer: Seq<u8>) -> nat {
    le_value(result_buffer.subrange(0, 16))
}

/// Whether every byte is zero.
pub open spec fn is_blank(result_buffer: Seq<u8>) -> bool {
    forall|i: int| 0 <= i < result_buffer.len() ==> result_buffer[i] == 0
}

/// 256 to the power `k`.
spec fn pow256(k: nat) -> nat
    decreases k,
{
    if k == 0 {
        1
    } else {
        256 * pow256((k - 1) as nat)
    }
}

proof fn lemma_pow256(k: nat)
    requires
        k <= 16,
    ensures
        pow256(k) <= 0x1_0000_0000_0000_0000_0000_0000_0000_0000,
    decreases 16 - k,
{
    if k == 16 {
        reveal_with_fuel(pow256, 17);
    } else {
        lemma_pow256(k + 1);
    }
}

fn blank(result_buffer: &[u8; 32]) -> (b: bool)
    ensures
        b == is_blank(result_buffer@),
{
    let mut i: usize = 0;
    while i < 32
        invariant
            i <= 32,
            forall|j: int| 0 <= j < i ==> result_buffer@[j] == 0,
        decreases 32 - i,
    {
        if result_buffer[i] != 0 {
            return false;
        }
        i = i + 1;
    }
    true
}

fn same(a: &[u8; 32], b: &[u8; 32]) -> (r: bool)
    ensures
        r == (a@ == b@),
{
    let mut i: usize = 0;
    while i < 32
        invariant
            i <= 32,
            forall|j: int| 0 <= j < i ==> a@[j] == b@[j],
        decreases 32 - i,
    {
        if a[i] != b[i] {
            return false;
        }
        i = i + 1;
    }
    assert(a@ =~= b@);
    true
}

fn leading_word(result_buffer: &[u8; 32]) -> (value: u128)
    ensures
        value == first_word(result_buffer@),
{
    let mut value: u128 = 0;
    let mut i: usize = 16;
    while i > 0
        invariant
            i <= 16,
            value == le_value(result_buffer@.subrange(i as int, 16)),
            value < pow256((16 - i) as nat),
        decreases i,
    {
        proof {
            lemma_pow256((16 - i + 1) as nat);
            assert(result_buffer@.subrange(i - 1, 16).drop_first() =~= result_buffer@.subrange(
                i as int,
                16,
            ));
        }
        i = i - 1;
        value = value * 256 + result_buffer[i] as u128;
    }
    value
}

/// What the state is to hold after `result_buffer` arrived at `now`, when
/// the buffer carries something new.
pub open spec fn received(
    before: VrfClientState,
    after: VrfClientState,
    result_buffer: Seq<u8>,
    now: i64,
) -> bool {
    let result = first_word(result_buffer) % (before.max_result as nat);
    if before.result == result {
        after == before
    } else {
        &&& after.authority == before.authority
        &&& after.max_result == before.max_result
        &&& after.vrf == before.vrf
        &&& after.result_buffer@ == result_buffer
        &&& after.result == result
        &&& after.last_timestamp == now
    }
}

/// Takes in the random bytes `result_buffer` at `now` and says whether
/// their arrival is to be announced.
///
/// A buffer of zeros and the buffer that was received last are ignored.
/// Any other buffer is announced; its first sixteen bytes, least
/// significant first, are reduced below `max_result`, and where that value
/// differs from the one held, the state takes the value, the buffer and the
/// time. Fails with `InvalidMaxResult`, and changes nothing, when
/// `max_result` is zero.
pub fn handler(state: &mut VrfClientState, result_buffer: [u8; 32], now: i64) -> (r: Result<
    bool,
    SolscatterError,
>)
    ensures
        is_blank(result_buffer@) || result_buffer@ == old(state).result_buffer@ ==> r == Ok::<
            bool,
            SolscatterError,
        >(false) && *final(state) == *old(state),
        !is_blank(result_buffer@) && result_buffer@ != old(state).result_buffer@ && old(
            state,
        ).max_result == 0 ==> r == Err::<bool, SolscatterError>(SolscatterError::InvalidMaxResult)
            && *final(state) == *old(state),
        !is_blank(result_buffer@) && result_buffer@ != old(state).result_buffer@ && old(
            state,
        ).max_result != 0 ==> r == Ok::<bool, SolscatterError>(true) && received(
            *old(state),
            *final(state),
            result_buffer@,
            now,
        ),
{
    if blank(&result_buffer) {
        return Ok(false);
    }
    if same(&result_buffer, &state.result_buffer) {
        return Ok(false);
    }
    if state.max_result == 0 {
        return Err(SolscatterError::InvalidMaxResult);
    }
    let result = leading_word(&result_buffer) % (state.max_result as u128);
    if state.result != result {
        state.result = result;
        state.result_buffer = result_buffer;
        state.last_timestamp = now;
    }
    Ok(true)
}

} // verus!
