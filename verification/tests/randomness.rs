use solscatter::error::SolscatterError;
use solscatter::identity::Identity;
use solscatter::instructions::callback_request_randomness;
use solscatter::instructions::initialize_vrf;

fn key(n: u128) -> Identity {
    Identity { hi: 0, lo: n }
}

fn buffer(first: u128, second: u128) -> [u8; 32] {
    let mut bytes = [0u8; 32];
    bytes[..16].copy_from_slice(&first.to_le_bytes());
    bytes[16..].copy_from_slice(&second.to_le_bytes());
    bytes
}

#[test]
fn randomness_state_starts_blank() {
    let state = initialize_vrf::handler(key(1), key(2));
    assert_eq!(state.vrf, key(1));
    assert_eq!(state.authority, key(2));
    assert_eq!(state.max_result, u64::MAX);
    assert_eq!(state.result_buffer, [0u8; 32]);
    assert_eq!(state.result, 0);
    assert_eq!(state.last_timestamp, 0);
}

#[test]
fn blank_and_repeated_buffers_are_ignored() {
    let mut state = initialize_vrf::handler(key(1), key(2));
    assert_eq!(
        callback_request_randomness::handler(&mut state, [0u8; 32], 50),
        Ok(false)
    );
    assert_eq!(state.last_timestamp, 0);
    let bytes = buffer(77, 5);
    assert_eq!(
        callback_request_randomness::handler(&mut state, bytes, 60),
        Ok(true)
    );
    assert_eq!(state.result, 77);
    assert_eq!(state.result_buffer, bytes);
    assert_eq!(state.last_timestamp, 60);
    assert_eq!(
        callback_request_randomness::handler(&mut state, bytes, 70),
        Ok(false)
    );
    assert_eq!(state.last_timestamp, 60);
}

#[test]
fn random_value_is_the_first_word_below_the_bound() {
    let mut state = initialize_vrf::handler(key(1), key(2));
    state.max_result = 1_000;
    let first = 0x0102_0304_0506_0708_090a_0b0c_0d0e_0f10u128;
    assert_eq!(
        callback_request_randomness::handler(&mut state, buffer(first, u128::MAX), 60),
        Ok(true)
    );
    assert_eq!(state.result, first % 1_000);
    assert_eq!(state.result_buffer, buffer(first, u128::MAX));

    state.max_result = u64::MAX;
    assert_eq!(
        callback_request_randomness::handler(&mut state, buffer(u128::MAX - 1, 0), 61),
        Ok(true)
    );
    assert_eq!(state.result, u64::MAX as u128 - 1);
    assert_eq!(state.last_timestamp, 61);

    // only the second word is set: the value is zero but the buffer is not
    assert_eq!(
        callback_request_randomness::handler(&mut state, buffer(0, 9), 62),
        Ok(true)
    );
    assert_eq!(state.result, 0);
    assert_eq!(state.result_buffer, buffer(0, 9));
    assert_eq!(state.last_timestamp, 62);
}

#[test]
fn an_equal_value_keeps_the_state() {
    let mut state = initialize_vrf::handler(key(1), key(2));
    state.max_result = 10;
    callback_request_randomness::handler(&mut state, buffer(13, 0), 60).unwrap();
    assert_eq!(state.result, 3);
    // another buffer with the same value is announced but not taken
    assert_eq!(
        callback_request_randomness::handler(&mut state, buffer(23, 0), 70),
        Ok(true)
    );
    assert_eq!(state.result, 3);
    assert_eq!(state.result_buffer, buffer(13, 0));
    assert_eq!(state.last_timestamp, 60);
}

#[test]
fn an_empty_range_is_refused() {
    let mut state = initialize_vrf::handler(key(1), key(2));
    state.max_result = 0;
    assert_eq!(
        callback_request_randomness::handler(&mut state, buffer(13, 0), 60),
        Err(SolscatterError::InvalidMaxResult)
    );
    assert_eq!(state.result, 0);
    assert_eq!(state.result_buffer, [0u8; 32]);
    assert_eq!(
        callback_request_randomness::handler(&mut state, [0u8; 32], 60),
        Ok(false)
    );
}
