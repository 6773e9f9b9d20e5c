use solscatter::error::SolscatterError;
use solscatter::fixed::Fixed;
use solscatter::state::fee::Fee;

#[test]
fn calculate_fee_when_principle_amount_is_zero() {
    let five_percent_fee = Fee { bips: 500 }; // 5%
    match five_percent_fee.calculate_fee(0) {
        Ok(fee_amount) => {
            assert_eq!(fee_amount, 0);
        }
        Err(_) => {
            assert!(false);
        }
    };

    match five_percent_fee.calculate_fee_with_discount_peroid(0, 100, 100, 100) {
        Ok(fee_amount) => {
            assert_eq!(fee_amount, 0);
        }
        Err(_) => {
            assert!(false);
        }
    }
}

#[test]
fn calculate_fee() {
    let principle_amount = 1_000_000;
    let five_percent_fee = Fee { bips: 500 }; // 5%
    match five_percent_fee.calculate_fee(principle_amount) {
        Ok(fee_amount) => {
            assert_eq!(fee_amount, 50_000);
        }
        Err(_) => {
            assert!(false);
        }
    }
}

#[test]
fn calculate_fee_20_percent_period() {
    let principle_amount = 1_000_000;
    let discount_period = 5;
    let start_calculate_timestamp = 10;
    let current_timestamp = 11;
    let five_percent_fee = Fee { bips: 500 }; // 5%
    match five_percent_fee.calculate_fee_with_discount_peroid(
        principle_amount,
        discount_period,
        start_calculate_timestamp,
        current_timestamp,
    ) {
        Ok(fee_amount) => {
            assert_eq!(fee_amount, 40_000);
        }
        Err(_) => {
            assert!(false);
        }
    }
}

#[test]
fn calculate_fee_27_percent_period() {
    let principle_amount = 1_000_000;
    let discount_period = 100;
    let start_calculate_timestamp = 100;
    let current_timestamp = 127;
    let five_percent_fee = Fee { bips: 500 }; // 5%
    match five_percent_fee.calculate_fee_with_discount_peroid(
        principle_amount,
        discount_period,
        start_calculate_timestamp,
        current_timestamp,
    ) {
        Ok(fee_amount) => {
            assert_eq!(fee_amount, 36_500)
        }
        Err(_) => {
            assert!(false)
        }
    }
}

#[test]
fn calculate_fee_40_percent_period() {
    let principle_amount = 1_111_111;
    let discount_period = 5;
    let start_calculate_timestamp = 10;
    let current_timestamp = 12;
    let five_percent_fee = Fee { bips: 500 }; // 5%
    match five_percent_fee.calculate_fee_with_discount_peroid(
        principle_amount,
        discount_period,
        start_calculate_timestamp,
        current_timestamp,
    ) {
        Ok(fee_amount) => {
            assert_eq!(fee_amount, 33_334);
        }
        Err(_) => {
            assert!(false);
        }
    }
}

#[test]
fn flat_fee_rounds_up() {
    // 1_111_111 * 5% = 55_555.55
    assert_eq!(Fee { bips: 500 }.calculate_fee(1_111_111), Ok(55_556));
    // one unit at one basis point still costs one unit
    assert_eq!(Fee { bips: 1 }.calculate_fee(1), Ok(1));
    assert_eq!(Fee { bips: 10_000 }.calculate_fee(u64::MAX), Ok(u64::MAX));
}

#[test]
fn flat_fee_of_zero_rate_is_zero() {
    let free = Fee { bips: 0 };
    assert_eq!(free.calculate_fee(0), Ok(0));
    assert_eq!(free.calculate_fee(1), Ok(0));
    assert_eq!(free.calculate_fee(987_654_321), Ok(0));
    assert_eq!(free.calculate_fee(u64::MAX), Ok(0));
}

#[test]
fn flat_fee_overflows_above_the_whole() {
    // 655.35% of the largest principal does not fit
    assert_eq!(
        Fee { bips: 65_535 }.calculate_fee(u64::MAX),
        Err(SolscatterError::Overflow)
    );
    assert_eq!(Fee { bips: 20_000 }.calculate_fee(100), Ok(200));
}

#[test]
fn decayed_fee_at_start_is_flat_fee() {
    let fee = Fee { bips: 750 };
    for t in [1i64, 10, 1_650_000_000, i64::MAX] {
        for period in [0u64, 1, 604_800, u64::MAX] {
            assert_eq!(
                fee.calculate_fee_with_discount_peroid(123_456_789, period, t, t),
                fee.calculate_fee(123_456_789)
            );
        }
    }
    assert_eq!(fee.calculate_fee(123_456_789), Ok(9_259_260));
}

#[test]
fn decayed_fee_at_end_of_period_is_zero() {
    let fee = Fee { bips: 750 };
    assert_eq!(
        fee.calculate_fee_with_discount_peroid(123_456_789, 604_800, 1_000, 605_800),
        Ok(0)
    );
    assert_eq!(fee.calculate_fee_with_discount_peroid(5, 1, 7, 8), Ok(0));
    // and stays zero afterwards
    assert_eq!(
        fee.calculate_fee_with_discount_peroid(123_456_789, 604_800, 1_000, 9_000_000),
        Ok(0)
    );
}

#[test]
fn decayed_fee_halfway() {
    // half of 5% of 2_000_001 is 50_000.025
    assert_eq!(
        Fee { bips: 500 }.calculate_fee_with_discount_peroid(2_000_001, 100, 1_000, 1_050),
        Ok(50_001)
    );
    // a third of the period is left: the ratio is cut at eighteen places
    assert_eq!(
        Fee { bips: 300 }.calculate_fee_with_discount_peroid(1_000_000, 3, 10, 12),
        Ok(10_000)
    );
}

#[test]
fn decayed_fee_before_start_exceeds_flat_fee() {
    // twice the period is left
    assert_eq!(
        Fee { bips: 500 }.calculate_fee_with_discount_peroid(1_000_000, 10, 20, 10),
        Ok(100_000)
    );
}

#[test]
fn decayed_fee_rejects_timestamps_that_are_not_positive() {
    let fee = Fee { bips: 500 };
    assert_eq!(
        fee.calculate_fee_with_discount_peroid(1, 10, 0, 5),
        Err(SolscatterError::InvalidTimestamp)
    );
    assert_eq!(
        fee.calculate_fee_with_discount_peroid(1, 10, 5, 0),
        Err(SolscatterError::InvalidTimestamp)
    );
    assert_eq!(
        fee.calculate_fee_with_discount_peroid(1, 10, -5, -5),
        Err(SolscatterError::InvalidTimestamp)
    );
    // a zero principal is free before the timestamps are looked at
    assert_eq!(fee.calculate_fee_with_discount_peroid(0, 10, -5, 0), Ok(0));
}

#[test]
fn decayed_fee_rejects_an_empty_period_that_has_not_begun() {
    assert_eq!(
        Fee { bips: 500 }.calculate_fee_with_discount_peroid(1, 0, 10, 5),
        Err(SolscatterError::InvalidPeriod)
    );
    // once it has begun it is over
    assert_eq!(
        Fee { bips: 500 }.calculate_fee_with_discount_peroid(1, 0, 10, 11),
        Ok(0)
    );
}

#[test]
fn decayed_fee_reports_overflow() {
    let fee = Fee { bips: 500 };
    // the end of the period is not a timestamp
    assert_eq!(
        fee.calculate_fee_with_discount_peroid(1, u64::MAX, 10, 11),
        Err(SolscatterError::Overflow)
    );
    assert_eq!(
        fee.calculate_fee_with_discount_peroid(1, 10, i64::MAX, 11),
        Err(SolscatterError::Overflow)
    );
    // the weighted principal leaves 192 bits
    assert_eq!(
        fee.calculate_fee_with_discount_peroid(u64::MAX, 100, 1_000, 1_001),
        Err(SolscatterError::Overflow)
    );
    // within the documented bound it never does
    assert_eq!(
        fee.calculate_fee_with_discount_peroid(12_000_000_000_000_000_000, 100, 1_000, 1_001),
        Ok(594_000_000_000_000_000)
    );
}

#[test]
fn fixed_point_values() {
    assert_eq!(Fixed::zero().to_scaled_val(), Some(0));
    assert_eq!(
        Fixed::from_scaled_val(3_000_000_000_000_000_000),
        Fixed {
            lo: 3_000_000_000_000_000_000,
            mid: 0,
            hi: 0
        }
    );
    assert_eq!(
        Fixed::from_scaled_val(u128::MAX),
        Fixed {
            lo: u64::MAX,
            mid: u64::MAX,
            hi: 0
        }
    );
    assert_eq!(
        Fixed::from_scaled_val((7 << 64) + 9).to_scaled_val(),
        Some((7 << 64) + 9)
    );
    assert_eq!(
        Fixed { lo: 5, mid: 2, hi: 0 }.to_scaled_val(),
        Some((2u128 << 64) + 5)
    );
    assert_eq!(Fixed { lo: 0, mid: 0, hi: 1 }.to_scaled_val(), None);
}

#[test]
fn decayed_fee_is_within_one_of_the_exact_ratio() {
    // 300_794_785_946_389_999 * 99.99% * 1/7 = 42_966_386_638_256_480.000...014:
    // the ratio 1/7 is cut at eighteen places, which loses the tail
    assert_eq!(
        Fee { bips: 9_999 }.calculate_fee_with_discount_peroid(
            300_794_785_946_389_999,
            7,
            1_000,
            1_006
        ),
        Ok(42_966_386_638_256_480)
    );
    assert_eq!(
        Fee { bips: 777 }.calculate_fee_with_discount_peroid(
            571_376_463_253_975_103,
            86_400,
            1_000,
            1_000 + 86_400 - 72_189
        ),
        Ok(37_093_742_138_933_587)
    );
    // where the exact ratio has no tail the fee is exact
    assert_eq!(
        Fee { bips: 250 }.calculate_fee_with_discount_peroid(8_000, 4, 1_000, 1_003),
        Ok(50)
    );
}
