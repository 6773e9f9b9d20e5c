use solscatter::error::SolscatterError;
use solscatter::fixed::Fixed;
use solscatter::identity::Identity;
use solscatter::instructions::deposit;
use solscatter::instructions::deposit_initialize;
use solscatter::instructions::initialize::initialize_main_state;
use solscatter::instructions::withdraw;
use solscatter::ledger::Ledger;
use solscatter::state::fee::Fee;
use solscatter::state::main_state::MainState;
use solscatter::state::user_deposit::UserDeposit;
use solscatter::state::user_deposit_reference::UserDepositReference;
use solscatter::state::yi_token::YiTokenFees;

const WAD: u128 = 1_000_000_000_000_000_000;

fn key(n: u128) -> Identity {
    Identity { hi: 0, lo: n }
}

fn new_ledger() -> Ledger {
    Ledger::new(initialize_main_state(key(99))).unwrap()
}

fn sum_of_amounts(ledger: &Ledger) -> u64 {
    ledger.user_deposits.iter().map(|d| d.amount).sum()
}

fn record(amount: u64, rate_bips: u64, last: Option<i64>) -> UserDeposit {
    UserDeposit {
        slot: 1,
        amount,
        penalty_fee: Fixed::from_scaled_val(rate_bips as u128 * WAD),
        owner: key(1),
        latest_deposit_timestamp: last,
    }
}

#[test]
fn initial_state() {
    let main_state = initialize_main_state(key(7));
    assert_eq!(main_state.current_slot, 0);
    assert_eq!(main_state.current_round, 1);
    assert_eq!(main_state.total_deposit, 0);
    assert_eq!(main_state.vrf_account_pubkey, key(7));
    assert_eq!(main_state.penalty_period, 604_800);
    assert_eq!(main_state.penalty_early_withdraw_fee, Fee { bips: 500 });
    assert_eq!(main_state.platform_fee, Fee { bips: 100 });
}

#[test]
fn ledger_starts_empty() {
    let ledger = new_ledger();
    assert!(ledger.user_deposits.is_empty());
    let mut counted = initialize_main_state(key(7));
    counted.current_slot = 1;
    assert!(Ledger::new(counted).is_none());
    let mut funded = initialize_main_state(key(7));
    funded.total_deposit = 1;
    assert!(Ledger::new(funded).is_none());
}

#[test]
fn open_allocates_dense_slots() {
    let mut ledger = new_ledger();
    assert_eq!(ledger.open(key(1)), Ok(1));
    assert_eq!(ledger.open(key(2)), Ok(2));
    assert_eq!(ledger.open(key(3)), Ok(3));
    assert_eq!(ledger.main_state.current_slot, 3);
    for (i, d) in ledger.user_deposits.iter().enumerate() {
        assert_eq!(d.slot, i as u64 + 1);
        assert_eq!(d.amount, 0);
        assert_eq!(d.latest_deposit_timestamp, None);
        assert_eq!(d.penalty_fee.to_scaled_val(), Some(0));
        assert_eq!(d.owner, key(i as u128 + 1));
    }
    assert_eq!(
        ledger.reference(key(2)),
        Some(UserDepositReference { slot: 2 })
    );
    assert_eq!(ledger.reference(key(4)), None);
}

#[test]
fn open_rejects_a_second_record_for_an_owner() {
    let mut ledger = new_ledger();
    assert_eq!(ledger.open(key(1)), Ok(1));
    assert_eq!(ledger.open(key(1)), Err(SolscatterError::DuplicateOwner));
    assert_eq!(ledger.main_state.current_slot, 1);
    assert_eq!(ledger.user_deposits.len(), 1);
}

#[test]
fn opening_reports_the_last_slot() {
    let mut main_state = initialize_main_state(key(7));
    main_state.current_slot = u64::MAX;
    assert!(matches!(
        deposit_initialize::handler(&mut main_state, key(1)),
        Err(SolscatterError::Overflow)
    ));
    assert_eq!(main_state.current_slot, u64::MAX);
    main_state.current_slot = 41;
    let (user_deposit, reference) = deposit_initialize::handler(&mut main_state, key(1)).unwrap();
    assert_eq!(main_state.current_slot, 42);
    assert_eq!(user_deposit.slot, 42);
    assert_eq!(user_deposit.owner, key(1));
    assert_eq!(reference, UserDepositReference { slot: 42 });
}

#[test]
fn deposit_to_unknown_slot() {
    let mut ledger = new_ledger();
    assert_eq!(ledger.deposit(1, 10, 100), Err(SolscatterError::UnknownSlot));
    ledger.open(key(1)).unwrap();
    assert_eq!(ledger.deposit(0, 10, 100), Err(SolscatterError::UnknownSlot));
    assert_eq!(ledger.deposit(2, 10, 100), Err(SolscatterError::UnknownSlot));
    assert_eq!(
        ledger.withdraw(2, 10, 100),
        Err(SolscatterError::UnknownSlot)
    );
    assert_eq!(ledger.main_state.total_deposit, 0);
}

#[test]
fn first_deposit_takes_the_base_rate() {
    let mut ledger = new_ledger();
    ledger.open(key(1)).unwrap();
    assert_eq!(ledger.deposit(1, 1_000, 100), Ok(()));
    let d = ledger.user_deposits[0];
    assert_eq!(d.amount, 1_000);
    assert_eq!(d.latest_deposit_timestamp, Some(100));
    assert_eq!(d.penalty_fee.to_scaled_val(), Some(500 * WAD));
    assert_eq!(ledger.main_state.total_deposit, 1_000);
}

#[test]
fn deposit_of_nothing_changes_nothing() {
    let mut ledger = new_ledger();
    ledger.open(key(1)).unwrap();
    ledger.deposit(1, 1_000, 100).unwrap();
    assert_eq!(ledger.deposit(1, 0, 5_000), Ok(()));
    let d = ledger.user_deposits[0];
    assert_eq!(d.amount, 1_000);
    assert_eq!(d.latest_deposit_timestamp, Some(100));
    assert_eq!(d.penalty_fee.to_scaled_val(), Some(500 * WAD));

    let mut main_state = initialize_main_state(key(9));
    let mut user_deposit = record(5, 300, Some(10));
    assert_eq!(
        deposit::handler(&mut main_state, &mut user_deposit, 0, 20),
        Ok(())
    );
    assert_eq!(user_deposit.amount, 5);
    assert_eq!(user_deposit.latest_deposit_timestamp, Some(10));
    assert_eq!(main_state.total_deposit, 0);
}

#[test]
fn second_deposit_blends_the_decayed_rate() {
    let mut ledger = new_ledger();
    ledger.open(key(1)).unwrap();
    ledger.deposit(1, 1_000, 100_000).unwrap();
    // half of seven days later the rate has decayed to 250 basis points;
    // 3_000 more at 500 gives (1_000 * 250 + 3_000 * 500) / 4_000 = 437.5
    assert_eq!(ledger.deposit(1, 3_000, 100_000 + 302_400), Ok(()));
    let d = ledger.user_deposits[0];
    assert_eq!(d.amount, 4_000);
    assert_eq!(d.latest_deposit_timestamp, Some(402_400));
    assert_eq!(d.penalty_fee.to_scaled_val(), Some(4_375 * WAD / 10));
    assert_eq!(ledger.main_state.total_deposit, 4_000);
}

#[test]
fn refresh_scales_the_rate_by_the_time_left() {
    let mut d = record(10, 500, Some(100));
    assert_eq!(d.refresh_penalty_fee(150, 100), Ok(()));
    assert_eq!(d.penalty_fee.to_scaled_val(), Some(250 * WAD));
    // a second refresh scales what is left
    assert_eq!(d.refresh_penalty_fee(175, 100), Ok(()));
    assert_eq!(d.penalty_fee.to_scaled_val(), Some(625 * WAD / 10));
    // after the period nothing is left
    assert_eq!(d.refresh_penalty_fee(200, 100), Ok(()));
    assert_eq!(d.penalty_fee.to_scaled_val(), Some(0));
    assert_eq!(d.latest_deposit_timestamp, Some(100));
    assert_eq!(d.amount, 10);
}

#[test]
fn refresh_rounds_down_at_eighteen_places() {
    let mut d = record(10, 1, Some(100));
    assert_eq!(d.refresh_penalty_fee(101, 3), Ok(()));
    assert_eq!(
        d.penalty_fee.to_scaled_val(),
        Some(666_666_666_666_666_666)
    );
}

#[test]
fn refresh_without_a_deposit_keeps_the_rate() {
    let mut d = record(0, 500, None);
    assert_eq!(d.refresh_penalty_fee(-5, 0), Ok(()));
    assert_eq!(d.penalty_fee.to_scaled_val(), Some(500 * WAD));
}

#[test]
fn refresh_errors() {
    let mut d = record(10, 500, Some(100));
    assert_eq!(
        d.refresh_penalty_fee(0, 100),
        Err(SolscatterError::InvalidTimestamp)
    );
    assert_eq!(
        d.refresh_penalty_fee(150, 0),
        Err(SolscatterError::InvalidPeriod)
    );
    assert_eq!(
        d.refresh_penalty_fee(150, -1),
        Err(SolscatterError::InvalidPeriod)
    );
    let mut unset = record(10, 500, Some(0));
    assert_eq!(
        unset.refresh_penalty_fee(150, 100),
        Err(SolscatterError::InvalidTimestamp)
    );
    let mut huge = UserDeposit {
        penalty_fee: Fixed {
            lo: 0,
            mid: 0,
            hi: u64::MAX,
        },
        ..record(10, 0, Some(100))
    };
    assert_eq!(
        huge.refresh_penalty_fee(101, 100),
        Err(SolscatterError::Overflow)
    );
    assert_eq!(d.penalty_fee.to_scaled_val(), Some(500 * WAD));
    assert_eq!(
        huge.penalty_fee,
        Fixed {
            lo: 0,
            mid: 0,
            hi: u64::MAX
        }
    );
}

#[test]
fn update_penalty_fee_is_a_weighted_average() {
    // no time has passed: 100 at 200 and 300 at 500 give 425
    let mut d = record(100, 200, Some(1_000));
    assert_eq!(
        d.update_penalty_fee(300, 1_000, 50, Fee { bips: 500 }),
        Ok(())
    );
    assert_eq!(d.penalty_fee.to_scaled_val(), Some(425 * WAD));
    assert_eq!(d.amount, 100);
    assert_eq!(d.latest_deposit_timestamp, Some(1_000));

    // adding nothing only refreshes
    let mut d = record(100, 200, Some(1_000));
    assert_eq!(
        d.update_penalty_fee(0, 1_025, 50, Fee { bips: 500 }),
        Ok(())
    );
    assert_eq!(d.penalty_fee.to_scaled_val(), Some(100 * WAD));

    // the sum of the principals must fit
    let mut d = record(u64::MAX, 200, Some(1_000));
    assert_eq!(
        d.update_penalty_fee(1, 1_025, 50, Fee { bips: 500 }),
        Err(SolscatterError::Overflow)
    );
    assert_eq!(d.penalty_fee.to_scaled_val(), Some(200 * WAD));
}

#[test]
fn deposit_overflow_changes_nothing() {
    let mut main_state = initialize_main_state(key(9));
    main_state.total_deposit = u64::MAX - 5;
    let mut user_deposit = record(5, 300, Some(10));
    assert_eq!(
        deposit::update_state(&mut main_state, &mut user_deposit, 6, 20),
        Err(SolscatterError::Overflow)
    );
    assert_eq!(main_state.total_deposit, u64::MAX - 5);
    assert_eq!(user_deposit.amount, 5);
    assert_eq!(user_deposit.latest_deposit_timestamp, Some(10));
    assert_eq!(user_deposit.penalty_fee.to_scaled_val(), Some(300 * WAD));

    let mut user_deposit = record(u64::MAX, 300, Some(10));
    let mut main_state = initialize_main_state(key(9));
    assert_eq!(
        deposit::update_state(&mut main_state, &mut user_deposit, 1, 20),
        Err(SolscatterError::Overflow)
    );
    assert_eq!(main_state.total_deposit, 0);
}

#[test]
fn withdraw_validation() {
    let never = record(10, 0, None);
    assert_eq!(
        withdraw::validate(&never, 11),
        Err(SolscatterError::InsufficientPrincipal)
    );
    assert_eq!(
        withdraw::validate(&never, 10),
        Err(SolscatterError::NeverDeposited)
    );
    let funded = record(10, 0, Some(5));
    assert_eq!(withdraw::validate(&funded, 10), Ok(()));
    assert_eq!(withdraw::validate(&funded, 0), Ok(()));
    assert_eq!(
        withdraw::validate(&funded, 11),
        Err(SolscatterError::InsufficientPrincipal)
    );
}

#[test]
fn withdraw_update_state() {
    let mut main_state = MainState {
        total_deposit: 100,
        ..initialize_main_state(key(9))
    };
    let mut user_deposit = record(40, 500, Some(5));
    assert_eq!(
        withdraw::update_state(&mut main_state, &mut user_deposit, 41),
        Err(SolscatterError::InsufficientPrincipal)
    );
    assert_eq!(
        withdraw::update_state(&mut main_state, &mut user_deposit, 15),
        Ok(())
    );
    assert_eq!(user_deposit.amount, 25);
    assert_eq!(main_state.total_deposit, 85);
    main_state.total_deposit = 3;
    assert_eq!(
        withdraw::update_state(&mut main_state, &mut user_deposit, 4),
        Err(SolscatterError::Overflow)
    );
    assert_eq!(user_deposit.amount, 25);
    assert_eq!(main_state.total_deposit, 3);
}

#[test]
fn withdraw_pays_the_amount_less_the_decayed_penalty() {
    let mut ledger = new_ledger();
    ledger.open(key(1)).unwrap();
    ledger.deposit(1, 1_000_000, 1_000).unwrap();
    // at once: the full 5%
    assert_eq!(ledger.withdraw(1, 200_000, 1_000), Ok((190_000, 10_000)));
    assert_eq!(ledger.user_deposits[0].amount, 800_000);
    assert_eq!(ledger.main_state.total_deposit, 800_000);
    // a quarter of the period later: 3.75%
    assert_eq!(
        ledger.withdraw(1, 400_000, 1_000 + 151_200),
        Ok((385_000, 15_000))
    );
    assert_eq!(
        ledger.user_deposits[0].penalty_fee.to_scaled_val(),
        Some(375 * WAD)
    );
    assert_eq!(ledger.user_deposits[0].latest_deposit_timestamp, Some(1_000));
    // after the period: free
    assert_eq!(
        ledger.withdraw(1, 400_000, 1_000 + 604_800),
        Ok((400_000, 0))
    );
    assert_eq!(ledger.user_deposits[0].amount, 0);
    assert_eq!(ledger.main_state.total_deposit, 0);
    // the record stays
    assert_eq!(ledger.user_deposits.len(), 1);
    assert_eq!(ledger.withdraw(1, 0, 1_000 + 604_800), Ok((0, 0)));
    assert_eq!(
        ledger.withdraw(1, 1, 1_000 + 604_800),
        Err(SolscatterError::InsufficientPrincipal)
    );
}

#[test]
fn withdraw_errors_change_nothing() {
    let mut ledger = new_ledger();
    ledger.open(key(1)).unwrap();
    assert_eq!(
        ledger.withdraw(1, 0, 1_000),
        Err(SolscatterError::NeverDeposited)
    );
    ledger.deposit(1, 1_000, 1_000).unwrap();
    assert_eq!(
        ledger.withdraw(1, 1_001, 1_000),
        Err(SolscatterError::InsufficientPrincipal)
    );
    assert_eq!(
        ledger.withdraw(1, 10, 0),
        Err(SolscatterError::InvalidTimestamp)
    );
    let d = ledger.user_deposits[0];
    assert_eq!(d.amount, 1_000);
    assert_eq!(d.penalty_fee.to_scaled_val(), Some(500 * WAD));
    assert_eq!(ledger.main_state.total_deposit, 1_000);

    // a penalty above the amount is refused
    let mut main_state = MainState {
        total_deposit: 100,
        penalty_early_withdraw_fee: Fee { bips: 20_000 },
        ..initialize_main_state(key(9))
    };
    let mut user_deposit = record(100, 500, Some(5));
    assert_eq!(
        withdraw::withdraw(&mut main_state, &mut user_deposit, 10, 5),
        Err(SolscatterError::Overflow)
    );
    // a period that is not positive is refused
    main_state.penalty_early_withdraw_fee = Fee { bips: 500 };
    main_state.penalty_period = 0;
    assert_eq!(
        withdraw::withdraw(&mut main_state, &mut user_deposit, 10, 5),
        Err(SolscatterError::InvalidPeriod)
    );
    assert_eq!(user_deposit.amount, 100);
    assert_eq!(main_state.total_deposit, 100);
}

#[test]
fn total_principal_is_the_sum_of_the_records() {
    let mut ledger = new_ledger();
    assert_eq!(ledger.main_state.total_deposit, sum_of_amounts(&ledger));
    for owner in 1..=4 {
        ledger.open(key(owner)).unwrap();
        assert_eq!(ledger.main_state.total_deposit, sum_of_amounts(&ledger));
    }
    let mut now = 1_000;
    let steps: [(u64, u64, bool); 12] = [
        (1, 500, true),
        (2, 70, true),
        (1, 200, false),
        (3, 1_000_000, true),
        (4, 1, true),
        (2, 71, false),
        (2, 70, false),
        (3, 999_999, false),
        (5, 10, true),
        (1, 300, true),
        (1, 600, false),
        (4, 1, false),
    ];
    for (slot, amount, is_deposit) in steps {
        now += 50_000;
        if is_deposit {
            let _ = ledger.deposit(slot, amount, now);
        } else {
            let _ = ledger.withdraw(slot, amount, now);
        }
        assert_eq!(ledger.main_state.total_deposit, sum_of_amounts(&ledger));
    }
    assert_eq!(ledger.main_state.total_deposit, 1);
    assert_eq!(ledger.user_deposits[0].amount, 0);
    assert_eq!(ledger.user_deposits[1].amount, 0);
    assert_eq!(ledger.user_deposits[2].amount, 1);
    assert_eq!(ledger.user_deposits[3].amount, 0);
}

#[test]
fn yield_tokens_for_a_withdrawal() {
    let free = YiTokenFees {
        stake_fee_millibps: 0,
        unstake_fee_millibps: 9,
    };
    assert_eq!(withdraw::calculate_yi_amount(&free, 0, 3_000, 1_000), Ok(0));
    assert_eq!(withdraw::calculate_yi_amount(&free, 250, 0, 0), Ok(250));
    assert_eq!(withdraw::calculate_yi_amount(&free, 250, 3_000, 1_000), Ok(83));
    assert_eq!(
        withdraw::calculate_yi_amount(&free, u64::MAX, 1, 2),
        Err(SolscatterError::Overflow)
    );
    let fees = YiTokenFees {
        stake_fee_millibps: 9_000_000,
        unstake_fee_millibps: 0,
    };
    assert_eq!(withdraw::calculate_yi_amount(&fees, 250, 3_000, 1_000), Ok(74));
}

#[test]
fn ledger_well_formedness_is_checked() {
    let mut ledger = new_ledger();
    assert!(ledger.is_well_formed());
    ledger.open(key(1)).unwrap();
    ledger.open(key(2)).unwrap();
    ledger.deposit(1, 40, 1_000).unwrap();
    ledger.deposit(2, 60, 1_000).unwrap();
    assert!(ledger.is_well_formed());

    ledger.main_state.total_deposit = 99;
    assert!(!ledger.is_well_formed());
    ledger.main_state.total_deposit = 100;
    assert!(ledger.is_well_formed());

    ledger.user_deposits[1].slot = 3;
    assert!(!ledger.is_well_formed());
    ledger.user_deposits[1].slot = 2;

    ledger.user_deposits[1].owner = key(1);
    assert!(!ledger.is_well_formed());
    ledger.user_deposits[1].owner = key(2);

    ledger.main_state.current_slot = 3;
    assert!(!ledger.is_well_formed());
    ledger.main_state.current_slot = 2;

    ledger.user_deposits[0].amount = u64::MAX;
    ledger.main_state.total_deposit = 59;
    assert!(!ledger.is_well_formed());
    ledger.user_deposits[0].amount = 40;
    ledger.main_state.total_deposit = 100;
    assert!(ledger.is_well_formed());
}
