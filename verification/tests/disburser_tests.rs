use drip::disburser::{
    cancel_pending_payout, execute_request_payout, normalize_duration_to_expiration,
    on_payout_timeout, on_price_callback, validate_withdrawal_ttl, BlockInfo, Config,
    ContractError, PendingPayout, WithdrawalTtl,
};
use drip::expiration::{Duration, DurationBounds, DurationLimit, Expiration};

fn seed_config() -> Config {
    Config {
        settlement_denom: "SETTLE".to_string(),
        quote_denom: "QUOTE".to_string(),
        quote_cap: 0,
        price_feeder_addr: "oracle".to_string(),
        payout_duration_bounds: DurationBounds {
            default: DurationLimit { blocks: 10, seconds: 30 },
            min: Some(DurationLimit { blocks: 5, seconds: 10 }),
            max: Some(DurationLimit { blocks: 60, seconds: 300 }),
        },
    }
}

const MOCK_TIME_NANOS: u64 = 1_571_797_419_879_305_533;

#[test]
fn request_payout_happy_blocks() {
    let cfg = seed_config();
    let env = BlockInfo { height: 100, time_nanos: MOCK_TIME_NANOS };
    let mut pending: Option<PendingPayout> = None;

    let amount = Some(123u128);
    let duration = Some(Duration::Blocks(7));
    let replace = Some(false);

    let resp =
        execute_request_payout(&cfg, &env, &mut pending, amount, duration, replace, 0).expect("ok");

    assert_eq!(resp.oracle_addr, "oracle");
    assert_eq!(resp.request.base, "SETTLE");
    assert_eq!(resp.request.quote, "QUOTE");
    assert_eq!(resp.request.expiration, Expiration::AtHeight(107));
    assert!(resp.request.valid_from.is_none());
    assert!(resp.request.sequence.is_none());

    let p = pending.expect("pending");
    assert_eq!(p.amount_in_quote, 123);
    assert_eq!(p.expires_at, Expiration::AtHeight(107));
}

#[test]
fn request_payout_happy_seconds() {
    let cfg = seed_config();
    let time = MOCK_TIME_NANOS + 1000 * 1_000_000_000;
    let env = BlockInfo { height: 12345, time_nanos: time };
    let mut pending: Option<PendingPayout> = None;

    let resp = execute_request_payout(
        &cfg,
        &env,
        &mut pending,
        Some(1u128),
        Some(Duration::Seconds(20)),
        None,
        0,
    )
    .unwrap();

    assert_eq!(
        resp.request.expiration,
        Expiration::AtTime(time + 20 * 1_000_000_000)
    );
}

#[test]
fn request_payout_reject_when_pending_and_no_replace() {
    let cfg = seed_config();
    let env = BlockInfo { height: 12345, time_nanos: MOCK_TIME_NANOS };
    let mut pending = Some(PendingPayout {
        amount_in_quote: 5,
        expires_at: Expiration::AtHeight(999),
    });

    let err = execute_request_payout(
        &cfg,
        &env,
        &mut pending,
        Some(7u128),
        Some(Duration::Blocks(6)),
        Some(false), // replace_pending
        0,
    )
    .unwrap_err();

    match err {
        ContractError::PendingAlreadyExists => {}
        other => panic!("unexpected error: {other:?}"),
    }
}

#[test]
fn normalize_duration_respects_bounds() {
    let cfg = seed_config();
    let env = BlockInfo { height: 12345, time_nanos: MOCK_TIME_NANOS };

    // lower than min
    let err = normalize_duration_to_expiration(
        &env,
        &cfg.payout_duration_bounds,
        Some(Duration::Blocks(4)),
    )
    .unwrap_err();
    assert!(err.message().contains("duration.blocks < min"));

    // bigger than max
    let err = normalize_duration_to_expiration(
        &env,
        &cfg.payout_duration_bounds,
        Some(Duration::Blocks(100)),
    )
    .unwrap_err();
    assert!(err.message().contains("duration.blocks > max"));

    // in bounds
    let ok = normalize_duration_to_expiration(
        &env,
        &cfg.payout_duration_bounds,
        Some(Duration::Blocks(10)),
    )
    .unwrap();
    assert_eq!(ok, Expiration::AtHeight(env.height + 10));
}

#[test]
fn request_payout_overwrites_when_replace_is_true() {
    let cfg = seed_config();
    let env = BlockInfo { height: 100, time_nanos: MOCK_TIME_NANOS };
    let mut pending = Some(PendingPayout {
        amount_in_quote: 5,
        expires_at: Expiration::AtHeight(999),
    });

    let resp = execute_request_payout(
        &cfg,
        &env,
        &mut pending,
        Some(77u128),
        Some(Duration::Blocks(7)),
        Some(true),
        0,
    )
    .expect("ok");

    assert_eq!(resp.request.expiration, Expiration::AtHeight(107));
    let p = pending.expect("pending");
    assert_eq!(p.amount_in_quote, 77);
    assert_eq!(p.expires_at, Expiration::AtHeight(107));
}

#[test]
fn request_payout_rejects_zero_amount() {
    let cfg = seed_config();
    let env = BlockInfo { height: 100, time_nanos: MOCK_TIME_NANOS };
    let mut pending: Option<PendingPayout> = None;

    let err = execute_request_payout(
        &cfg,
        &env,
        &mut pending,
        Some(0u128),
        Some(Duration::Blocks(7)),
        None,
        0,
    )
    .unwrap_err();
    assert_eq!(err, ContractError::InvalidAmount);
    assert!(pending.is_none());
}

#[test]
fn request_payout_resolves_amount_from_balance_and_cap() {
    let mut cfg = seed_config();
    cfg.quote_cap = 50;
    let env = BlockInfo { height: 100, time_nanos: MOCK_TIME_NANOS };

    let mut pending: Option<PendingPayout> = None;
    execute_request_payout(&cfg, &env, &mut pending, None, Some(Duration::Blocks(7)), None, 30)
        .expect("ok");
    assert_eq!(pending.unwrap().amount_in_quote, 30);

    let mut pending: Option<PendingPayout> = None;
    execute_request_payout(&cfg, &env, &mut pending, None, Some(Duration::Blocks(7)), None, 80)
        .expect("ok");
    assert_eq!(pending.unwrap().amount_in_quote, 50);
}

#[test]
fn seconds_below_min_is_rejected() {
    let cfg = seed_config();
    let env = BlockInfo { height: 100, time_nanos: MOCK_TIME_NANOS };
    let err = normalize_duration_to_expiration(
        &env,
        &cfg.payout_duration_bounds,
        Some(Duration::Seconds(5)),
    )
    .unwrap_err();
    assert!(err.message().contains("duration.seconds < min"));

    let ok = normalize_duration_to_expiration(
        &env,
        &cfg.payout_duration_bounds,
        Some(Duration::Seconds(20)),
    )
    .unwrap();
    assert_eq!(ok, Expiration::AtTime(MOCK_TIME_NANOS + 20 * 1_000_000_000));
}

#[test]
fn default_duration_prefers_blocks_when_positive() {
    let cfg = seed_config();
    let env = BlockInfo { height: 100, time_nanos: MOCK_TIME_NANOS };
    let ok = normalize_duration_to_expiration(&env, &cfg.payout_duration_bounds, None).unwrap();
    assert_eq!(ok, Expiration::AtHeight(110));

    let mut bounds = cfg.payout_duration_bounds;
    bounds.default = DurationLimit { blocks: 0, seconds: 30 };
    let ok = normalize_duration_to_expiration(&env, &bounds, None).unwrap();
    assert_eq!(ok, Expiration::AtTime(MOCK_TIME_NANOS + 30 * 1_000_000_000));
}

#[test]
fn callbacks_and_timeouts_clear_pending() {
    let mut pending = Some(PendingPayout {
        amount_in_quote: 9,
        expires_at: Expiration::AtHeight(42),
    });
    let cleared = on_price_callback(&mut pending, 1_500_000_000_000_000_000, 3);
    assert_eq!(cleared.unwrap().amount_in_quote, 9);
    assert!(pending.is_none());

    let mut pending = Some(PendingPayout {
        amount_in_quote: 9,
        expires_at: Expiration::AtHeight(42),
    });
    let cleared = on_payout_timeout(&mut pending, 3);
    assert_eq!(cleared.unwrap().amount_in_quote, 9);
    assert!(pending.is_none());
}

#[test]
fn cancel_pending_payout_rules() {
    let mut pending: Option<PendingPayout> = None;
    assert_eq!(
        cancel_pending_payout(&mut pending, None).unwrap_err(),
        ContractError::NoPendingPayout
    );

    let mut pending = Some(PendingPayout {
        amount_in_quote: 9,
        expires_at: Expiration::AtHeight(42),
    });
    assert_eq!(
        cancel_pending_payout(&mut pending, Some(1)).unwrap_err(),
        ContractError::SequenceMismatch
    );
    assert!(pending.is_some());

    let cleared = cancel_pending_payout(&mut pending, None).unwrap();
    assert_eq!(cleared.amount_in_quote, 9);
    assert!(pending.is_none());
}

#[test]
fn withdrawal_ttl_validation() {
    assert!(validate_withdrawal_ttl(&WithdrawalTtl { default_sec: 10, max_sec: 60 }).is_ok());
    assert_eq!(
        validate_withdrawal_ttl(&WithdrawalTtl { default_sec: 0, max_sec: 60 }).unwrap_err(),
        ContractError::InvalidTtl { default_sec: 0, max_sec: 60 }
    );
    assert_eq!(
        validate_withdrawal_ttl(&WithdrawalTtl { default_sec: 90, max_sec: 60 }).unwrap_err(),
        ContractError::InvalidTtl { default_sec: 90, max_sec: 60 }
    );
}
