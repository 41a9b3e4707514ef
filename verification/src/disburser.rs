//! The payout coordinator: holds at most one pending payout, turns payout
//! requests into price requests for the configured price adapter, and
//! resolves or clears its pending state on callback, timeout or cancel.

use crate::expiration::{Duration, DurationBounds, Expiration, NANOS_PER_SECOND};
use vstd::prelude::*;
use vstd::string::StringExecFns;

verus! {

/// Everything the payout coordinator can reject.
#[derive(Clone, Copy, Debug, PartialEq, Eq, Structural)]
pub enum ContractError {
    Unauthorized,
    /// The withdrawal TTL bounds are unusable: the default must be positive
    /// and no larger than the maximum.
    InvalidTtl { default_sec: u64, max_sec: u64 },
    /// A requested amount must be positive.
    InvalidAmount,
    /// The requested payout duration is outside the configured bounds.
    InvalidDuration { reason: DurationError },
    /// A pending payout already exists and overwriting was not requested.
    PendingAlreadyExists,
    /// There is no pending payout to cancel.
    NoPendingPayout,
    /// The cancel named a request sequence, but no pending payout can match
    /// one: payout price requests are issued without a sequence number.
    SequenceMismatch,
}

/// How a requested duration violated the configured bounds.
#[derive(Clone, Copy, Debug, PartialEq, Eq, Structural)]
pub enum DurationError {
    BlocksBelowMin,
    BlocksAboveMax,
    SecondsBelowMin,
    SecondsAboveMax,
}

impl DurationError {
    /// The reason as text.
    pub fn message(&self) -> (r: String)
        ensures
            match self {
                DurationError::BlocksBelowMin => r@ == "duration.blocks < min"@,
                DurationError::BlocksAboveMax => r@ == "duration.blocks > max"@,
                DurationError::SecondsBelowMin => r@ == "duration.seconds < min"@,
                DurationError::SecondsAboveMax => r@ == "duration.seconds > max"@,
            },
    {
        match self {
            DurationError::BlocksBelowMin => String::from_str("duration.blocks < min"),
            DurationError::BlocksAboveMax => String::from_str("duration.blocks > max"),
            DurationError::SecondsBelowMin => String::from_str("duration.seconds < min"),
            DurationError::SecondsAboveMax => String::from_str("duration.seconds > max"),
        }
    }
}

/// Withdrawal time-to-live bounds, in seconds.
#[derive(Clone, Copy, Debug, PartialEq, Eq, Structural)]
pub struct WithdrawalTtl {
    pub default_sec: u64,
    pub max_sec: u64,
}

/// Rejects unusable TTL bounds: the default must be positive and no larger
/// than the maximum.
pub fn validate_withdrawal_ttl(ttl: &WithdrawalTtl) -> (r: Result<(), ContractError>)
    ensures
        r is Ok <==> 0 < ttl.default_sec <= ttl.max_sec,
        r is Err ==> r == Err::<(), ContractError>(
            ContractError::InvalidTtl { default_sec: ttl.default_sec, max_sec: ttl.max_sec },
        ),
{
    if 0 < ttl.default_sec && ttl.default_sec <= ttl.max_sec {
        Ok(())
    } else {
        Err(ContractError::InvalidTtl { default_sec: ttl.default_sec, max_sec: ttl.max_sec })
    }
}

/// The block height and wall-clock time of the current invocation.
#[derive(Clone, Copy, Debug, PartialEq, Eq, Structural)]
pub struct BlockInfo {
    pub height: u64,
    /// Nanoseconds since the Unix epoch.
    pub time_nanos: u64,
}

/// The one optional pending payout. Created by a payout request, cleared by
/// a price callback, a timeout, or an explicit cancel; overwriting requires
/// an explicit replace flag.
#[derive(Clone, Copy, Debug, PartialEq, Eq, Structural)]
pub struct PendingPayout {
    pub amount_in_quote: u128,
    pub expires_at: Expiration,
}

/// The payout coordinator's configuration.
#[derive(Clone, Debug, PartialEq, Eq)]
pub struct Config {
    /// The denom of the settlement asset: the base of the price request.
    pub settlement_denom: String,
    /// The denom of the quote asset.
    pub quote_denom: String,
    /// The most that a payout may draw from the quote asset.
    pub quote_cap: u128,
    /// The price adapter that receives the price requests.
    pub price_feeder_addr: String,
    pub payout_duration_bounds: DurationBounds,
}

/// The mathematical value of a [`Config`].
pub struct ConfigV {
    pub settlement_denom: Seq<char>,
    pub quote_denom: Seq<char>,
    pub quote_cap: u128,
    pub price_feeder_addr: Seq<char>,
    pub payout_duration_bounds: DurationBounds,
}

impl View for Config {
    type V = ConfigV;

    open spec fn view(&self) -> ConfigV {
        ConfigV {
            settlement_denom: self.settlement_denom@,
            quote_denom: self.quote_denom@,
            quote_cap: self.quote_cap,
            price_feeder_addr: self.price_feeder_addr@,
            payout_duration_bounds: self.payout_duration_bounds,
        }
    }
}

/// The duration a request effectively asks for: what the caller gave, or
/// the configured default, preferring its block count when positive.
pub open spec fn effective_duration(bounds: DurationBounds, duration: Option<Duration>) -> Duration {
    match duration {
        Some(d) => d,
        None => {
            if bounds.default.blocks > 0 {
                Duration::Blocks(bounds.default.blocks)
            } else {
                Duration::Seconds(bounds.default.seconds)
            }
        },
    }
}

/// A block count is admissible under the bounds.
pub open spec fn blocks_in_bounds(bounds: DurationBounds, n: u64) -> bool {
    &&& !(bounds.min matches Some(m) && n < m.blocks)
    &&& !(bounds.max matches Some(m) && n > m.blocks)
}

/// A second count is admissible under the bounds.
pub open spec fn seconds_in_bounds(bounds: DurationBounds, s: u64) -> bool {
    &&& !(bounds.min matches Some(m) && s < m.seconds)
    &&& !(bounds.max matches Some(m) && s > m.seconds)
}

/// What normalizing a requested duration yields: the absolute deadline, or
/// the exact bound it violates. A block count below the minimum is reported
/// before one above the maximum, and likewise for seconds.
pub open spec fn normalize_duration_spec(
    height: u64,
    time_nanos: u64,
    bounds: DurationBounds,
    duration: Option<Duration>,
) -> Result<Expiration, DurationError> {
    match effective_duration(bounds, duration) {
        Duration::Blocks(n) => {
            if bounds.min matches Some(m) && n < m.blocks {
                Err(DurationError::BlocksBelowMin)
            } else if bounds.max matches Some(m) && n > m.blocks {
                Err(DurationError::BlocksAboveMax)
            } else {
                Ok(Expiration::AtHeight((height + n) as u64))
            }
        },
        Duration::Seconds(s) => {
            if bounds.min matches Some(m) && s < m.seconds {
                Err(DurationError::SecondsBelowMin)
            } else if bounds.max matches Some(m) && s > m.seconds {
                Err(DurationError::SecondsAboveMax)
            } else {
                Ok(Expiration::AtTime((time_nanos + s * (NANOS_PER_SECOND as int)) as u64))
            }
        },
    }
}

/// The normalized deadline does not pass the end of the representable
/// range; a deadline past it would not be a deadline at all.
pub open spec fn deadline_fits(
    height: u64,
    time_nanos: u64,
    bounds: DurationBounds,
    duration: Option<Duration>,
) -> bool {
    match effective_duration(bounds, duration) {
        Duration::Blocks(n) => blocks_in_bounds(bounds, n) ==> height + n <= u64::MAX,
        Duration::Seconds(s) => seconds_in_bounds(bounds, s) ==> time_nanos + s * (
        NANOS_PER_SECOND as int) <= u64::MAX,
    }
}

/// Resolves a caller-supplied duration, or the configured default, to an
/// absolute deadline, enforcing the configured bounds per unit.
pub fn normalize_duration_to_expiration(
    env: &BlockInfo,
    bounds: &DurationBounds,
    duration: Option<Duration>,
) -> (r: Result<Expiration, DurationError>)
    requires
        deadline_fits(env.height, env.time_nanos, *bounds, duration),
    ensures
        r == normalize_duration_spec(env.height, env.time_nanos, *bounds, duration),
{
    let d = match duration {
        Some(d) => d,
        None => {
            if bounds.default.blocks > 0 {
                Duration::Blocks(bounds.default.blocks)
            } else {
                Duration::Seconds(bounds.default.seconds)
            }
        },
    };
    match d {
        Duration::Blocks(n) => {
            match &bounds.min {
                Some(m) => {
                    if n < m.blocks {
                        return Err(DurationError::BlocksBelowMin);
                    }
                },
                None => {},
            }
            match &bounds.max {
                Some(m) => {
                    if n > m.blocks {
                        return Err(DurationError::BlocksAboveMax);
                    }
                },
                None => {},
            }
            Ok(Expiration::AtHeight(env.height + n))
        },
        Duration::Seconds(s) => {
            match &bounds.min {
                Some(m) => {
                    if s < m.seconds {
                        return Err(DurationError::SecondsBelowMin);
                    }
                },
                None => {},
            }
            match &bounds.max {
                Some(m) => {
                    if s > m.seconds {
                        return Err(DurationError::SecondsAboveMax);
                    }
                },
                None => {},
            }
            Ok(Expiration::AtTime(env.time_nanos + s * NANOS_PER_SECOND))
        },
    }
}

/// The amount a payout settles: the caller's amount when given, otherwise
/// everything available up to the configured cap.
pub open spec fn resolve_amount_spec(
    amount_in_quote: Option<u128>,
    available_balance: u128,
    cap: u128,
) -> u128 {
    match amount_in_quote {
        Some(a) => a,
        None => {
            if available_balance < cap {
                available_balance
            } else {
                cap
            }
        },
    }
}

/// Resolves the payout amount from the caller's request and the available
/// balance; the balance itself is read by the host and handed in.
pub fn resolve_amount_in_quote(
    amount_in_quote: Option<u128>,
    available_balance: u128,
    cap: u128,
) -> (r: u128)
    ensures
        r == resolve_amount_spec(amount_in_quote, available_balance, cap),
{
    match amount_in_quote {
        Some(a) => a,
        None => {
            if available_balance < cap {
                available_balance
            } else {
                cap
            }
        },
    }
}

/// The price request a successful payout request sends to the adapter.
#[derive(Clone, Debug, PartialEq, Eq)]
pub struct PriceRequestMsg {
    pub base: String,
    pub quote: String,
    pub expiration: Expiration,
    pub valid_from: Option<Expiration>,
    pub sequence: Option<u64>,
}

/// The mathematical value of a [`PriceRequestMsg`].
pub struct PriceRequestMsgV {
    pub base: Seq<char>,
    pub quote: Seq<char>,
    pub expiration: Expiration,
    pub valid_from: Option<Expiration>,
    pub sequence: Option<u64>,
}

impl View for PriceRequestMsg {
    type V = PriceRequestMsgV;

    open spec fn view(&self) -> PriceRequestMsgV {
        PriceRequestMsgV {
            base: self.base@,
            quote: self.quote@,
            expiration: self.expiration,
            valid_from: self.valid_from,
            sequence: self.sequence,
        }
    }
}

/// What a successful payout request emits: one price request, addressed to
/// the configured adapter, with no funds attached.
#[derive(Clone, Debug, PartialEq, Eq)]
pub struct PayoutRequestResponse {
    pub oracle_addr: String,
    pub request: PriceRequestMsg,
}

/// The mathematical value of a [`PayoutRequestResponse`].
pub struct PayoutRequestResponseV {
    pub oracle_addr: Seq<char>,
    pub request: PriceRequestMsgV,
}

impl View for PayoutRequestResponse {
    type V = PayoutRequestResponseV;

    open spec fn view(&self) -> PayoutRequestResponseV {
        PayoutRequestResponseV { oracle_addr: self.oracle_addr@, request: self.request@ }
    }
}

/// The whole effect of one payout request: the new pending payout and
/// either the emitted price request or the exact error; the checks run in
/// order: amount, then duration, then the pending-payout rule.
pub open spec fn request_payout_spec(
    cfg: ConfigV,
    height: u64,
    time_nanos: u64,
    pending: Option<PendingPayout>,
    amount_in_quote: Option<u128>,
    duration: Option<Duration>,
    replace_pending: Option<bool>,
    available_balance: u128,
) -> (Option<PendingPayout>, Result<PayoutRequestResponseV, ContractError>) {
    if amount_in_quote matches Some(a) && a == 0 {
        (pending, Err(ContractError::InvalidAmount))
    } else {
        match normalize_duration_spec(height, time_nanos, cfg.payout_duration_bounds, duration) {
            Err(e) => (pending, Err(ContractError::InvalidDuration { reason: e })),
            Ok(expires_at) => {
                if pending is Some && replace_pending != Some(true) {
                    (pending, Err(ContractError::PendingAlreadyExists))
                } else {
                    let amount = resolve_amount_spec(
                        amount_in_quote,
                        available_balance,
                        cfg.quote_cap,
                    );
                    (
                        Some(PendingPayout { amount_in_quote: amount, expires_at }),
                        Ok(
                            PayoutRequestResponseV {
                                oracle_addr: cfg.price_feeder_addr,
                                request: PriceRequestMsgV {
                                    base: cfg.settlement_denom,
                                    quote: cfg.quote_denom,
                                    expiration: expires_at,
                                    valid_from: None,
                                    sequence: None,
                                },
                            },
                        ),
                    )
                }
            },
        }
    }
}

/// With a valid amount and duration, a payout request against an existing
/// pending payout fails unless replacement was explicitly asked for, and
/// overwrites the pending payout when it was.
pub proof fn lemma_pending_payout_is_exclusive(
    cfg: ConfigV,
    height: u64,
    time_nanos: u64,
    pending: Option<PendingPayout>,
    amount_in_quote: Option<u128>,
    duration: Option<Duration>,
    replace_pending: Option<bool>,
    available_balance: u128,
)
    requires
        pending is Some,
        !(amount_in_quote matches Some(a) && a == 0),
        normalize_duration_spec(height, time_nanos, cfg.payout_duration_bounds, duration) is Ok,
    ensures
        ({
            let (p2, res) = request_payout_spec(
                cfg,
                height,
                time_nanos,
                pending,
                amount_in_quote,
                duration,
                replace_pending,
                available_balance,
            );
            &&& replace_pending != Some(true) ==> p2 == pending && res == Err::<
                PayoutRequestResponseV,
                ContractError,
            >(ContractError::PendingAlreadyExists)
            &&& replace_pending == Some(true) ==> res is Ok && p2 == Some(
                PendingPayout {
                    amount_in_quote: resolve_amount_spec(
                        amount_in_quote,
                        available_balance,
                        cfg.quote_cap,
                    ),
                    expires_at: normalize_duration_spec(
                        height,
                        time_nanos,
                        cfg.payout_duration_bounds,
                        duration,
                    ).unwrap(),
                },
            )
        }),
{
}

/// Requests a payout: validates the amount and duration, enforces the
/// at-most-one pending payout rule unless replacement was asked for, then
/// persists the new pending payout and emits one price request.
pub fn execute_request_payout(
    cfg: &Config,
    env: &BlockInfo,
    pending: &mut Option<PendingPayout>,
    amount_in_quote: Option<u128>,
    duration: Option<Duration>,
    replace_pending: Option<bool>,
    available_balance: u128,
) -> (r: Result<PayoutRequestResponse, ContractError>)
    requires
        deadline_fits(env.height, env.time_nanos, cfg.payout_duration_bounds, duration),
    ensures
        ({
            let (p2, res) = request_payout_spec(
                cfg@,
                env.height,
                env.time_nanos,
                *old(pending),
                amount_in_quote,
                duration,
                replace_pending,
                available_balance,
            );
            *final(pending) == p2 && (match r {
                Ok(o) => res == Ok::<PayoutRequestResponseV, ContractError>(o@),
                Err(e) => res == Err::<PayoutRequestResponseV, ContractError>(e),
            })
        }),
{
    match amount_in_quote {
        Some(a) => {
            if a == 0 {
                return Err(ContractError::InvalidAmount);
            }
        },
        None => {},
    }
    let expires_at = match normalize_duration_to_expiration(
        env,
        &cfg.payout_duration_bounds,
        duration,
    ) {
        Err(e) => {
            return Err(ContractError::InvalidDuration { reason: e });
        },
        Ok(x) => x,
    };
    let replace = match replace_pending {
        Some(b) => b,
        None => false,
    };
    if pending.is_some() && !replace {
        return Err(ContractError::PendingAlreadyExists);
    }
    let amount = resolve_amount_in_quote(amount_in_quote, available_balance, cfg.quote_cap);
    *pending = Some(PendingPayout { amount_in_quote: amount, expires_at });
    Ok(
        PayoutRequestResponse {
            oracle_addr: cfg.price_feeder_addr.clone(),
            request: PriceRequestMsg {
                base: cfg.settlement_denom.clone(),
                quote: cfg.quote_denom.clone(),
                expiration: expires_at,
                valid_from: None,
                sequence: None,
            },
        },
    )
}

/// Resolves the pending payout on a price callback and clears it; the
/// disbursement itself is the host's obligation.
pub fn on_price_callback(
    pending: &mut Option<PendingPayout>,
    price_atomics: u128,
    request_id: u64,
) -> (r: Option<PendingPayout>)
    ensures
        r == *old(pending),
        *final(pending) is None,
{
    pending.take()
}

/// Clears the pending payout on a timeout and reports what was cleared.
pub fn on_payout_timeout(pending: &mut Option<PendingPayout>, request_id: u64) -> (r: Option<
    PendingPayout,
>)
    ensures
        r == *old(pending),
        *final(pending) is None,
{
    pending.take()
}

/// Cancels the pending payout, if one exists. A cancel that names an
/// expected request sequence fails: payout price requests are issued
/// without a sequence number, so no pending payout can match one.
pub fn cancel_pending_payout(
    pending: &mut Option<PendingPayout>,
    expected_seq: Option<u64>,
) -> (r: Result<PendingPayout, ContractError>)
    ensures
        *old(pending) is None ==> r == Err::<PendingPayout, ContractError>(
            ContractError::NoPendingPayout,
        ) && *final(pending) == *old(pending),
        *old(pending) is Some && expected_seq is Some ==> r == Err::<PendingPayout, ContractError>(
            ContractError::SequenceMismatch,
        ) && *final(pending) == *old(pending),
        *old(pending) is Some && expected_seq is None ==> r == Ok::<PendingPayout, ContractError>(
            old(pending).unwrap(),
        ) && *final(pending) is None,
{
    if pending.is_none() {
        return Err(ContractError::NoPendingPayout);
    }
    if expected_seq.is_some() {
        return Err(ContractError::SequenceMismatch);
    }
    match pending.take() {
        Some(p) => Ok(p),
        None => Err(ContractError::NoPendingPayout),
    }
}

} // verus!
