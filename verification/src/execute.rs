//! The request side of the adapter: turn a price request into one coalesced
//! interchain query.
//!
//! A request first builds the canonical outbound payload for its pair and
//! window, then takes the payload's content hash as the query key. A key
//! that is already in flight only gains a requester record; a new key
//! requires an open channel and an absolute-time deadline, and dispatches
//! one transport message.

use crate::error::ContractError;
use crate::expiration::{Expiration, NANOS_PER_SECOND};
use crate::hashing::{data_hash, sha256_of};
use crate::icq::{
    enc_abci_requests, enc_packet_data, AbciQueryRequest, AbciRequestV, CosmosQuery,
    InterchainQueryPacketData, PacketDataV,
};
use crate::state::{setting_for, AdapterState, AdapterStateV, RequestInfo, RequestInfoV,
    TwapSetting, TwapSettingV};
use crate::twap::{enc_twap_request, ArithmeticTwapToNowRequest, Timestamp, TwapRequestV};
use vstd::prelude::*;
use vstd::string::StringExecFns;

verus! {

/// The query path of the remote TWAP endpoint.
pub open spec fn twap_query_path() -> Seq<char> {
    "/osmosis.twap.v1beta1.Query/ArithmeticTwapToNow"@
}

/// The memo carried by every outbound query packet.
pub open spec fn twap_query_memo() -> Seq<char> {
    "TWAP ICQ request"@
}

/// The window start derived from `valid_from`: only an absolute-time value
/// converts; any other variant is ignored rather than rejected.
pub open spec fn start_time_of(valid_from: Option<Expiration>) -> Option<Timestamp> {
    match valid_from {
        Some(Expiration::AtTime(nanos)) => Some(
            Timestamp {
                seconds: (nanos / (NANOS_PER_SECOND as u64)) as i64,
                nanos: (nanos % (NANOS_PER_SECOND as u64)) as i32,
            },
        ),
        _ => None,
    }
}

/// The domain sub-request built for a pair's setting and a window start.
pub open spec fn sub_request_of(
    setting: TwapSettingV,
    valid_from: Option<Expiration>,
) -> TwapRequestV {
    TwapRequestV {
        pool_id: setting.pool_id,
        base_asset: setting.base_twap,
        quote_asset: setting.quote_twap,
        start_time: start_time_of(valid_from),
    }
}

/// The one ABCI query carried by the outbound packet.
pub open spec fn abci_request_of(
    setting: TwapSettingV,
    valid_from: Option<Expiration>,
) -> AbciRequestV {
    AbciRequestV {
        data: enc_twap_request(sub_request_of(setting, valid_from)),
        path: twap_query_path(),
        height: 0,
        prove: false,
    }
}

/// The canonical outbound payload for a pair's setting and a window start:
/// what is hashed, and what is sent.
pub open spec fn payload_of(setting: TwapSettingV, valid_from: Option<Expiration>) -> Seq<u8> {
    enc_packet_data(
        PacketDataV {
            data: enc_abci_requests(seq![abci_request_of(setting, valid_from)]),
            memo: twap_query_memo(),
        },
    )
}

/// The content hash that identifies one logical in-flight query.
pub open spec fn query_key_of(setting: TwapSettingV, valid_from: Option<Expiration>) -> Seq<u8> {
    sha256_of(payload_of(setting, valid_from))
}

/// Constructs the outbound interchain-query packet for a pair's setting
/// and a window start: the encoded domain sub-request, wrapped as one ABCI
/// query, batched, and enveloped with the fixed path and memo.
pub fn construct_icq_twap_request(
    twap_setting: TwapSetting,
    valid_from: Option<Expiration>,
) -> (packet: InterchainQueryPacketData)
    ensures
        packet@.data == enc_abci_requests(seq![abci_request_of(twap_setting@, valid_from)]),
        packet@.memo == twap_query_memo(),
{
    let ghost sv = twap_setting@;
    let start_time = match valid_from {
        Some(Expiration::AtTime(nanos)) => Some(
            Timestamp {
                seconds: (nanos / NANOS_PER_SECOND) as i64,
                nanos: (nanos % NANOS_PER_SECOND) as i32,
            },
        ),
        _ => None,
    };
    let twap_request = ArithmeticTwapToNowRequest {
        pool_id: twap_setting.pool_id,
        base_asset: twap_setting.base_twap,
        quote_asset: twap_setting.quote_twap,
        start_time,
    };
    proof {
        assert(twap_request@ == sub_request_of(sv, valid_from));
    }
    let data = twap_request.encode_to_vec();

    let abci = AbciQueryRequest {
        data,
        path: String::from_str("/osmosis.twap.v1beta1.Query/ArithmeticTwapToNow"),
        height: 0,
        prove: false,
    };
    proof {
        assert(abci@ == abci_request_of(sv, valid_from));
    }
    let mut requests: Vec<AbciQueryRequest> = Vec::new();
    requests.push(abci);
    let query = CosmosQuery { requests };
    proof {
        assert(query@ =~= seq![abci_request_of(sv, valid_from)]);
    }
    let query_data = query.encode_to_vec();

    InterchainQueryPacketData { data: query_data, memo: String::from_str("TWAP ICQ request") }
}

/// What a price request did: joined an in-flight query, or dispatched a new
/// transport message.
#[derive(Clone, Debug, PartialEq, Eq)]
pub enum PriceRequestOutcome {
    /// The query was already in flight; the requester was recorded and no
    /// message was sent.
    Joined,
    /// A new query was dispatched over the channel, to time out at the
    /// given absolute time.
    Dispatched { channel_id: String, payload: Vec<u8>, timeout_nanos: u64 },
}

/// The mathematical value of a [`PriceRequestOutcome`].
pub enum PriceRequestOutcomeV {
    Joined,
    Dispatched { channel_id: Seq<char>, payload: Seq<u8>, timeout_nanos: u64 },
}

impl View for PriceRequestOutcome {
    type V = PriceRequestOutcomeV;

    open spec fn view(&self) -> PriceRequestOutcomeV {
        match self {
            PriceRequestOutcome::Joined => PriceRequestOutcomeV::Joined,
            PriceRequestOutcome::Dispatched { channel_id, payload, timeout_nanos } =>
                PriceRequestOutcomeV::Dispatched {
                channel_id: channel_id@,
                payload: payload@,
                timeout_nanos: *timeout_nanos,
            },
        }
    }
}

/// The whole effect of one price request on the adapter.
pub open spec fn request_price_spec(
    s: AdapterStateV,
    sender: Seq<char>,
    base: Seq<char>,
    quote: Seq<char>,
    sequence: u64,
    valid_from: Option<Expiration>,
    expiration: Expiration,
) -> (AdapterStateV, Result<PriceRequestOutcomeV, ContractError>) {
    match setting_for(s.twap_settings, base, quote) {
        None => (s, Err(ContractError::UnsupportedPairRequest)),
        Some(setting) => {
            let key = query_key_of(setting, valid_from);
            let rec = RequestInfoV { sender, sequence };
            if s.requests.contains_key(key) {
                (
                    AdapterStateV {
                        requests: s.requests.insert(key, s.requests[key].push(rec)),
                        ..s
                    },
                    Ok(PriceRequestOutcomeV::Joined),
                )
            } else {
                match s.channel {
                    None => (s, Err(ContractError::IbcChannelNotOpen)),
                    Some(chan) => match expiration {
                        Expiration::AtTime(t) => (
                            AdapterStateV { requests: s.requests.insert(key, seq![rec]), ..s },
                            Ok(
                                PriceRequestOutcomeV::Dispatched {
                                    channel_id: chan.id,
                                    payload: payload_of(setting, valid_from),
                                    timeout_nanos: t,
                                },
                            ),
                        ),
                        _ => (s, Err(ContractError::UnsupportedExpirationType)),
                    },
                }
            }
        },
    }
}

/// Requests the price of a pair via an interchain query.
///
/// An unconfigured pair is rejected with no state change. A request whose
/// payload is already in flight joins it, whatever the channel state. A new
/// payload requires an open channel and an absolute-time deadline, records
/// its first requester, and dispatches the query.
pub fn request_price(
    state: &mut AdapterState,
    sender: String,
    base: String,
    quote: String,
    sequence: u64,
    valid_from: Option<Expiration>,
    expiration: Expiration,
) -> (r: Result<PriceRequestOutcome, ContractError>)
    requires
        old(state).wf(),
    ensures
        final(state).wf(),
        ({
            let (s2, res) = request_price_spec(
                old(state)@,
                sender@,
                base@,
                quote@,
                sequence,
                valid_from,
                expiration,
            );
            final(state)@ == s2 && (match r {
                Ok(o) => res == Ok::<PriceRequestOutcomeV, ContractError>(o@),
                Err(e) => res == Err::<PriceRequestOutcomeV, ContractError>(e),
            })
        }),
{
    let setting = match state.get_twap_setting(base.as_str(), quote.as_str()) {
        None => {
            return Err(ContractError::UnsupportedPairRequest);
        },
        Some(t) => t,
    };
    let ghost sv = setting@;

    let packet = construct_icq_twap_request(setting, valid_from);
    let payload = packet.encode_to_vec();
    proof {
        assert(payload@ == payload_of(sv, valid_from));
    }
    let key = data_hash(payload.as_slice());
    let info = RequestInfo { sender, sequence };

    if state.has_request(key.as_slice()) {
        state.append_requester(key.as_slice(), info);
        Ok(PriceRequestOutcome::Joined)
    } else {
        let channel_id = match state.get_channel_id() {
            Err(e) => {
                return Err(e);
            },
            Ok(id) => id,
        };
        let timeout_nanos = match expiration {
            Expiration::AtTime(t) => t,
            _ => {
                return Err(ContractError::UnsupportedExpirationType);
            },
        };
        state.insert_request(key, info);
        Ok(PriceRequestOutcome::Dispatched { channel_id, payload, timeout_nanos })
    }
}

/// One caller of a run of price requests: who asked, their sequence number,
/// and the deadline they asked for.
pub struct PriceCallV {
    pub sender: Seq<char>,
    pub sequence: u64,
    pub expiration: Expiration,
}

/// The requester records that a run of calls leaves behind, in call order.
pub open spec fn records_of(calls: Seq<PriceCallV>) -> Seq<RequestInfoV> {
    calls.map_values(|c: PriceCallV| RequestInfoV { sender: c.sender, sequence: c.sequence })
}

/// The state after a run of price requests for one pair and window.
pub open spec fn run_price_requests(
    s: AdapterStateV,
    base: Seq<char>,
    quote: Seq<char>,
    valid_from: Option<Expiration>,
    calls: Seq<PriceCallV>,
) -> AdapterStateV
    decreases calls.len(),
{
    if calls.len() == 0 {
        s
    } else {
        let (s2, _res) = request_price_spec(
            s,
            calls[0].sender,
            base,
            quote,
            calls[0].sequence,
            valid_from,
            calls[0].expiration,
        );
        run_price_requests(s2, base, quote, valid_from, calls.drop_first())
    }
}

/// How many of the calls in a run dispatched a transport message.
pub open spec fn count_dispatches(
    s: AdapterStateV,
    base: Seq<char>,
    quote: Seq<char>,
    valid_from: Option<Expiration>,
    calls: Seq<PriceCallV>,
) -> nat
    decreases calls.len(),
{
    if calls.len() == 0 {
        0
    } else {
        let (s2, res) = request_price_spec(
            s,
            calls[0].sender,
            base,
            quote,
            calls[0].sequence,
            valid_from,
            calls[0].expiration,
        );
        (if res matches Ok(PriceRequestOutcomeV::Dispatched { .. }) {
            1nat
        } else {
            0nat
        }) + count_dispatches(s2, base, quote, valid_from, calls.drop_first())
    }
}

/// While a pair's query key is in flight, every further request for the
/// same pair and window dispatches nothing and only appends its requester
/// record, in call order.
pub proof fn lemma_requests_coalesce(
    s: AdapterStateV,
    base: Seq<char>,
    quote: Seq<char>,
    valid_from: Option<Expiration>,
    calls: Seq<PriceCallV>,
)
    requires
        setting_for(s.twap_settings, base, quote) is Some,
        s.requests.contains_key(
            query_key_of(setting_for(s.twap_settings, base, quote).unwrap(), valid_from),
        ),
    ensures
        ({
            let key = query_key_of(setting_for(s.twap_settings, base, quote).unwrap(), valid_from);
            let s2 = run_price_requests(s, base, quote, valid_from, calls);
            &&& count_dispatches(s, base, quote, valid_from, calls) == 0
            &&& s2.requests == s.requests.insert(key, s.requests[key] + records_of(calls))
            &&& s2.channel == s.channel
            &&& s2.twap_settings == s.twap_settings
        }),
    decreases calls.len(),
{
    let setting = setting_for(s.twap_settings, base, quote).unwrap();
    let key = query_key_of(setting, valid_from);
    if calls.len() == 0 {
        assert(s.requests.insert(key, s.requests[key] + records_of(calls)) =~= s.requests);
    } else {
        let c = calls[0];
        let rec = RequestInfoV { sender: c.sender, sequence: c.sequence };
        let (s1, res) = request_price_spec(
            s,
            c.sender,
            base,
            quote,
            c.sequence,
            valid_from,
            c.expiration,
        );
        assert(s1.requests == s.requests.insert(key, s.requests[key].push(rec)));
        assert(s1.requests.contains_key(key));
        lemma_requests_coalesce(s1, base, quote, valid_from, calls.drop_first());
        let s2 = run_price_requests(s, base, quote, valid_from, calls);
        assert(records_of(calls.drop_first()) =~= records_of(calls).drop_first());
        assert(s1.requests[key] + records_of(calls.drop_first()) =~= s.requests[key] + records_of(
            calls,
        ));
        assert(s2.requests =~= s.requests.insert(key, s.requests[key] + records_of(calls)));
    }
}

/// For any run of price requests with one pair and window, starting with no
/// query in flight for it, an open channel and a first call with an
/// absolute-time deadline: exactly one transport message is dispatched, and
/// the requester records of all calls are retained in call order.
pub proof fn lemma_single_dispatch(
    s: AdapterStateV,
    base: Seq<char>,
    quote: Seq<char>,
    valid_from: Option<Expiration>,
    calls: Seq<PriceCallV>,
)
    requires
        calls.len() > 0,
        setting_for(s.twap_settings, base, quote) is Some,
        !s.requests.contains_key(
            query_key_of(setting_for(s.twap_settings, base, quote).unwrap(), valid_from),
        ),
        s.channel is Some,
        calls[0].expiration is AtTime,
    ensures
        ({
            let key = query_key_of(setting_for(s.twap_settings, base, quote).unwrap(), valid_from);
            let s2 = run_price_requests(s, base, quote, valid_from, calls);
            &&& count_dispatches(s, base, quote, valid_from, calls) == 1
            &&& s2.requests == s.requests.insert(key, records_of(calls))
        }),
{
    let setting = setting_for(s.twap_settings, base, quote).unwrap();
    let key = query_key_of(setting, valid_from);
    let c = calls[0];
    let rec = RequestInfoV { sender: c.sender, sequence: c.sequence };
    let (s1, res) = request_price_spec(
        s,
        c.sender,
        base,
        quote,
        c.sequence,
        valid_from,
        c.expiration,
    );
    assert(res matches Ok(PriceRequestOutcomeV::Dispatched { .. }));
    assert(s1.requests == s.requests.insert(key, seq![rec]));
    assert(s1.requests.contains_key(key));
    lemma_requests_coalesce(s1, base, quote, valid_from, calls.drop_first());
    let s2 = run_price_requests(s, base, quote, valid_from, calls);
    assert(records_of(calls.drop_first()) =~= records_of(calls).drop_first());
    assert(s1.requests[key] + records_of(calls.drop_first()) =~= records_of(calls));
    assert(s2.requests =~= s.requests.insert(key, records_of(calls)));
}

} // verus!
