//! The price adapter's state: the TWAP-setting table, the one transport
//! channel, and the request-deduplication store that maps the content hash
//! of an outbound query to the requesters waiting on it.
//!
//! The store is held as a vector of entries with pairwise-distinct keys; in
//! contracts it is read through its mathematical view, a map from key to
//! the ordered list of requester records.

use crate::error::ContractError;
use vstd::prelude::*;
use vstd::utf8::encode_utf8;

verus! {

/// Compares two byte slices for equality of contents.
pub fn bytes_eq(a: &[u8], b: &[u8]) -> (r: bool)
    ensures
        r == (a@ == b@),
{
    if a.len() != b.len() {
        return false;
    }
    let mut i: usize = 0;
    while i < a.len()
        invariant
            i <= a@.len(),
            a@.len() == b@.len(),
            forall|j: int| 0 <= j < i ==> a@[j] == b@[j],
        decreases a@.len() - i,
    {
        if a[i] != b[i] {
            return false;
        }
        i = i + 1;
    }
    proof {
        assert(a@ =~= b@);
    }
    true
}

/// Compares two strings for equality of contents.
pub fn str_eq(a: &str, b: &str) -> (r: bool)
    ensures
        r == (a@ == b@),
{
    let r = bytes_eq(a.as_bytes(), b.as_bytes());
    proof {
        if encode_utf8(a@) == encode_utf8(b@) {
            vstd::utf8::encode_utf8_decode_utf8(a@);
            vstd::utf8::encode_utf8_decode_utf8(b@);
            assert(a@ == b@);
        }
    }
    r
}

/// One pair's TWAP configuration: the pool to query and the asset
/// identifiers used on the remote chain.
#[derive(Clone, Debug, PartialEq, Eq)]
pub struct TwapSetting {
    pub pool_id: u64,
    pub base: String,
    pub quote: String,
    pub base_twap: String,
    pub quote_twap: String,
}

/// The mathematical value of a [`TwapSetting`].
pub struct TwapSettingV {
    pub pool_id: u64,
    pub base: Seq<char>,
    pub quote: Seq<char>,
    pub base_twap: Seq<char>,
    pub quote_twap: Seq<char>,
}

impl View for TwapSetting {
    type V = TwapSettingV;

    open spec fn view(&self) -> TwapSettingV {
        TwapSettingV {
            pool_id: self.pool_id,
            base: self.base@,
            quote: self.quote@,
            base_twap: self.base_twap@,
            quote_twap: self.quote_twap@,
        }
    }
}

/// The remote end of a transport channel.
#[derive(Clone, Debug, PartialEq, Eq)]
pub struct IbcEndpoint {
    pub port_id: String,
    pub channel_id: String,
}

/// The mathematical value of an [`IbcEndpoint`].
pub struct IbcEndpointV {
    pub port_id: Seq<char>,
    pub channel_id: Seq<char>,
}

impl View for IbcEndpoint {
    type V = IbcEndpointV;

    open spec fn view(&self) -> IbcEndpointV {
        IbcEndpointV { port_id: self.port_id@, channel_id: self.channel_id@ }
    }
}

/// Static information on the one open channel; exists exactly while a
/// handshake has completed and the channel has not been closed.
#[derive(Clone, Debug, PartialEq, Eq)]
pub struct ChannelInfo {
    /// id of this channel
    pub id: String,
    /// the remote channel/port we connect to
    pub counterparty_endpoint: IbcEndpoint,
    /// the connection this channel exists on
    pub connection_id: String,
}

/// The mathematical value of a [`ChannelInfo`].
pub struct ChannelInfoV {
    pub id: Seq<char>,
    pub counterparty_endpoint: IbcEndpointV,
    pub connection_id: Seq<char>,
}

impl View for ChannelInfo {
    type V = ChannelInfoV;

    open spec fn view(&self) -> ChannelInfoV {
        ChannelInfoV {
            id: self.id@,
            counterparty_endpoint: self.counterparty_endpoint@,
            connection_id: self.connection_id@,
        }
    }
}

/// One requester waiting on an in-flight query: who asked, and the
/// caller-supplied sequence number that correlates the callback.
#[derive(Clone, Debug, PartialEq, Eq)]
pub struct RequestInfo {
    pub sender: String,
    pub sequence: u64,
}

/// The mathematical value of a [`RequestInfo`].
pub struct RequestInfoV {
    pub sender: Seq<char>,
    pub sequence: u64,
}

impl View for RequestInfo {
    type V = RequestInfoV;

    open spec fn view(&self) -> RequestInfoV {
        RequestInfoV { sender: self.sender@, sequence: self.sequence }
    }
}

/// One entry of the deduplication store.
#[derive(Clone, Debug, PartialEq, Eq)]
pub struct RequestEntry {
    pub key: Vec<u8>,
    pub requesters: Vec<RequestInfo>,
}

/// The mathematical value of a [`RequestEntry`].
pub struct EntryV {
    pub key: Seq<u8>,
    pub requesters: Seq<RequestInfoV>,
}

impl View for RequestEntry {
    type V = EntryV;

    open spec fn view(&self) -> EntryV {
        EntryV {
            key: self.key@,
            requesters: self.requesters@.map_values(|r: RequestInfo| r@),
        }
    }
}

/// Entries have pairwise-distinct keys.
pub open spec fn distinct_keys(es: Seq<EntryV>) -> bool {
    forall|i: int, j: int| 0 <= i < j < es.len() ==> es[i].key != es[j].key
}

/// The map held by a list of entries.
pub open spec fn map_of(es: Seq<EntryV>) -> Map<Seq<u8>, Seq<RequestInfoV>>
    decreases es.len(),
{
    if es.len() == 0 {
        Map::empty()
    } else {
        map_of(es.drop_last()).insert(es.last().key, es.last().requesters)
    }
}

/// A key is in the map exactly when some entry holds it.
pub proof fn lemma_map_of_contains(es: Seq<EntryV>, k: Seq<u8>)
    ensures
        map_of(es).contains_key(k) <==> (exists|i: int| 0 <= i < es.len() && es[i].key == k),
    decreases es.len(),
{
    if es.len() > 0 {
        let prefix = es.drop_last();
        lemma_map_of_contains(prefix, k);
        if k == es.last().key {
            assert(es[es.len() - 1].key == k);
        } else {
            if map_of(es).contains_key(k) {
                let i = choose|i: int| 0 <= i < prefix.len() && prefix[i].key == k;
                assert(es[i].key == k);
            }
            if exists|i: int| 0 <= i < es.len() && es[i].key == k {
                let i = choose|i: int| 0 <= i < es.len() && es[i].key == k;
                assert(prefix[i].key == k);
            }
        }
    }
}

/// With distinct keys, each entry is readable through the map.
pub proof fn lemma_map_of_index(es: Seq<EntryV>, i: int)
    requires
        distinct_keys(es),
        0 <= i < es.len(),
    ensures
        map_of(es).contains_key(es[i].key),
        map_of(es)[es[i].key] == es[i].requesters,
    decreases es.len(),
{
    let prefix = es.drop_last();
    if i == es.len() - 1 {
    } else {
        assert(distinct_keys(prefix)) by {
            assert(forall|a: int, b: int|
                0 <= a < b < prefix.len() ==> prefix[a].key == es[a].key && prefix[b].key
                    == es[b].key);
        }
        assert(es[i].key != es.last().key);
        lemma_map_of_index(prefix, i);
        assert(prefix[i] == es[i]);
    }
}

/// Removing an entry removes its key from the map and keeps keys distinct.
pub proof fn lemma_map_of_remove(es: Seq<EntryV>, i: int)
    requires
        distinct_keys(es),
        0 <= i < es.len(),
    ensures
        map_of(es.remove(i)) == map_of(es).remove(es[i].key),
        distinct_keys(es.remove(i)),
    decreases es.len(),
{
    let k = es[i].key;
    let prefix = es.drop_last();
    assert(distinct_keys(prefix)) by {
        assert(forall|a: int, b: int|
            0 <= a < b < prefix.len() ==> prefix[a].key == es[a].key && prefix[b].key
                == es[b].key);
    }
    assert(distinct_keys(es.remove(i))) by {
        assert(forall|a: int, b: int|
            0 <= a < b < es.remove(i).len() ==> es.remove(i)[a].key != es.remove(i)[b].key) by {
            assert(forall|a: int|
                0 <= a < es.remove(i).len() ==> es.remove(i)[a] == (if a < i {
                    es[a]
                } else {
                    es[a + 1]
                }));
        }
    }
    if i == es.len() - 1 {
        assert(es.remove(i) =~= prefix);
        assert(!map_of(prefix).contains_key(k)) by {
            lemma_map_of_contains(prefix, k);
            assert(forall|j: int| 0 <= j < prefix.len() ==> es[j].key != k);
        }
        assert(map_of(prefix).insert(k, es.last().requesters).remove(k) =~= map_of(prefix));
    } else {
        lemma_map_of_remove(prefix, i);
        assert(es.remove(i).drop_last() =~= prefix.remove(i));
        assert(es.remove(i).last() == es.last());
        assert(k != es.last().key);
        assert(map_of(prefix).remove(k).insert(es.last().key, es.last().requesters) =~= map_of(
            prefix,
        ).insert(es.last().key, es.last().requesters).remove(k));
    }
}

/// Appending an entry inserts its key, and keeps keys distinct when the
/// key is new.
pub proof fn lemma_map_of_push(es: Seq<EntryV>, e: EntryV)
    requires
        distinct_keys(es),
        forall|i: int| 0 <= i < es.len() ==> es[i].key != e.key,
    ensures
        map_of(es.push(e)) == map_of(es).insert(e.key, e.requesters),
        distinct_keys(es.push(e)),
{
    assert(es.push(e).drop_last() =~= es);
    assert(es.push(e).last() == e);
    assert(distinct_keys(es.push(e))) by {
        assert(forall|a: int| 0 <= a < es.len() ==> es.push(e)[a] == es[a]);
    }
}

/// Looks up the first TWAP setting configured for a pair.
pub open spec fn setting_for(
    settings: Seq<TwapSettingV>,
    base: Seq<char>,
    quote: Seq<char>,
) -> Option<TwapSettingV>
    decreases settings.len(),
{
    if settings.len() == 0 {
        None
    } else if settings[0].base == base && settings[0].quote == quote {
        Some(settings[0])
    } else {
        setting_for(settings.drop_first(), base, quote)
    }
}

/// The price adapter's whole state.
#[derive(Clone, Debug, PartialEq, Eq)]
pub struct AdapterState {
    pub twap_settings: Vec<TwapSetting>,
    pub channel: Option<ChannelInfo>,
    pub requests: Vec<RequestEntry>,
}

/// The mathematical value of an [`AdapterState`].
pub struct AdapterStateV {
    pub twap_settings: Seq<TwapSettingV>,
    pub channel: Option<ChannelInfoV>,
    pub requests: Map<Seq<u8>, Seq<RequestInfoV>>,
}

impl View for AdapterState {
    type V = AdapterStateV;

    open spec fn view(&self) -> AdapterStateV {
        AdapterStateV {
            twap_settings: self.twap_settings@.map_values(|t: TwapSetting| t@),
            channel: match self.channel {
                None => None,
                Some(c) => Some(c@),
            },
            requests: map_of(self.requests@.map_values(|e: RequestEntry| e@)),
        }
    }
}

impl AdapterState {
    /// The entries of the deduplication store, as values.
    pub open spec fn entries(&self) -> Seq<EntryV> {
        self.requests@.map_values(|e: RequestEntry| e@)
    }

    /// The store's keys are pairwise distinct; established at construction
    /// and preserved by every operation.
    pub open spec fn wf(&self) -> bool {
        distinct_keys(self.entries())
    }

    /// A fresh adapter: the given settings, no channel, no requests.
    pub fn new(twap_settings: Vec<TwapSetting>) -> (r: AdapterState)
        ensures
            r.wf(),
            r@.twap_settings == twap_settings@.map_values(|t: TwapSetting| t@),
            r@.channel is None,
            r@.requests == Map::<Seq<u8>, Seq<RequestInfoV>>::empty(),
    {
        let r = AdapterState { twap_settings, channel: None, requests: Vec::new() };
        proof {
            assert(r.entries() =~= Seq::<EntryV>::empty());
        }
        r
    }

    /// Finds the entry of a key, if it is present.
    fn find_request(&self, key: &[u8]) -> (r: Option<usize>)
        requires
            self.wf(),
        ensures
            match r {
                Some(i) => i < self.requests@.len() && self.entries()[i as int].key == key@
                    && self@.requests.contains_key(key@) && self@.requests[key@]
                    == self.entries()[i as int].requesters,
                None => !self@.requests.contains_key(key@),
            },
    {
        let n = self.requests.len();
        let mut i: usize = 0;
        while i < n
            invariant
                n == self.requests@.len(),
                i <= n,
                self.wf(),
                forall|j: int| 0 <= j < i ==> self.entries()[j].key != key@,
            decreases n - i,
        {
            if bytes_eq(self.requests[i].key.as_slice(), key) {
                proof {
                    assert(self.entries()[i as int].key == key@);
                    lemma_map_of_index(self.entries(), i as int);
                }
                return Some(i);
            }
            proof {
                assert(self.entries()[i as int].key != key@);
            }
            i = i + 1;
        }
        proof {
            lemma_map_of_contains(self.entries(), key@);
        }
        None
    }

    /// Whether a query with this content hash is already in flight.
    pub fn has_request(&self, key: &[u8]) -> (r: bool)
        requires
            self.wf(),
        ensures
            r == self@.requests.contains_key(key@),
    {
        self.find_request(key).is_some()
    }

    /// Appends one requester record to the entry of an in-flight key;
    /// duplicates are permitted and order is preserved.
    pub fn append_requester(&mut self, key: &[u8], info: RequestInfo)
        requires
            old(self).wf(),
            old(self)@.requests.contains_key(key@),
        ensures
            final(self).wf(),
            final(self)@.twap_settings == old(self)@.twap_settings,
            final(self)@.channel == old(self)@.channel,
            final(self)@.requests == old(self)@.requests.insert(
                key@,
                old(self)@.requests[key@].push(info@),
            ),
    {
        let i = match self.find_request(key) {
            Some(i) => i,
            None => {
                proof {
                    assert(false);
                }
                return ;
            },
        };
        let ghost old_entries = self.entries();
        let mut entry = self.requests.remove(i);
        entry.requesters.push(info);
        proof {
            lemma_map_of_remove(old_entries, i as int);
            assert(self.entries() =~= old_entries.remove(i as int));
        }
        let ghost mid_entries = self.entries();
        let ghost new_entry_view = EntryV {
            key: key@,
            requesters: old_entries[i as int].requesters.push(info@),
        };
        proof {
            assert(entry@ == new_entry_view) by {
                let oe = old_entries[i as int];
                assert(entry.requesters@.map_values(|r: RequestInfo| r@) =~= oe.requesters.push(
                    info@,
                ));
            }
            assert(forall|j: int| 0 <= j < mid_entries.len() ==> mid_entries[j].key != key@) by {
                assert(forall|j: int|
                    0 <= j < mid_entries.len() ==> mid_entries[j] == (if j < i as int {
                        old_entries[j]
                    } else {
                        old_entries[j + 1]
                    }));
            }
            lemma_map_of_push(mid_entries, new_entry_view);
        }
        self.requests.push(entry);
        proof {
            assert(self.entries() =~= mid_entries.push(new_entry_view));
            assert(final(self)@.requests =~= old(self)@.requests.insert(
                key@,
                old(self)@.requests[key@].push(info@),
            ));
        }
    }

    /// Creates the entry of a new key with its first requester record.
    pub fn insert_request(&mut self, key: Vec<u8>, info: RequestInfo)
        requires
            old(self).wf(),
            !old(self)@.requests.contains_key(key@),
        ensures
            final(self).wf(),
            final(self)@.twap_settings == old(self)@.twap_settings,
            final(self)@.channel == old(self)@.channel,
            final(self)@.requests == old(self)@.requests.insert(key@, seq![info@]),
    {
        let ghost old_entries = self.entries();
        let ghost kview = key@;
        let mut requesters: Vec<RequestInfo> = Vec::new();
        requesters.push(info);
        let entry = RequestEntry { key, requesters };
        proof {
            assert(entry@.requesters =~= seq![info@]);
            assert(forall|j: int| 0 <= j < old_entries.len() ==> old_entries[j].key != kview) by {
                lemma_map_of_contains(old_entries, kview);
            }
            lemma_map_of_push(old_entries, entry@);
        }
        self.requests.push(entry);
        proof {
            assert(self.entries() =~= old_entries.push(entry@));
        }
    }

    /// Removes the entry of a key and hands back its requester records.
    pub fn take_request(&mut self, key: &[u8]) -> (r: Option<Vec<RequestInfo>>)
        requires
            old(self).wf(),
        ensures
            final(self).wf(),
            final(self)@.twap_settings == old(self)@.twap_settings,
            final(self)@.channel == old(self)@.channel,
            match r {
                Some(list) => old(self)@.requests.contains_key(key@) && list@.map_values(
                    |q: RequestInfo| q@,
                ) == old(self)@.requests[key@] && final(self)@.requests == old(
                    self,
                )@.requests.remove(key@),
                None => !old(self)@.requests.contains_key(key@) && final(self)@ == old(self)@,
            },
    {
        let i = match self.find_request(key) {
            Some(i) => i,
            None => {
                return None;
            },
        };
        let ghost old_entries = self.entries();
        let entry = self.requests.remove(i);
        proof {
            lemma_map_of_remove(old_entries, i as int);
            assert(self.entries() =~= old_entries.remove(i as int));
        }
        Some(entry.requesters)
    }

    /// Looks up the TWAP setting configured for a pair.
    pub fn get_twap_setting(&self, base: &str, quote: &str) -> (r: Option<TwapSetting>)
        ensures
            match r {
                Some(t) => setting_for(self@.twap_settings, base@, quote@) == Some(t@),
                None => setting_for(self@.twap_settings, base@, quote@) is None,
            },
    {
        let ghost all = self@.twap_settings;
        let n = self.twap_settings.len();
        let mut i: usize = 0;
        proof {
            assert(all.skip(0) =~= all);
        }
        while i < n
            invariant
                n == self.twap_settings@.len(),
                i <= n,
                all == self@.twap_settings,
                setting_for(all, base@, quote@) == setting_for(all.skip(i as int), base@, quote@),
            decreases n - i,
        {
            let s = &self.twap_settings[i];
            proof {
                assert(all.skip(i as int)[0] == all[i as int]);
                assert(all[i as int] == s@);
            }
            if str_eq(s.base.as_str(), base) && str_eq(s.quote.as_str(), quote) {
                let t = TwapSetting {
                    pool_id: s.pool_id,
                    base: s.base.clone(),
                    quote: s.quote.clone(),
                    base_twap: s.base_twap.clone(),
                    quote_twap: s.quote_twap.clone(),
                };
                return Some(t);
            }
            proof {
                assert(all.skip(i as int).drop_first() =~= all.skip(i + 1));
            }
            i = i + 1;
        }
        proof {
            assert(all.skip(n as int) =~= Seq::<TwapSettingV>::empty());
        }
        None
    }

    /// The open channel's id, or the error that no channel is open.
    pub fn get_channel_id(&self) -> (r: Result<String, ContractError>)
        ensures
            match r {
                Ok(id) => self@.channel matches Some(c) && id@ == c.id,
                Err(e) => self@.channel is None && e == ContractError::IbcChannelNotOpen,
            },
    {
        match &self.channel {
            Some(c) => Ok(c.id.clone()),
            None => Err(ContractError::IbcChannelNotOpen),
        }
    }
}

} // verus!
