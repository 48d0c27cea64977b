//! Canonical activity records and the normalization of a transaction's events.
use crate::address::{canonical_address, standardize_address};
use crate::decimal::Decimal;
use crate::event::{
    decode_event, has_recipient, kind_of_tag, opt_decimal_view, opt_string_view, EventKind,
    TokenEvent, TokenEventModel,
};
use crate::identifier::{
    collection_key, hash_text, token_key, truncate_utf8, CompositeIdentifier,
    CompositeIdentifierModel, MAX_NAME_LENGTH,
};
use vstd::prelude::*;

verus! {

/// Whether the instant `seconds` and `nanos` after the Unix epoch is a
/// representable date-time.
pub uninterp spec fn timestamp_in_range(seconds: i64, nanos: u32) -> bool;

/// Relies on `chrono::DateTime::from_timestamp`: `Some` exactly when the
/// instant `seconds` and `nanos` after the Unix epoch can be represented.
/// The nanoseconds must be below two billion, and reach one billion only in
/// a leap second (the last second of a minute); the day must lie within
/// chrono's year range, which holds for every instant within `2^40` seconds
/// (about 34,000 years) of the epoch.
#[verifier::external_body]
fn timestamp_representable(seconds: i64, nanos: u32) -> (r: bool)
    ensures
        r == timestamp_in_range(seconds, nanos),
        r ==> nanos < 2_000_000_000 && (nanos >= 1_000_000_000 ==> seconds as int % 60 == 59),
        -0x100_0000_0000 <= seconds <= 0x100_0000_0000 && (nanos < 1_000_000_000 || (nanos
            < 2_000_000_000 && seconds as int % 60 == 59)) ==> r,
{
    chrono::DateTime::from_timestamp(seconds, nanos).is_some()
}

/// A transaction's timestamp: seconds and nanoseconds after the Unix epoch.
#[derive(Clone, Copy, Debug, PartialEq, Eq, Structural)]
pub struct Timestamp {
    pub seconds: i64,
    pub nanos: u32,
}

/// One event of a transaction: its type tag, its JSON payload and its key.
#[derive(Clone, Debug, PartialEq, Eq)]
pub struct Event {
    pub type_str: String,
    pub data: String,
    pub account_address: String,
    pub creation_number: i64,
    pub sequence_number: i64,
}

/// What an event holds, as plain values.
pub struct EventModel {
    pub type_str: Seq<char>,
    pub data: Seq<char>,
    pub account_address: Seq<char>,
    pub creation_number: i64,
    pub sequence_number: i64,
}

impl View for Event {
    type V = EventModel;

    open spec fn view(&self) -> EventModel {
        EventModel {
            type_str: self.type_str@,
            data: self.data@,
            account_address: self.account_address@,
            creation_number: self.creation_number,
            sequence_number: self.sequence_number,
        }
    }
}

/// A transaction as the normalizer sees it. `user_events` is `None` for a
/// transaction that is not user-authored (genesis, block metadata, ...).
#[derive(Clone, Debug, PartialEq, Eq)]
pub struct Transaction {
    pub version: i64,
    pub timestamp: Option<Timestamp>,
    pub user_events: Option<Vec<Event>>,
}

/// The events of a list, viewed.
pub open spec fn events_view(events: Seq<Event>) -> Seq<EventModel> {
    events.map_values(|e: Event| e@)
}

/// Why a transaction cannot be normalized.
#[derive(Clone, Copy, Debug, PartialEq, Eq, Structural)]
pub enum NormalizeError {
    /// The transaction carries no user-transaction payload.
    NotUserTransaction,
    /// The transaction has no timestamp.
    MissingTimestamp,
    /// The timestamp is outside the representable date-time range.
    TimestampOutOfRange,
    /// The event at `index` has the tag of `kind` but its payload cannot be read.
    MalformedEvent { index: usize, kind: EventKind },
}

/// The canonical record of one token event.
#[derive(Clone, Debug, PartialEq, Eq)]
pub struct TokenActivity {
    pub transaction_version: i64,
    pub event_account_address: String,
    pub event_creation_number: i64,
    pub event_sequence_number: i64,
    pub token_data_id_hash: String,
    pub property_version: Decimal,
    pub creator_address: String,
    pub collection_name: String,
    pub name: String,
    pub transfer_type: String,
    pub from_address: Option<String>,
    pub to_address: Option<String>,
    pub token_amount: Decimal,
    pub coin_type: Option<String>,
    pub coin_amount: Option<Decimal>,
    pub collection_data_id_hash: String,
    pub transaction_timestamp: Timestamp,
    pub event_index: Option<i64>,
}

/// What an activity record holds, as plain values.
pub struct TokenActivityModel {
    pub transaction_version: i64,
    pub event_account_address: Seq<char>,
    pub event_creation_number: i64,
    pub event_sequence_number: i64,
    pub token_data_id_hash: Seq<char>,
    pub property_version: Seq<char>,
    pub creator_address: Seq<char>,
    pub collection_name: Seq<char>,
    pub name: Seq<char>,
    pub transfer_type: Seq<char>,
    pub from_address: Option<Seq<char>>,
    pub to_address: Option<Seq<char>>,
    pub token_amount: Seq<char>,
    pub coin_type: Option<Seq<char>>,
    pub coin_amount: Option<Seq<char>>,
    pub collection_data_id_hash: Seq<char>,
    pub transaction_timestamp: Timestamp,
    pub event_index: Option<i64>,
}

impl View for TokenActivity {
    type V = TokenActivityModel;

    open spec fn view(&self) -> TokenActivityModel {
        TokenActivityModel {
            transaction_version: self.transaction_version,
            event_account_address: self.event_account_address@,
            event_creation_number: self.event_creation_number,
            event_sequence_number: self.event_sequence_number,
            token_data_id_hash: self.token_data_id_hash@,
            property_version: self.property_version@,
            creator_address: self.creator_address@,
            collection_name: self.collection_name@,
            name: self.name@,
            transfer_type: self.transfer_type@,
            from_address: opt_string_view(self.from_address),
            to_address: opt_string_view(self.to_address),
            token_amount: self.token_amount@,
            coin_type: opt_string_view(self.coin_type),
            coin_amount: opt_decimal_view(self.coin_amount),
            collection_data_id_hash: self.collection_data_id_hash@,
            transaction_timestamp: self.transaction_timestamp,
            event_index: self.event_index,
        }
    }
}

/// The activities of a list, viewed.
pub open spec fn activities_view(acts: Seq<TokenActivity>) -> Seq<TokenActivityModel> {
    acts.map_values(|a: TokenActivity| a@)
}

/// The property version an event stands for: zero where it carries none.
pub open spec fn version_or_zero(te: TokenEventModel) -> Seq<char> {
    match te.property_version {
        Some(v) => v,
        None => seq!['0'],
    }
}

/// The amount an event stands for: zero where it carries none.
pub open spec fn amount_or_zero(te: TokenEventModel) -> Seq<char> {
    match te.amount {
        Some(v) => v,
        None => seq!['0'],
    }
}

/// The identifier of the token that an event speaks of.
pub open spec fn event_identifier(te: TokenEventModel) -> CompositeIdentifierModel {
    CompositeIdentifierModel {
        creator_address: te.creator,
        collection_name: te.collection,
        token_name: te.name,
        property_version: version_or_zero(te),
    }
}

/// The record of token event `te`, decoded from `e`, of a transaction.
pub open spec fn activity_of(
    tag: Seq<char>,
    e: EventModel,
    te: TokenEventModel,
    version: i64,
    ts: Timestamp,
    index: i64,
) -> TokenActivityModel {
    let account = canonical_address(e.account_address);
    let deposit = te.kind == EventKind::DepositTokenEvent;
    TokenActivityModel {
        transaction_version: version,
        event_account_address: account,
        event_creation_number: e.creation_number,
        event_sequence_number: e.sequence_number,
        token_data_id_hash: hash_text(token_key(event_identifier(te))),
        property_version: version_or_zero(te),
        creator_address: canonical_address(te.creator),
        collection_name: truncate_utf8(te.collection, MAX_NAME_LENGTH as nat),
        name: truncate_utf8(te.name, MAX_NAME_LENGTH as nat),
        transfer_type: tag,
        from_address: if deposit {
            None
        } else {
            Some(account)
        },
        to_address: if deposit {
            Some(account)
        } else if has_recipient(te.kind) {
            Some(canonical_address(te.to_address->0))
        } else {
            None
        },
        token_amount: amount_or_zero(te),
        coin_type: None,
        coin_amount: None,
        collection_data_id_hash: hash_text(collection_key(te.creator, te.collection)),
        transaction_timestamp: ts,
        event_index: Some(index),
    }
}

/// The records of the first `n` events, or the first error among them.
pub open spec fn normalize_prefix(
    events: Seq<EventModel>,
    version: i64,
    ts: Timestamp,
    n: nat,
) -> Result<Seq<TokenActivityModel>, NormalizeError>
    decreases n,
{
    if n == 0 {
        Ok(Seq::empty())
    } else {
        match normalize_prefix(events, version, ts, (n - 1) as nat) {
            Err(err) => Err(err),
            Ok(acc) => {
                let e = events[n - 1];
                match decode_event(e.type_str, e.data) {
                    Err(k) => Err(NormalizeError::MalformedEvent { index: (n - 1) as usize, kind: k }),
                    Ok(None) => Ok(acc),
                    Ok(Some(te)) => if !timestamp_in_range(ts.seconds, ts.nanos) {
                        Err(NormalizeError::TimestampOutOfRange)
                    } else {
                        Ok(acc.push(activity_of(e.type_str, e, te, version, ts, (n - 1) as i64)))
                    },
                }
            },
        }
    }
}

/// The records of a whole transaction, or why there are none.
pub open spec fn normalize(txn: Transaction) -> Result<Seq<TokenActivityModel>, NormalizeError> {
    match txn.user_events {
        None => Err(NormalizeError::NotUserTransaction),
        Some(events) => match txn.timestamp {
            None => Err(NormalizeError::MissingTimestamp),
            Some(ts) => normalize_prefix(events_view(events@), txn.version, ts, events@.len()),
        },
    }
}

proof fn lemma_error_persists(
    events: Seq<EventModel>,
    version: i64,
    ts: Timestamp,
    i: nat,
    n: nat,
)
    requires
        i <= n,
        normalize_prefix(events, version, ts, i) is Err,
    ensures
        normalize_prefix(events, version, ts, n) == normalize_prefix(events, version, ts, i),
    decreases n - i,
{
    if i < n {
        lemma_error_persists(events, version, ts, i, (n - 1) as nat);
    }
}

proof fn lemma_prefix_without_token_events(
    events: Seq<EventModel>,
    version: i64,
    ts: Timestamp,
    n: nat,
)
    requires
        n <= events.len(),
        forall|i: int| 0 <= i < n ==> kind_of_tag(#[trigger] events[i].type_str) is None,
    ensures
        normalize_prefix(events, version, ts, n) == Ok::<Seq<TokenActivityModel>, NormalizeError>(
            Seq::empty(),
        ),
    decreases n,
{
    if n > 0 {
        lemma_prefix_without_token_events(events, version, ts, (n - 1) as nat);
        let e = events[n - 1];
        assert(kind_of_tag(e.type_str) is None);
    }
}

/// A user transaction with a timestamp, none of whose events carries a
/// recognized token-event tag (in particular one with no events at all),
/// normalizes to an empty list of records, never to an error.
pub proof fn lemma_no_token_events_no_activities(txn: Transaction)
    requires
        txn.user_events is Some,
        txn.timestamp is Some,
        forall|i: int|
            0 <= i < txn.user_events->0@.len() ==> kind_of_tag(
                #[trigger] txn.user_events->0@[i].type_str@,
            ) is None,
    ensures
        normalize(txn) == Ok::<Seq<TokenActivityModel>, NormalizeError>(Seq::empty()),
{
    let events = txn.user_events->0@;
    let evs = events_view(events);
    assert forall|i: int| 0 <= i < events.len() implies kind_of_tag(
        #[trigger] evs[i].type_str,
    ) is None by {
        assert(evs[i].type_str == events[i].type_str@);
    }
    lemma_prefix_without_token_events(evs, txn.version, txn.timestamp->0, events.len());
}

/// The position stamped on the `j`-th record.
pub open spec fn stamped_index(acts: Seq<TokenActivityModel>, j: int) -> int {
    acts[j].event_index->0 as int
}

proof fn lemma_prefix_indices(events: Seq<EventModel>, version: i64, ts: Timestamp, n: nat)
    requires
        n <= events.len(),
        events.len() <= i64::MAX,
        normalize_prefix(events, version, ts, n) is Ok,
    ensures
        ({
            let acts = normalize_prefix(events, version, ts, n)->Ok_0;
            &&& forall|j: int|
                0 <= j < acts.len() ==> (#[trigger] acts[j]).event_index is Some && 0
                    <= stamped_index(acts, j) < n && kind_of_tag(
                    events[stamped_index(acts, j)].type_str,
                ) is Some
            &&& forall|j1: int, j2: int|
                0 <= j1 < j2 < acts.len() ==> #[trigger] stamped_index(acts, j1)
                    < #[trigger] stamped_index(acts, j2)
            &&& forall|i: int|
                0 <= i < n && kind_of_tag(#[trigger] events[i].type_str) is Some ==> exists|
                    j: int,
                |
                    0 <= j < acts.len() && #[trigger] acts[j].event_index == Some(i as i64)
        }),
    decreases n,
{
    if n > 0 {
        let prev = normalize_prefix(events, version, ts, (n - 1) as nat);
        assert(prev is Ok);
        lemma_prefix_indices(events, version, ts, (n - 1) as nat);
        let acc = prev->Ok_0;
        let acts = normalize_prefix(events, version, ts, n)->Ok_0;
        let e = events[n - 1];
        match decode_event(e.type_str, e.data) {
            Ok(None) => {
                assert(kind_of_tag(e.type_str) is None);
                assert(acts == acc);
            },
            Ok(Some(te)) => {
                assert(kind_of_tag(e.type_str) is Some);
                assert(acts == acc.push(activity_of(e.type_str, e, te, version, ts, (n - 1) as i64)));
                assert(acts[acc.len() as int].event_index == Some((n - 1) as i64));
                assert forall|j: int| 0 <= j < acc.len() implies #[trigger] acts[j] == acc[j] by {}
                assert forall|j1: int, j2: int|
                    0 <= j1 < j2 < acts.len() implies #[trigger] stamped_index(acts, j1)
                    < #[trigger] stamped_index(acts, j2) by {
                    assert(acts[j1] == acc[j1]);
                    if j2 < acc.len() {
                        assert(acts[j2] == acc[j2]);
                        assert(stamped_index(acc, j1) < stamped_index(acc, j2));
                    } else {
                        assert(stamped_index(acc, j1) < n - 1);
                    }
                }
                assert forall|i: int|
                    0 <= i < n && kind_of_tag(#[trigger] events[i].type_str) is Some implies exists|
                        j: int,
                    |
                        0 <= j < acts.len() && #[trigger] acts[j].event_index == Some(i as i64) by {
                    if i < n - 1 {
                        let j = choose|j: int|
                            0 <= j < acc.len() && #[trigger] acc[j].event_index == Some(i as i64);
                        assert(acts[j] == acc[j]);
                    } else {
                        assert(acts[acc.len() as int].event_index == Some(i as i64));
                    }
                }
            },
            Err(_) => {},
        }
    }
}

/// The records of a user transaction with `k` events carry the positions of
/// their events: each stamped position lies in `0..k` and belongs to an
/// event with a recognized tag, positions strictly increase along the list,
/// and every event with a recognized tag has a record stamped with its own
/// position. An unrecognized event thus leaves a gap and shifts no later
/// position.
pub proof fn lemma_event_indices_follow_positions(txn: Transaction, acts: Seq<TokenActivityModel>)
    requires
        txn.user_events is Some,
        txn.user_events->0@.len() <= i64::MAX,
        normalize(txn) == Ok::<Seq<TokenActivityModel>, NormalizeError>(acts),
    ensures
        forall|j: int|
            0 <= j < acts.len() ==> (#[trigger] acts[j]).event_index is Some && 0 <= stamped_index(
                acts,
                j,
            ) < txn.user_events->0@.len() && kind_of_tag(
                txn.user_events->0@[stamped_index(acts, j)].type_str@,
            ) is Some,
        forall|j1: int, j2: int|
            0 <= j1 < j2 < acts.len() ==> #[trigger] stamped_index(acts, j1) < #[trigger] stamped_index(
                acts,
                j2,
            ),
        forall|i: int|
            0 <= i < txn.user_events->0@.len() && kind_of_tag(
                #[trigger] txn.user_events->0@[i].type_str@,
            ) is Some ==> exists|j: int|
                0 <= j < acts.len() && #[trigger] acts[j].event_index == Some(i as i64),
{
    let events = txn.user_events->0@;
    let evs = events_view(events);
    lemma_prefix_indices(evs, txn.version, txn.timestamp->0, events.len());
    assert forall|i: int| 0 <= i < events.len() implies #[trigger] evs[i].type_str
        == events[i].type_str@ by {}
    assert forall|j: int| 0 <= j < acts.len() implies (#[trigger] acts[j]).event_index is Some && 0
        <= stamped_index(acts, j) < events.len() && kind_of_tag(
        events[stamped_index(acts, j)].type_str@,
    ) is Some by {
        assert(evs[stamped_index(acts, j)].type_str == events[stamped_index(acts, j)].type_str@);
    }
    assert forall|i: int|
        0 <= i < events.len() && kind_of_tag(#[trigger] events[i].type_str@) is Some implies exists|
            j: int,
        | 0 <= j < acts.len() && #[trigger] acts[j].event_index == Some(i as i64) by {
        assert(evs[i].type_str == events[i].type_str@);
    }
}

/// Whether a record was not stamped with position `j`.
pub open spec fn not_at(j: int) -> spec_fn(TokenActivityModel) -> bool {
    |a: TokenActivityModel| a.event_index != Some(j as i64)
}

proof fn lemma_prefix_skips_unrecognized(
    e1: Seq<EventModel>,
    e2: Seq<EventModel>,
    version: i64,
    ts: Timestamp,
    j: int,
    n: nat,
)
    requires
        e1.len() == e2.len(),
        e1.len() <= i64::MAX,
        0 <= j < e1.len(),
        n <= e1.len(),
        forall|i: int| 0 <= i < e1.len() && i != j ==> #[trigger] e1[i] == e2[i],
        kind_of_tag(e2[j].type_str) is None,
        normalize_prefix(e1, version, ts, n) is Ok,
    ensures
        normalize_prefix(e2, version, ts, n) == Ok::<Seq<TokenActivityModel>, NormalizeError>(
            normalize_prefix(e1, version, ts, n)->Ok_0.filter(not_at(j)),
        ),
    decreases n,
{
    broadcast use Seq::lemma_filter_push;

    if n == 0 {
        assert(Seq::<TokenActivityModel>::empty().filter(not_at(j)) =~= Seq::empty());
    } else {
        let k = (n - 1) as nat;
        assert(normalize_prefix(e1, version, ts, k) is Ok);
        lemma_prefix_skips_unrecognized(e1, e2, version, ts, j, k);
        let acc = normalize_prefix(e1, version, ts, k)->Ok_0;
        let x1 = e1[k as int];
        if k as int == j {
            let x2 = e2[k as int];
            assert(decode_event(x2.type_str, x2.data) == Ok::<
                Option<TokenEventModel>,
                EventKind,
            >(None));
            match decode_event(x1.type_str, x1.data) {
                Ok(Some(te)) => {
                    let a = activity_of(x1.type_str, x1, te, version, ts, k as i64);
                    assert(!not_at(j)(a));
                },
                _ => {},
            }
        } else {
            assert(e2[k as int] == x1);
            match decode_event(x1.type_str, x1.data) {
                Ok(Some(te)) => {
                    let a = activity_of(x1.type_str, x1, te, version, ts, k as i64);
                    assert(not_at(j)(a));
                },
                _ => {},
            }
        }
    }
}

/// Two user transactions with the same version and timestamp that differ
/// only in event `j`, which in the second carries an unrecognized tag:
/// where the first normalizes, the second gives the same records minus the
/// one stamped with position `j`. Later events are still processed and keep
/// their positions.
pub proof fn lemma_unrecognized_event_is_skipped(
    t1: Transaction,
    t2: Transaction,
    j: int,
    r1: Seq<TokenActivityModel>,
)
    requires
        t1.user_events is Some,
        t2.user_events is Some,
        t1.version == t2.version,
        t1.timestamp == t2.timestamp,
        t1.user_events->0@.len() == t2.user_events->0@.len(),
        t1.user_events->0@.len() <= i64::MAX,
        0 <= j < t1.user_events->0@.len(),
        forall|i: int|
            0 <= i < t1.user_events->0@.len() && i != j ==> (#[trigger] t1.user_events->0@[i])@
                == t2.user_events->0@[i]@,
        kind_of_tag(t2.user_events->0@[j].type_str@) is None,
        normalize(t1) == Ok::<Seq<TokenActivityModel>, NormalizeError>(r1),
    ensures
        normalize(t2) == Ok::<Seq<TokenActivityModel>, NormalizeError>(r1.filter(not_at(j))),
{
    let e1 = events_view(t1.user_events->0@);
    let e2 = events_view(t2.user_events->0@);
    assert forall|i: int| 0 <= i < e1.len() && i != j implies #[trigger] e1[i] == e2[i] by {
        assert(t1.user_events->0@[i]@ == t2.user_events->0@[i]@);
    }
    assert(e2[j].type_str == t2.user_events->0@[j].type_str@);
    lemma_prefix_skips_unrecognized(e1, e2, t1.version, t1.timestamp->0, j, e1.len());
}

impl TokenActivity {
    /// The record of one decoded token event of a transaction.
    pub fn from_parsed_event(
        event_type: &str,
        event: &Event,
        token_event: &TokenEvent,
        txn_version: i64,
        txn_timestamp: Timestamp,
        event_index: i64,
    ) -> (r: TokenActivity)
        requires
            token_event.wf(),
        ensures
            r@ == activity_of(
                event_type@,
                event@,
                token_event@,
                txn_version,
                txn_timestamp,
                event_index,
            ),
    {
        let event_account_address = standardize_address(event.account_address.as_str());
        let property_version = match &token_event.property_version {
            Some(v) => v.clone(),
            None => Decimal::zero(),
        };
        let token_amount = match &token_event.amount {
            Some(v) => v.clone(),
            None => Decimal::zero(),
        };
        let (from_address, to_address) = match token_event.kind {
            EventKind::DepositTokenEvent => (None, Some(event_account_address.clone())),
            EventKind::OfferTokenEvent | EventKind::CancelTokenOfferEvent
            | EventKind::ClaimTokenEvent => {
                let to = match &token_event.to_address {
                    Some(a) => standardize_address(a.as_str()),
                    None => String::new(),
                };
                (Some(event_account_address.clone()), Some(to))
            },
            _ => (Some(event_account_address.clone()), None),
        };
        let id = CompositeIdentifier {
            creator_address: token_event.id.creator.clone(),
            collection_name: token_event.id.collection.clone(),
            token_name: token_event.id.name.clone(),
            property_version: property_version.clone(),
        };
        assert(id@ == event_identifier(token_event@));
        TokenActivity {
            transaction_version: txn_version,
            event_account_address,
            event_creation_number: event.creation_number,
            event_sequence_number: event.sequence_number,
            token_data_id_hash: id.token_hash(),
            property_version,
            creator_address: id.get_creator_address(),
            collection_name: id.truncated_collection_name(),
            name: id.truncated_token_name(),
            transfer_type: String::from_str(event_type),
            from_address,
            to_address,
            token_amount,
            coin_type: None,
            coin_amount: None,
            collection_data_id_hash: id.collection_hash(),
            transaction_timestamp: txn_timestamp,
            event_index: Some(event_index),
        }
    }

    /// The records of every recognized token event of a user transaction, in
    /// event order, each stamped with its event's position. Fails on a
    /// transaction that is not user-authored, one without a timestamp, and
    /// one with a recognized event whose payload cannot be read.
    pub fn from_transaction(transaction: &Transaction) -> (r: Result<Vec<TokenActivity>, NormalizeError>)
        requires
            transaction.user_events matches Some(events) ==> events@.len() <= i64::MAX,
        ensures
            match r {
                Ok(acts) => normalize(*transaction) == Ok::<
                    Seq<TokenActivityModel>,
                    NormalizeError,
                >(activities_view(acts@)),
                Err(err) => normalize(*transaction) == Err::<
                    Seq<TokenActivityModel>,
                    NormalizeError,
                >(err),
            },
    {
        let events = match &transaction.user_events {
            Some(ev) => ev,
            None => return Err(NormalizeError::NotUserTransaction),
        };
        let ts = match transaction.timestamp {
            Some(t) => t,
            None => return Err(NormalizeError::MissingTimestamp),
        };
        let ghost evs = events_view(events@);
        let version = transaction.version;
        assert(normalize(*transaction) == normalize_prefix(evs, version, ts, events@.len()));
        let mut out: Vec<TokenActivity> = Vec::new();
        let mut i: usize = 0;
        assert(activities_view(out@) =~= Seq::<TokenActivityModel>::empty());
        while i < events.len()
            invariant
                i <= events@.len(),
                events@.len() <= i64::MAX,
                normalize(*transaction) == normalize_prefix(evs, version, ts, events@.len()),
                evs == events_view(events@),
                normalize_prefix(evs, version, ts, i as nat) == Ok::<
                    Seq<TokenActivityModel>,
                    NormalizeError,
                >(activities_view(out@)),
            decreases events@.len() - i,
        {
            let event = &events[i];
            assert(evs[i as int] == event@);
            match TokenEvent::from_event(event.type_str.as_str(), event.data.as_str()) {
                Err(k) => {
                    let err = NormalizeError::MalformedEvent { index: i, kind: k };
                    assert(normalize_prefix(evs, version, ts, (i + 1) as nat) == Err::<
                        Seq<TokenActivityModel>,
                        NormalizeError,
                    >(err));
                    proof {
                        lemma_error_persists(evs, version, ts, (i + 1) as nat, events@.len());
                    }
                    return Err(err);
                },
                Ok(None) => {},
                Ok(Some(token_event)) => {
                    if !timestamp_representable(ts.seconds, ts.nanos) {
                        assert(normalize_prefix(evs, version, ts, (i + 1) as nat) == Err::<
                            Seq<TokenActivityModel>,
                            NormalizeError,
                        >(NormalizeError::TimestampOutOfRange));
                        proof {
                            lemma_error_persists(evs, version, ts, (i + 1) as nat, events@.len());
                        }
                        return Err(NormalizeError::TimestampOutOfRange);
                    }
                    let act = TokenActivity::from_parsed_event(
                        event.type_str.as_str(),
                        event,
                        &token_event,
                        version,
                        ts,
                        i as i64,
                    );
                    out.push(act);
                    assert(activities_view(out@) =~= normalize_prefix(
                        evs,
                        version,
                        ts,
                        (i + 1) as nat,
                    )->Ok_0);
                },
            }
            i = i + 1;
        }
        Ok(out)
    }
}

} // verus!
