//! Classification and decoding of token events from their type tag and payload.
use crate::decimal::{decimal_text, Decimal};
use vstd::prelude::*;
use vstd::string::*;

verus! {

/// The string found at a JSON pointer in a JSON document, if the document
/// parses and a string value stands at that place.
pub uninterp spec fn json_string_at(document: Seq<char>, pointer: Seq<char>) -> Option<Seq<char>>;

/// Relies on `serde_json::from_str` (into `serde_json::Value`) and
/// `serde_json::Value::pointer`: the string value at `pointer` of the JSON
/// document `document`, or `None` when the document does not parse, nothing
/// stands there, or what stands there is not a string.
#[verifier::external_body]
fn string_at_pointer(document: &str, pointer: &str) -> (r: Option<String>)
    ensures
        match r {
            Some(v) => json_string_at(document@, pointer@) == Some(v@),
            None => json_string_at(document@, pointer@) is None,
        },
{
    let value: serde_json::Value = match serde_json::from_str(document) {
        Ok(v) => v,
        Err(_) => return None,
    };
    match value.pointer(pointer) {
        Some(serde_json::Value::String(s)) => Some(s.clone()),
        _ => None,
    }
}

/// The token-lifecycle event kinds that are recognized.
#[derive(Clone, Copy, Debug, PartialEq, Eq, Structural)]
pub enum EventKind {
    MintTokenEvent,
    BurnTokenEvent,
    MutateTokenPropertyMapEvent,
    WithdrawTokenEvent,
    DepositTokenEvent,
    OfferTokenEvent,
    CancelTokenOfferEvent,
    ClaimTokenEvent,
}

/// The on-chain type tag of each kind.
pub open spec fn kind_tag(k: EventKind) -> Seq<char> {
    match k {
        EventKind::MintTokenEvent => "0x3::token::MintTokenEvent"@,
        EventKind::BurnTokenEvent => "0x3::token::BurnTokenEvent"@,
        EventKind::MutateTokenPropertyMapEvent => "0x3::token::MutateTokenPropertyMapEvent"@,
        EventKind::WithdrawTokenEvent => "0x3::token::WithdrawEvent"@,
        EventKind::DepositTokenEvent => "0x3::token::DepositEvent"@,
        EventKind::OfferTokenEvent => "0x3::token_transfers::TokenOfferEvent"@,
        EventKind::CancelTokenOfferEvent => "0x3::token_transfers::TokenCancelOfferEvent"@,
        EventKind::ClaimTokenEvent => "0x3::token_transfers::TokenClaimEvent"@,
    }
}

/// The kind whose tag is `tag`, if any.
pub open spec fn kind_of_tag(tag: Seq<char>) -> Option<EventKind> {
    if tag == kind_tag(EventKind::MintTokenEvent) {
        Some(EventKind::MintTokenEvent)
    } else if tag == kind_tag(EventKind::BurnTokenEvent) {
        Some(EventKind::BurnTokenEvent)
    } else if tag == kind_tag(EventKind::MutateTokenPropertyMapEvent) {
        Some(EventKind::MutateTokenPropertyMapEvent)
    } else if tag == kind_tag(EventKind::WithdrawTokenEvent) {
        Some(EventKind::WithdrawTokenEvent)
    } else if tag == kind_tag(EventKind::DepositTokenEvent) {
        Some(EventKind::DepositTokenEvent)
    } else if tag == kind_tag(EventKind::OfferTokenEvent) {
        Some(EventKind::OfferTokenEvent)
    } else if tag == kind_tag(EventKind::CancelTokenOfferEvent) {
        Some(EventKind::CancelTokenOfferEvent)
    } else if tag == kind_tag(EventKind::ClaimTokenEvent) {
        Some(EventKind::ClaimTokenEvent)
    } else {
        None
    }
}

/// JSON pointer of the object that holds creator, collection and name.
pub open spec fn data_id_pointer(k: EventKind) -> Seq<char> {
    match k {
        EventKind::MintTokenEvent => "/id"@,
        EventKind::BurnTokenEvent => "/id/token_data_id"@,
        EventKind::WithdrawTokenEvent => "/id/token_data_id"@,
        EventKind::DepositTokenEvent => "/id/token_data_id"@,
        EventKind::MutateTokenPropertyMapEvent => "/new_id/token_data_id"@,
        _ => "/token_id/token_data_id"@,
    }
}

/// JSON pointer of the property version; a mint event carries none.
pub open spec fn version_pointer(k: EventKind) -> Option<Seq<char>> {
    match k {
        EventKind::MintTokenEvent => None,
        EventKind::BurnTokenEvent => Some("/id/property_version"@),
        EventKind::WithdrawTokenEvent => Some("/id/property_version"@),
        EventKind::DepositTokenEvent => Some("/id/property_version"@),
        EventKind::MutateTokenPropertyMapEvent => Some("/new_id/property_version"@),
        _ => Some("/token_id/property_version"@),
    }
}

/// Every kind but a property mutation carries an amount.
pub open spec fn has_amount(k: EventKind) -> bool {
    k != EventKind::MutateTokenPropertyMapEvent
}

/// Offers, cancelled offers and claims name a recipient.
pub open spec fn has_recipient(k: EventKind) -> bool {
    k == EventKind::OfferTokenEvent || k == EventKind::CancelTokenOfferEvent || k
        == EventKind::ClaimTokenEvent
}

/// The canonical decimal text of the string at `pointer`, if it is a decimal.
pub open spec fn decimal_at(document: Seq<char>, pointer: Seq<char>) -> Option<Seq<char>> {
    match json_string_at(document, pointer) {
        Some(t) => decimal_text(t),
        None => None,
    }
}

/// What a decoded token event holds, as plain sequences.
pub struct TokenEventModel {
    pub kind: EventKind,
    pub creator: Seq<char>,
    pub collection: Seq<char>,
    pub name: Seq<char>,
    pub property_version: Option<Seq<char>>,
    pub amount: Option<Seq<char>>,
    pub to_address: Option<Seq<char>>,
}

/// The event of kind `k` that `payload` describes, or `None` when a field
/// that the kind needs is missing or malformed.
pub open spec fn decode_kind(k: EventKind, payload: Seq<char>) -> Option<TokenEventModel> {
    let creator = json_string_at(payload, data_id_pointer(k) + "/creator"@);
    let collection = json_string_at(payload, data_id_pointer(k) + "/collection"@);
    let name = json_string_at(payload, data_id_pointer(k) + "/name"@);
    let version = match version_pointer(k) {
        Some(p) => decimal_at(payload, p),
        None => None,
    };
    let amount = decimal_at(payload, "/amount"@);
    let to = json_string_at(payload, "/to_address"@);
    if creator is Some && collection is Some && name is Some && (version_pointer(k) is Some
        ==> version is Some) && (has_amount(k) ==> amount is Some) && (has_recipient(k)
        ==> to is Some) {
        Some(
            TokenEventModel {
                kind: k,
                creator: creator->0,
                collection: collection->0,
                name: name->0,
                property_version: version,
                amount: if has_amount(k) {
                    amount
                } else {
                    None
                },
                to_address: if has_recipient(k) {
                    to
                } else {
                    None
                },
            },
        )
    } else {
        None
    }
}

/// Decoding an event: `Ok(None)` for an unrecognized tag, the decoded event
/// for a recognized one, and `Err(kind)` when the payload of a recognized
/// kind cannot be read.
pub open spec fn decode_event(tag: Seq<char>, payload: Seq<char>) -> Result<
    Option<TokenEventModel>,
    EventKind,
> {
    match kind_of_tag(tag) {
        None => Ok(None),
        Some(k) => match decode_kind(k, payload) {
            Some(m) => Ok(Some(m)),
            None => Err(k),
        },
    }
}

/// A token's data identity as it appears in an event: raw creator address,
/// collection name and token name.
#[derive(Clone, Debug, PartialEq, Eq)]
pub struct TokenDataIdType {
    pub creator: String,
    pub collection: String,
    pub name: String,
}

/// One decoded token event. Which optional fields are present is fixed by
/// the kind (see `wf`).
#[derive(Debug, PartialEq, Eq)]
pub struct TokenEvent {
    pub kind: EventKind,
    pub id: TokenDataIdType,
    pub property_version: Option<Decimal>,
    pub amount: Option<Decimal>,
    pub to_address: Option<String>,
}

/// The view of an optional decimal.
pub open spec fn opt_decimal_view(d: Option<Decimal>) -> Option<Seq<char>> {
    match d {
        Some(v) => Some(v@),
        None => None,
    }
}

/// The view of an optional string.
pub open spec fn opt_string_view(s: Option<String>) -> Option<Seq<char>> {
    match s {
        Some(v) => Some(v@),
        None => None,
    }
}

impl View for TokenEvent {
    type V = TokenEventModel;

    open spec fn view(&self) -> TokenEventModel {
        TokenEventModel {
            kind: self.kind,
            creator: self.id.creator@,
            collection: self.id.collection@,
            name: self.id.name@,
            property_version: opt_decimal_view(self.property_version),
            amount: opt_decimal_view(self.amount),
            to_address: opt_string_view(self.to_address),
        }
    }
}

impl TokenEvent {
    /// The optional fields present are those that the kind carries, and the
    /// decimals are canonical.
    pub open spec fn wf(&self) -> bool {
        &&& (self.property_version is Some <==> version_pointer(self.kind) is Some)
        &&& (self.amount is Some <==> has_amount(self.kind))
        &&& (self.to_address is Some <==> has_recipient(self.kind))
        &&& (self.property_version matches Some(v) ==> v.wf())
        &&& (self.amount matches Some(v) ==> v.wf())
    }

    /// Reads the event of a recognized tag from its payload. `Ok(None)` when
    /// the tag is not a token event; `Err(kind)` when it is, but the payload
    /// lacks a field of that kind or holds a malformed one.
    pub fn from_event(type_tag: &str, payload: &str) -> (r: Result<Option<TokenEvent>, EventKind>)
        ensures
            match r {
                Ok(Some(e)) => decode_event(type_tag@, payload@) == Ok::<
                    Option<TokenEventModel>,
                    EventKind,
                >(Some(e@)) && e.wf(),
                Ok(None) => decode_event(type_tag@, payload@) is Ok && decode_event(
                    type_tag@,
                    payload@,
                )->Ok_0 is None,
                Err(k) => decode_event(type_tag@, payload@) == Err::<
                    Option<TokenEventModel>,
                    EventKind,
                >(k),
            },
    {
        match classify(type_tag) {
            None => Ok(None),
            Some(k) => match decode_payload(k, payload) {
                Some(e) => Ok(Some(e)),
                None => Err(k),
            },
        }
    }
}

/// The tag text of a kind.
pub fn tag_of(k: EventKind) -> (r: &'static str)
    ensures
        r@ == kind_tag(k),
{
    match k {
        EventKind::MintTokenEvent => "0x3::token::MintTokenEvent",
        EventKind::BurnTokenEvent => "0x3::token::BurnTokenEvent",
        EventKind::MutateTokenPropertyMapEvent => "0x3::token::MutateTokenPropertyMapEvent",
        EventKind::WithdrawTokenEvent => "0x3::token::WithdrawEvent",
        EventKind::DepositTokenEvent => "0x3::token::DepositEvent",
        EventKind::OfferTokenEvent => "0x3::token_transfers::TokenOfferEvent",
        EventKind::CancelTokenOfferEvent => "0x3::token_transfers::TokenCancelOfferEvent",
        EventKind::ClaimTokenEvent => "0x3::token_transfers::TokenClaimEvent",
    }
}

/// The kind whose tag is exactly `type_tag`, if any.
pub fn classify(type_tag: &str) -> (r: Option<EventKind>)
    ensures
        r == kind_of_tag(type_tag@),
{
    let t = String::from_str(type_tag);
    if t == String::from_str(tag_of(EventKind::MintTokenEvent)) {
        Some(EventKind::MintTokenEvent)
    } else if t == String::from_str(tag_of(EventKind::BurnTokenEvent)) {
        Some(EventKind::BurnTokenEvent)
    } else if t == String::from_str(tag_of(EventKind::MutateTokenPropertyMapEvent)) {
        Some(EventKind::MutateTokenPropertyMapEvent)
    } else if t == String::from_str(tag_of(EventKind::WithdrawTokenEvent)) {
        Some(EventKind::WithdrawTokenEvent)
    } else if t == String::from_str(tag_of(EventKind::DepositTokenEvent)) {
        Some(EventKind::DepositTokenEvent)
    } else if t == String::from_str(tag_of(EventKind::OfferTokenEvent)) {
        Some(EventKind::OfferTokenEvent)
    } else if t == String::from_str(tag_of(EventKind::CancelTokenOfferEvent)) {
        Some(EventKind::CancelTokenOfferEvent)
    } else if t == String::from_str(tag_of(EventKind::ClaimTokenEvent)) {
        Some(EventKind::ClaimTokenEvent)
    } else {
        None
    }
}

fn data_id_pointer_of(k: EventKind) -> (r: &'static str)
    ensures
        r@ == data_id_pointer(k),
{
    match k {
        EventKind::MintTokenEvent => "/id",
        EventKind::BurnTokenEvent => "/id/token_data_id",
        EventKind::WithdrawTokenEvent => "/id/token_data_id",
        EventKind::DepositTokenEvent => "/id/token_data_id",
        EventKind::MutateTokenPropertyMapEvent => "/new_id/token_data_id",
        _ => "/token_id/token_data_id",
    }
}

fn version_pointer_of(k: EventKind) -> (r: Option<&'static str>)
    ensures
        match r {
            Some(p) => version_pointer(k) == Some(p@),
            None => version_pointer(k) is None,
        },
{
    match k {
        EventKind::MintTokenEvent => None,
        EventKind::BurnTokenEvent => Some("/id/property_version"),
        EventKind::WithdrawTokenEvent => Some("/id/property_version"),
        EventKind::DepositTokenEvent => Some("/id/property_version"),
        EventKind::MutateTokenPropertyMapEvent => Some("/new_id/property_version"),
        _ => Some("/token_id/property_version"),
    }
}

/// The string at `prefix` followed by `suffix`.
fn string_at_path(payload: &str, prefix: &str, suffix: &str) -> (r: Option<String>)
    ensures
        match r {
            Some(v) => json_string_at(payload@, prefix@ + suffix@) == Some(v@),
            None => json_string_at(payload@, prefix@ + suffix@) is None,
        },
{
    let pointer = String::from_str(prefix).concat(suffix);
    string_at_pointer(payload, pointer.as_str())
}

/// The canonical decimal at `pointer`.
fn decimal_at_pointer(payload: &str, pointer: &str) -> (r: Option<Decimal>)
    ensures
        match r {
            Some(d) => d.wf() && decimal_at(payload@, pointer@) == Some(d@),
            None => decimal_at(payload@, pointer@) is None,
        },
{
    match string_at_pointer(payload, pointer) {
        Some(t) => Decimal::parse(t.as_str()),
        None => None,
    }
}

/// Reads the fields that kind `k` needs from `payload`. Amounts and property
/// versions must be strings of decimal digits (see `Decimal::parse`).
fn decode_payload(k: EventKind, payload: &str) -> (r: Option<TokenEvent>)
    ensures
        match r {
            Some(e) => decode_kind(k, payload@) == Some(e@) && e.wf(),
            None => decode_kind(k, payload@) is None,
        },
{
    let prefix = data_id_pointer_of(k);
    let creator = match string_at_path(payload, prefix, "/creator") {
        Some(v) => v,
        None => return None,
    };
    let collection = match string_at_path(payload, prefix, "/collection") {
        Some(v) => v,
        None => return None,
    };
    let name = match string_at_path(payload, prefix, "/name") {
        Some(v) => v,
        None => return None,
    };
    let property_version = match version_pointer_of(k) {
        Some(p) => match decimal_at_pointer(payload, p) {
            Some(d) => Some(d),
            None => return None,
        },
        None => None,
    };
    let amount = if k != EventKind::MutateTokenPropertyMapEvent {
        match decimal_at_pointer(payload, "/amount") {
            Some(d) => Some(d),
            None => return None,
        }
    } else {
        None
    };
    let recipient = k == EventKind::OfferTokenEvent || k == EventKind::CancelTokenOfferEvent || k
        == EventKind::ClaimTokenEvent;
    let to_address = if recipient {
        match string_at_pointer(payload, "/to_address") {
            Some(v) => Some(v),
            None => return None,
        }
    } else {
        None
    };
    let e = TokenEvent {
        kind: k,
        id: TokenDataIdType { creator, collection, name },
        property_version,
        amount,
        to_address,
    };
    Some(e)
}

} // verus!
