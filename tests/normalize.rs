use token_activities::activity::{Event, NormalizeError, Timestamp, TokenActivity, Transaction};
use token_activities::address::standardize_address;
use token_activities::decimal::Decimal;
use token_activities::event::{classify, EventKind, TokenEvent};
use token_activities::identifier::{hash_str, hex_encode, truncate_str, CompositeIdentifier};

const MINT_TAG: &str = "0x3::token::MintTokenEvent";
const DEPOSIT_TAG: &str = "0x3::token::DepositEvent";
const OFFER_TAG: &str = "0x3::token_transfers::TokenOfferEvent";
const MUTATE_TAG: &str = "0x3::token::MutateTokenPropertyMapEvent";

fn padded(body: &str) -> String {
    format!("0x{}{}", "0".repeat(64 - body.len()), body)
}

fn event(tag: &str, data: &str, account: &str, creation: i64, sequence: i64) -> Event {
    Event {
        type_str: tag.to_string(),
        data: data.to_string(),
        account_address: account.to_string(),
        creation_number: creation,
        sequence_number: sequence,
    }
}

fn user_txn(events: Vec<Event>) -> Transaction {
    Transaction {
        version: 42,
        timestamp: Some(Timestamp { seconds: 1_700_000_000, nanos: 5 }),
        user_events: Some(events),
    }
}

fn mint_payload() -> String {
    r#"{"amount":"5","id":{"creator":"0xabc","collection":"Swords","name":"Excalibur"}}"#
        .to_string()
}

fn token_payload() -> String {
    r#"{"amount":"1","id":{"token_data_id":{"creator":"0xabc","collection":"Swords","name":"Excalibur"},"property_version":"0"}}"#
        .to_string()
}

fn sword(version: &str) -> CompositeIdentifier {
    CompositeIdentifier {
        creator_address: "0xabc".to_string(),
        collection_name: "Swords".to_string(),
        token_name: "Excalibur".to_string(),
        property_version: Decimal::parse(version).unwrap(),
    }
}

#[test]
fn mint_event_becomes_activity() {
    let txn = user_txn(vec![event(MINT_TAG, &mint_payload(), "0xabc", 3, 7)]);
    let acts = TokenActivity::from_transaction(&txn).unwrap();
    assert_eq!(acts.len(), 1);
    let a = &acts[0];
    assert_eq!(a.from_address, Some(padded("abc")));
    assert_eq!(a.to_address, None);
    assert_eq!(a.token_amount.to_text(), "5");
    assert_eq!(a.property_version.to_text(), "0");
    assert_eq!(a.transfer_type, MINT_TAG);
    assert_eq!(a.transaction_version, 42);
    assert_eq!(a.event_account_address, padded("abc"));
    assert_eq!(a.event_creation_number, 3);
    assert_eq!(a.event_sequence_number, 7);
    assert_eq!(a.creator_address, padded("abc"));
    assert_eq!(a.collection_name, "Swords");
    assert_eq!(a.name, "Excalibur");
    assert_eq!(a.coin_type, None);
    assert_eq!(a.coin_amount, None);
    assert_eq!(a.event_index, Some(0));
    assert_eq!(a.transaction_timestamp, Timestamp { seconds: 1_700_000_000, nanos: 5 });
    assert_eq!(a.token_data_id_hash, sword("0").token_hash());
    assert_eq!(a.collection_data_id_hash, sword("0").collection_hash());
    assert_eq!(a.token_data_id_hash.len(), 64);
}

#[test]
fn deposit_event_sets_only_recipient() {
    let txn = user_txn(vec![event(DEPOSIT_TAG, &token_payload(), "0xdef", 1, 2)]);
    let acts = TokenActivity::from_transaction(&txn).unwrap();
    assert_eq!(acts.len(), 1);
    assert_eq!(acts[0].from_address, None);
    assert_eq!(acts[0].to_address, Some(padded("def")));
    assert_eq!(acts[0].token_amount.to_text(), "1");
    assert_eq!(acts[0].transfer_type, DEPOSIT_TAG);
}

#[test]
fn non_user_transaction_fails() {
    let txn = Transaction {
        version: 1,
        timestamp: Some(Timestamp { seconds: 0, nanos: 0 }),
        user_events: None,
    };
    assert_eq!(TokenActivity::from_transaction(&txn), Err(NormalizeError::NotUserTransaction));
}

#[test]
fn missing_timestamp_fails() {
    let txn = Transaction { version: 1, timestamp: None, user_events: Some(vec![]) };
    assert_eq!(TokenActivity::from_transaction(&txn), Err(NormalizeError::MissingTimestamp));
}

#[test]
fn out_of_range_timestamp_fails_on_token_event() {
    let mut txn = user_txn(vec![event(MINT_TAG, &mint_payload(), "0xabc", 0, 0)]);
    txn.timestamp = Some(Timestamp { seconds: i64::MAX, nanos: 0 });
    assert_eq!(TokenActivity::from_transaction(&txn), Err(NormalizeError::TimestampOutOfRange));
}

#[test]
fn leap_second_nanos_only_in_last_second_of_minute() {
    let mut txn = user_txn(vec![event(MINT_TAG, &mint_payload(), "0xabc", 0, 0)]);
    txn.timestamp = Some(Timestamp { seconds: 1_700_000_039, nanos: 1_500_000_000 });
    assert!(TokenActivity::from_transaction(&txn).is_ok());
    txn.timestamp = Some(Timestamp { seconds: 1_700_000_000, nanos: 1_500_000_000 });
    assert_eq!(TokenActivity::from_transaction(&txn), Err(NormalizeError::TimestampOutOfRange));
    txn.timestamp = Some(Timestamp { seconds: 1_700_000_039, nanos: 2_000_000_000 });
    assert_eq!(TokenActivity::from_transaction(&txn), Err(NormalizeError::TimestampOutOfRange));
}

#[test]
fn replacing_event_by_unrecognized_drops_only_its_record() {
    let events = vec![
        event(MINT_TAG, &mint_payload(), "0xabc", 0, 0),
        event(DEPOSIT_TAG, &token_payload(), "0xdef", 1, 0),
        event(MINT_TAG, &mint_payload(), "0xabc", 2, 0),
    ];
    let t1 = user_txn(events.clone());
    let mut changed = events;
    changed[1] = event("0x1::coin::DepositEvent", "{}", "0xdef", 1, 0);
    let t2 = user_txn(changed);
    let r1 = TokenActivity::from_transaction(&t1).unwrap();
    let r2 = TokenActivity::from_transaction(&t2).unwrap();
    let expected: Vec<TokenActivity> =
        r1.into_iter().filter(|a| a.event_index != Some(1)).collect();
    assert_eq!(r2, expected);
    assert_eq!(r2[1].event_index, Some(2));
}

#[test]
fn empty_transaction_gives_no_activities() {
    let txn = user_txn(vec![]);
    assert_eq!(TokenActivity::from_transaction(&txn), Ok(vec![]));
}

#[test]
fn only_unrecognized_events_give_no_activities() {
    let txn = user_txn(vec![
        event("0x1::coin::DepositEvent", r#"{"amount":"3"}"#, "0x1", 0, 0),
        event("0x1::account::CoinRegisterEvent", "not json", "0x1", 1, 0),
    ]);
    assert_eq!(TokenActivity::from_transaction(&txn), Ok(vec![]));
}

#[test]
fn skipped_events_keep_later_positions() {
    let txn = user_txn(vec![
        event("0x1::coin::WithdrawEvent", "{}", "0x1", 0, 0),
        event(MINT_TAG, &mint_payload(), "0xabc", 1, 0),
        event("0x1::coin::DepositEvent", "{}", "0x1", 2, 0),
        event("0x3::token::OtherEvent", "{}", "0x1", 3, 0),
        event(DEPOSIT_TAG, &token_payload(), "0xdef", 4, 0),
    ]);
    let acts = TokenActivity::from_transaction(&txn).unwrap();
    let indices: Vec<Option<i64>> = acts.iter().map(|a| a.event_index).collect();
    assert_eq!(indices, vec![Some(1), Some(4)]);
    assert_eq!(acts[0].transfer_type, MINT_TAG);
    assert_eq!(acts[1].transfer_type, DEPOSIT_TAG);
}

#[test]
fn malformed_payload_of_recognized_tag_fails() {
    let txn = user_txn(vec![
        event(MINT_TAG, &mint_payload(), "0xabc", 0, 0),
        event(DEPOSIT_TAG, r#"{"amount":"1"}"#, "0xdef", 1, 0),
    ]);
    assert_eq!(
        TokenActivity::from_transaction(&txn),
        Err(NormalizeError::MalformedEvent { index: 1, kind: EventKind::DepositTokenEvent })
    );
}

#[test]
fn non_numeric_amount_is_malformed() {
    let payload = r#"{"amount":"1.5","id":{"creator":"0xabc","collection":"S","name":"E"}}"#;
    assert_eq!(TokenEvent::from_event(MINT_TAG, payload), Err(EventKind::MintTokenEvent));
}

#[test]
fn offer_event_names_recipient() {
    let payload = r#"{"amount":"2","to_address":"0x12","token_id":{"token_data_id":{"creator":"0xabc","collection":"Swords","name":"Excalibur"},"property_version":"3"}}"#;
    let txn = user_txn(vec![event(OFFER_TAG, payload, "0x34", 0, 0)]);
    let acts = TokenActivity::from_transaction(&txn).unwrap();
    assert_eq!(acts[0].from_address, Some(padded("34")));
    assert_eq!(acts[0].to_address, Some(padded("12")));
    assert_eq!(acts[0].property_version.to_text(), "3");
    assert_eq!(acts[0].token_amount.to_text(), "2");
    assert_eq!(acts[0].token_data_id_hash, sword("3").token_hash());
}

#[test]
fn property_mutation_has_zero_amount() {
    let payload = r#"{"old_id":{"token_data_id":{"creator":"0xabc","collection":"Swords","name":"Excalibur"},"property_version":"0"},"new_id":{"token_data_id":{"creator":"0xabc","collection":"Swords","name":"Excalibur"},"property_version":"1"},"keys":[],"values":[],"types":[]}"#;
    let txn = user_txn(vec![event(MUTATE_TAG, payload, "0xabc", 0, 0)]);
    let acts = TokenActivity::from_transaction(&txn).unwrap();
    assert_eq!(acts[0].token_amount.to_text(), "0");
    assert_eq!(acts[0].property_version.to_text(), "1");
    assert_eq!(acts[0].from_address, Some(padded("abc")));
    assert_eq!(acts[0].to_address, None);
}

#[test]
fn unknown_tag_is_not_classified() {
    assert_eq!(classify("0x3::token::MintTokenEvent"), Some(EventKind::MintTokenEvent));
    assert_eq!(classify("0x3::token::MintTokenEvent "), None);
    assert_eq!(TokenEvent::from_event("0x1::coin::DepositEvent", "garbage"), Ok(None));
}

#[test]
fn canonicalize_pads_and_is_idempotent() {
    let once = standardize_address("0xabc");
    assert_eq!(once, padded("abc"));
    assert_eq!(standardize_address(&once), once);
    assert_eq!(standardize_address("abc"), padded("abc"));
    assert_eq!(standardize_address("0xABC"), padded("abc"));
    assert_eq!(standardize_address("0xAbC"), standardize_address("0xabc"));
    let long = format!("0x{}", "f".repeat(70));
    assert_eq!(standardize_address(&long), long);
}

#[test]
fn equal_identifiers_hash_equally() {
    let a = sword("0");
    let mut b = sword("0");
    b.creator_address = padded("abc");
    assert_eq!(a.token_hash(), b.token_hash());
    assert_eq!(a.collection_hash(), b.collection_hash());
    assert_ne!(a.token_hash(), sword("1").token_hash());
    let mut c = sword("0");
    c.token_name = "Durendal".to_string();
    assert_ne!(a.token_hash(), c.token_hash());
    assert_eq!(a.collection_hash(), c.collection_hash());
}

#[test]
fn fields_containing_separators_hash_apart() {
    let mut a = sword("0");
    a.collection_name = "x::y".to_string();
    a.token_name = "z".to_string();
    let mut b = sword("0");
    b.collection_name = "x".to_string();
    b.token_name = "y::z".to_string();
    assert_ne!(a.token_hash(), b.token_hash());
    let mut c = sword("0");
    c.creator_address = format!("0x{}::q", "1".repeat(64));
    c.collection_name = "r".to_string();
    let mut d = sword("0");
    d.creator_address = format!("0x{}", "1".repeat(64));
    d.collection_name = "q::r".to_string();
    assert_ne!(c.collection_hash(), d.collection_hash());
}

#[test]
fn upper_case_creator_hashes_like_lower_case() {
    let mut a = sword("0");
    a.creator_address = "0xABC".to_string();
    assert_eq!(a.token_hash(), sword("0").token_hash());
    assert_eq!(a.get_creator_address(), padded("abc"));
}

#[test]
fn hash_is_sha3_hex() {
    assert_eq!(
        hash_str(""),
        "a7ffc6f8bf1ed76651c14756a061d662f580ff4de43b49fa82d80a4b80f8434a"
    );
    assert_eq!(hex_encode(&vec![0x00, 0xab, 0x7f]), "00ab7f");
}

#[test]
fn decimal_parse_is_canonical() {
    assert_eq!(Decimal::parse("007").unwrap().to_text(), "7");
    assert_eq!(Decimal::parse("000").unwrap().to_text(), "0");
    assert_eq!(
        Decimal::parse("123456789012345678901234567890").unwrap().to_text(),
        "123456789012345678901234567890"
    );
    assert_eq!(Decimal::parse(""), None);
    assert_eq!(Decimal::parse("-1"), None);
    assert_eq!(Decimal::zero().to_text(), "0");
}

#[test]
fn long_names_are_truncated_on_char_boundaries() {
    let name = "x".repeat(200);
    assert_eq!(truncate_str(&name, 128).len(), 128);
    let wide = "é".repeat(100);
    let cut = truncate_str(&wide, 128);
    assert_eq!(cut.len(), 128);
    assert_eq!(cut.chars().count(), 64);
    let odd = format!("a{}", "é".repeat(100));
    assert_eq!(truncate_str(&odd, 128).len(), 127);
    let mut id = sword("0");
    id.collection_name = name.clone();
    assert_eq!(id.truncated_collection_name(), "x".repeat(128));
    assert_eq!(id.truncated_token_name(), "Excalibur");
}

#[test]
fn truncation_does_not_change_hash_inputs() {
    let mut long = sword("0");
    long.collection_name = "c".repeat(200);
    let mut cut = sword("0");
    cut.collection_name = "c".repeat(128);
    assert_eq!(long.truncated_collection_name(), cut.truncated_collection_name());
    assert_ne!(long.collection_hash(), cut.collection_hash());
}
