use bbo_feed::bbo::BestBidOffer;
use bbo_feed::decimal::{parse_decimal, Dec};
use bbo_feed::decode::{decode_raw_event, RawEvent};
use bbo_feed::models::{DecodeError, Event, MarketSide, MessageType};

#[test]
fn side_from_string_is_case_sensitive() {
    assert_eq!(MarketSide::from_string("ask"), MarketSide::Ask);
    assert_eq!(MarketSide::from_string("bid"), MarketSide::Bid);
    assert_eq!(MarketSide::from_string("Ask"), MarketSide::Unknown);
    assert_eq!(MarketSide::from_string("BID"), MarketSide::Unknown);
    assert_eq!(MarketSide::from_string(""), MarketSide::Unknown);
    assert_eq!(MarketSide::from_string("auction"), MarketSide::Unknown);
}

#[test]
fn kind_from_string_recognizes_two_kinds() {
    assert_eq!(MessageType::from_string("trade"), MessageType::Trade);
    assert_eq!(MessageType::from_string("change"), MessageType::Change);
    assert_eq!(MessageType::from_string("liquidation"), MessageType::Unknown);
    assert_eq!(MessageType::from_string("Trade"), MessageType::Unknown);
    assert_eq!(MessageType::from_string(""), MessageType::Unknown);
}

#[test]
fn change_event_defaults() {
    let raw = br#"{"eventId":1,"socket_sequence":0,"events":[{"type":"change","price":"100.00"}]}"#;
    let m = Event::new(raw).unwrap();
    assert_eq!(m.events.len(), 1);
    match &m.events[0] {
        Event::Quote(q) => {
            assert_eq!(q.price, parse_decimal("100.00").unwrap());
            assert_eq!(q.reason, "");
            assert_eq!(q.remaining, Dec::zero());
            assert_eq!(q.side, MarketSide::Unknown);
            assert_eq!(q.delta, None);
        },
        _ => panic!("expected a quote"),
    }
}

#[test]
fn change_event_all_fields() {
    let raw = br#"{"eventId":7,"timestamp":1,"timestampms":1000,"socket_sequence":2,"events":[
        {"type":"change","price":"3601.25","reason":"place","remaining":"0.25","side":"ask","delta":"-0.5"}]}"#;
    let m = Event::new(raw).unwrap();
    assert_eq!(m.event_id, 7);
    assert_eq!(m.timestamp, Some(1));
    assert_eq!(m.timestampms, Some(1000));
    assert_eq!(m.socket_sequence, 2);
    match &m.events[0] {
        Event::Quote(q) => {
            assert_eq!(q.price, parse_decimal("3601.25").unwrap());
            assert_eq!(q.reason, "place");
            assert_eq!(q.remaining, parse_decimal("0.25").unwrap());
            assert_eq!(q.side, MarketSide::Ask);
            assert_eq!(q.delta, Some(parse_decimal("-0.5").unwrap()));
        },
        _ => panic!("expected a quote"),
    }
}

#[test]
fn unrecognized_type_is_tolerated() {
    let raw = br#"{"eventId":1,"socket_sequence":0,"events":[
        {"type":"change","price":"1.0","side":"bid","remaining":"2.0"},
        {"type":"liquidation","price":"9.9"},
        {"type":"trade","price":"2.0","amount":"3.0"}]}"#;
    let m = Event::new(raw).unwrap();
    assert_eq!(m.events.len(), 3);
    assert!(matches!(m.events[0], Event::Quote(_)));
    assert!(matches!(m.events[1], Event::Unknown));
    assert!(matches!(m.events[2], Event::Trade(_)));
}

#[test]
fn trade_notional() {
    let raw = br#"{"eventId":1,"socket_sequence":0,"events":[
        {"type":"trade","price":"100.50","amount":"2.0","makerSide":"bid"}]}"#;
    let m = Event::new(raw).unwrap();
    match &m.events[0] {
        Event::Trade(t) => {
            assert_eq!(t.price, parse_decimal("100.50").unwrap());
            assert_eq!(t.amount, parse_decimal("2.0").unwrap());
            assert_eq!(t.maker_side, MarketSide::Bid);
            assert_eq!(t.notional(), parse_decimal("201.00").unwrap());
        },
        _ => panic!("expected a trade"),
    }
}

#[test]
fn trade_maker_side_defaults_to_unknown() {
    let raw = br#"{"eventId":1,"socket_sequence":0,"events":[
        {"type":"trade","price":"1.0","amount":"1.0"}]}"#;
    let m = Event::new(raw).unwrap();
    match &m.events[0] {
        Event::Trade(t) => assert_eq!(t.maker_side, MarketSide::Unknown),
        _ => panic!("expected a trade"),
    }
}

#[test]
fn missing_events_is_malformed_message() {
    let raw = br#"{"eventId":1,"socket_sequence":0}"#;
    assert!(matches!(Event::new(raw), Err(DecodeError::MalformedMessage)));
}

#[test]
fn events_not_an_array_is_malformed_message() {
    let raw = br#"{"eventId":1,"socket_sequence":0,"events":"nope"}"#;
    assert!(matches!(Event::new(raw), Err(DecodeError::MalformedMessage)));
}

#[test]
fn invalid_json_is_malformed_message() {
    assert!(matches!(Event::new(b"not json"), Err(DecodeError::MalformedMessage)));
    assert!(matches!(Event::new(b"{"), Err(DecodeError::MalformedMessage)));
}

#[test]
fn missing_event_id_is_malformed_message() {
    let raw = br#"{"socket_sequence":0,"events":[]}"#;
    assert!(matches!(Event::new(raw), Err(DecodeError::MalformedMessage)));
}

#[test]
fn missing_socket_sequence_is_malformed_message() {
    let raw = br#"{"eventId":1,"events":[]}"#;
    assert!(matches!(Event::new(raw), Err(DecodeError::MalformedMessage)));
}

#[test]
fn oversized_socket_sequence_is_malformed_message() {
    let raw = br#"{"eventId":1,"socket_sequence":4294967296,"events":[]}"#;
    assert!(matches!(Event::new(raw), Err(DecodeError::MalformedMessage)));
}

#[test]
fn numeric_price_is_malformed_event_field() {
    let raw = br#"{"eventId":1,"socket_sequence":0,"events":[{"type":"change","price":100}]}"#;
    assert!(matches!(Event::new(raw), Err(DecodeError::MalformedEventField)));
}

#[test]
fn unparseable_price_is_malformed_event_field() {
    let raw = br#"{"eventId":1,"socket_sequence":0,"events":[{"type":"change","price":"x"}]}"#;
    assert!(matches!(Event::new(raw), Err(DecodeError::MalformedEventField)));
}

#[test]
fn trade_missing_amount_is_malformed_event_field() {
    let raw = br#"{"eventId":1,"socket_sequence":0,"events":[{"type":"trade","price":"1.0"}]}"#;
    assert!(matches!(Event::new(raw), Err(DecodeError::MalformedEventField)));
}

#[test]
fn bad_optional_remaining_is_malformed_event_field() {
    let raw = br#"{"eventId":1,"socket_sequence":0,"events":[
        {"type":"change","price":"1.0","remaining":"x"}]}"#;
    assert!(matches!(Event::new(raw), Err(DecodeError::MalformedEventField)));
}

#[test]
fn empty_events_array_decodes() {
    let raw = br#"{"eventId":1,"socket_sequence":0,"events":[]}"#;
    let m = Event::new(raw).unwrap();
    assert_eq!(m.events.len(), 0);
    assert_eq!(m.timestamp, None);
    assert_eq!(m.timestampms, None);
}

#[test]
fn mistyped_optional_fields_default() {
    // present with the wrong JSON type counts as absent for optional fields
    let raw = br#"{"eventId":1,"socket_sequence":0,"events":[
        {"type":"change","price":"1.0","reason":7,"remaining":false,"side":3,"delta":null}]}"#;
    let m = Event::new(raw).unwrap();
    match &m.events[0] {
        Event::Quote(q) => {
            assert_eq!(q.reason, "");
            assert_eq!(q.remaining, Dec::zero());
            assert_eq!(q.side, MarketSide::Unknown);
            assert_eq!(q.delta, None);
        },
        _ => panic!("expected a quote"),
    }
}

#[test]
fn raw_event_missing_kind_is_malformed() {
    let raw = RawEvent {
        kind: None,
        price: Some("1.0".to_string()),
        reason: None,
        remaining: None,
        side: None,
        delta: None,
        amount: None,
        maker_side: None,
    };
    assert!(matches!(decode_raw_event(&raw), Err(DecodeError::MalformedEventField)));
}

#[test]
fn raw_event_missing_price_is_malformed() {
    let raw = RawEvent {
        kind: Some("liquidation".to_string()),
        price: None,
        reason: None,
        remaining: None,
        side: None,
        delta: None,
        amount: None,
        maker_side: None,
    };
    assert!(matches!(decode_raw_event(&raw), Err(DecodeError::MalformedEventField)));
}

#[test]
fn sequence_example() {
    let raw = br#"{"eventId":1,"socket_sequence":0,"events":[
        {"type":"change","side":"bid","price":"50000.00","remaining":"1.5"},
        {"type":"change","side":"ask","price":"50010.00","remaining":"0.8"}]}"#;
    let m = Event::new(raw).unwrap();
    let mut b = BestBidOffer::new();
    for e in &m.events {
        match e {
            Event::Quote(q) => {
                b.apply(q);
            },
            _ => panic!("expected quotes only"),
        }
    }
    assert_eq!(b.best_bid, parse_decimal("50000.00").unwrap());
    assert_eq!(b.bid_amount_remaining, parse_decimal("1.5").unwrap());
    assert_eq!(b.best_offer, parse_decimal("50010.00").unwrap());
    assert_eq!(b.ask_amount_remaining, parse_decimal("0.8").unwrap());
}
