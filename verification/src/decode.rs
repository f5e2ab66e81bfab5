//! The event decoder: a raw message buffer is parsed into a generic JSON
//! value, the relevant fields are pulled out as plain optional values, and
//! every default-or-fail decision from there on is verified against an exact
//! statement of the wire rules. The JSON library's results are named in
//! `crate::json`, so the whole decode is specified as a function of the
//! input bytes.

use vstd::prelude::*;
use crate::decimal::{Dec, dec_zero, spec_parse_dec, parse_decimal};
use crate::models::{
    MarketSide, MessageType, Quote, Trade, Event, MarketMessage, DecodeError, spec_side_of,
    spec_kind_of, event_wf, message_wf,
};
use crate::json::{
    parse_json, json_get, json_as_string, json_as_u64, json_as_array, json_parses, json_doc,
    json_field, json_string, json_integer, json_elements,
};

verus! {

/// The plain field values one wire event object may carry: each is the
/// field's text if it was present as a JSON string, and nothing otherwise.
#[derive(Debug)]
pub struct RawEvent {
    pub kind: Option<String>,
    pub price: Option<String>,
    pub reason: Option<String>,
    pub remaining: Option<String>,
    pub side: Option<String>,
    pub delta: Option<String>,
    pub amount: Option<String>,
    pub maker_side: Option<String>,
}

/// The plain field values of the message envelope: the integer fields if
/// present as integers, and the per-event fields of each element of the
/// `events` array if that array was present.
#[derive(Debug)]
pub struct RawMessage {
    pub event_id: Option<u64>,
    pub timestamp: Option<u64>,
    pub timestampms: Option<u64>,
    pub socket_sequence: Option<u64>,
    pub events: Option<Vec<RawEvent>>,
}

/// The texts of one event object's fields. The decoding rules are stated
/// over this record, which both an extracted `RawEvent` and the named model
/// of a JSON document project to.
pub struct EventText {
    pub kind: Option<Seq<char>>,
    pub price: Option<Seq<char>>,
    pub reason: Option<Seq<char>>,
    pub remaining: Option<Seq<char>>,
    pub side: Option<Seq<char>>,
    pub delta: Option<Seq<char>>,
    pub amount: Option<Seq<char>>,
    pub maker_side: Option<Seq<char>>,
}

/// The fields of the message envelope, as the decoding rules see them.
pub struct MessageText {
    pub event_id: Option<u64>,
    pub timestamp: Option<u64>,
    pub timestampms: Option<u64>,
    pub socket_sequence: Option<u64>,
    pub events: Option<Seq<EventText>>,
}

/// The text of an optional extracted field.
pub open spec fn text_opt(o: Option<String>) -> Option<Seq<char>> {
    match o {
        Some(s) => Some(s@),
        None => None,
    }
}

/// What an extracted event record says.
pub open spec fn event_text_of_raw(raw: RawEvent) -> EventText {
    EventText {
        kind: text_opt(raw.kind),
        price: text_opt(raw.price),
        reason: text_opt(raw.reason),
        remaining: text_opt(raw.remaining),
        side: text_opt(raw.side),
        delta: text_opt(raw.delta),
        amount: text_opt(raw.amount),
        maker_side: text_opt(raw.maker_side),
    }
}

/// The text a JSON object holds under a key, through the named model.
pub open spec fn spec_string_field(v: serde_json::Value, key: Seq<char>) -> Option<Seq<char>> {
    match json_field(v, key) {
        Some(f) => json_string(f),
        None => None,
    }
}

/// The integer a JSON object holds under a key, through the named model.
pub open spec fn spec_u64_field(v: serde_json::Value, key: Seq<char>) -> Option<u64> {
    match json_field(v, key) {
        Some(f) => json_integer(f),
        None => None,
    }
}

/// The elements of the `events` array of a document, if it is there as one.
pub open spec fn spec_events_of_doc(v: serde_json::Value) -> Option<Seq<serde_json::Value>> {
    match json_field(v, "events"@) {
        Some(f) => json_elements(f),
        None => None,
    }
}

/// What one element of a document's events array says.
pub open spec fn event_text_of_doc(v: serde_json::Value) -> EventText {
    EventText {
        kind: spec_string_field(v, "type"@),
        price: spec_string_field(v, "price"@),
        reason: spec_string_field(v, "reason"@),
        remaining: spec_string_field(v, "remaining"@),
        side: spec_string_field(v, "side"@),
        delta: spec_string_field(v, "delta"@),
        amount: spec_string_field(v, "amount"@),
        maker_side: spec_string_field(v, "makerSide"@),
    }
}

pub open spec fn texts_of_raw_events(evs: Seq<RawEvent>) -> Seq<EventText> {
    Seq::new(evs.len(), |i: int| event_text_of_raw(evs[i]))
}

pub open spec fn texts_of_doc_events(arr: Seq<serde_json::Value>) -> Seq<EventText> {
    Seq::new(arr.len(), |i: int| event_text_of_doc(arr[i]))
}

/// What an extracted envelope record says.
pub open spec fn message_text_of_raw(raw: RawMessage) -> MessageText {
    MessageText {
        event_id: raw.event_id,
        timestamp: raw.timestamp,
        timestampms: raw.timestampms,
        socket_sequence: raw.socket_sequence,
        events: match raw.events {
            Some(evs) => Some(texts_of_raw_events(evs@)),
            None => None,
        },
    }
}

/// What a parsed document says, through the named model.
pub open spec fn message_text_of_doc(v: serde_json::Value) -> MessageText {
    MessageText {
        event_id: spec_u64_field(v, "eventId"@),
        timestamp: spec_u64_field(v, "timestamp"@),
        timestampms: spec_u64_field(v, "timestampms"@),
        socket_sequence: spec_u64_field(v, "socket_sequence"@),
        events: match spec_events_of_doc(v) {
            Some(arr) => Some(texts_of_doc_events(arr)),
            None => None,
        },
    }
}

/// When the optional decimal fields of a "change" event are each either
/// absent or parseable.
pub open spec fn change_fields_ok(t: EventText) -> bool {
    &&& t.remaining matches Some(s) ==> spec_parse_dec(s) is Some
    &&& t.delta matches Some(s) ==> spec_parse_dec(s) is Some
}

/// When the mandatory amount of a "trade" event is present and parseable.
pub open spec fn trade_fields_ok(t: EventText) -> bool {
    t.amount matches Some(s) && spec_parse_dec(s) is Some
}

/// When one event decodes without fault: price and kind are mandatory for
/// every event, and the recognized kinds add their own demands.
pub open spec fn event_fields_ok(t: EventText) -> bool {
    &&& t.price is Some
    &&& spec_parse_dec(t.price->Some_0) is Some
    &&& t.kind is Some
    &&& (spec_kind_of(t.kind->Some_0) == MessageType::Change ==> change_fields_ok(t))
    &&& (spec_kind_of(t.kind->Some_0) == MessageType::Trade ==> trade_fields_ok(t))
}

/// Exactly the event a faultless set of fields decodes to: a "change"
/// builds a quote with each absent optional field defaulted, a "trade"
/// builds a trade, and any other kind is the unknown sentinel.
pub open spec fn event_decodes_to(t: EventText, ev: Event) -> bool {
    let price = spec_parse_dec(t.price->Some_0)->Some_0;
    match spec_kind_of(t.kind->Some_0) {
        MessageType::Change => ev matches Event::Quote(q) && q.price == price && q.reason@ == (
        match t.reason {
            Some(s) => s,
            None => Seq::<char>::empty(),
        }) && q.remaining == (match t.remaining {
            Some(s) => spec_parse_dec(s)->Some_0,
            None => dec_zero(),
        }) && q.side == (match t.side {
            Some(s) => spec_side_of(s),
            None => MarketSide::Unknown,
        }) && q.delta == (match t.delta {
            Some(s) => Some(spec_parse_dec(s)->Some_0),
            None => None::<Dec>,
        }),
        MessageType::Trade => ev matches Event::Trade(tr) && tr.price == price && tr.amount
            == spec_parse_dec(t.amount->Some_0)->Some_0 && tr.maker_side == (
        match t.maker_side {
            Some(s) => spec_side_of(s),
            None => MarketSide::Unknown,
        }),
        MessageType::Unknown => ev is Unknown,
    }
}

/// Decode one event from its extracted field values: the verified core of
/// the per-event dispatch. Decimal fields follow the wire decimal grammar
/// of `crate::decimal`; other numeric notations are faults.
pub fn decode_raw_event(raw: &RawEvent) -> (r: Result<Event, DecodeError>)
    ensures
        r is Ok <==> event_fields_ok(event_text_of_raw(*raw)),
        r matches Ok(ev) ==> event_decodes_to(event_text_of_raw(*raw), ev) && event_wf(ev),
        r is Err ==> r == Err::<Event, DecodeError>(DecodeError::MalformedEventField),
{
    let price = match &raw.price {
        Some(p) => match parse_decimal(p.as_str()) {
            Some(d) => d,
            None => {
                return Err(DecodeError::MalformedEventField);
            },
        },
        None => {
            return Err(DecodeError::MalformedEventField);
        },
    };
    let kind = match &raw.kind {
        Some(k) => MessageType::from_string(k.as_str()),
        None => {
            return Err(DecodeError::MalformedEventField);
        },
    };
    match kind {
        MessageType::Change => {
            let remaining = match &raw.remaining {
                Some(s) => match parse_decimal(s.as_str()) {
                    Some(d) => d,
                    None => {
                        return Err(DecodeError::MalformedEventField);
                    },
                },
                None => Dec::zero(),
            };
            let delta = match &raw.delta {
                Some(s) => match parse_decimal(s.as_str()) {
                    Some(d) => Some(d),
                    None => {
                        return Err(DecodeError::MalformedEventField);
                    },
                },
                None => None,
            };
            let side = match &raw.side {
                Some(s) => MarketSide::from_string(s.as_str()),
                None => MarketSide::Unknown,
            };
            let reason = match &raw.reason {
                Some(s) => s.clone(),
                None => String::new(),
            };
            Ok(Event::Quote(Quote { price, reason, remaining, side, delta }))
        },
        MessageType::Trade => {
            let amount = match &raw.amount {
                Some(s) => match parse_decimal(s.as_str()) {
                    Some(d) => d,
                    None => {
                        return Err(DecodeError::MalformedEventField);
                    },
                },
                None => {
                    return Err(DecodeError::MalformedEventField);
                },
            };
            let maker_side = match &raw.maker_side {
                Some(s) => MarketSide::from_string(s.as_str()),
                None => MarketSide::Unknown,
            };
            Ok(Event::Trade(Trade { price, amount, maker_side }))
        },
        MessageType::Unknown => Ok(Event::Unknown),
    }
}

/// Tolerance for unrecognized kinds: an event whose `type` string is
/// neither "trade" nor "change" decodes, to the unknown sentinel, as long
/// as its mandatory price is in order; none of its other fields matter.
pub proof fn lemma_unknown_kind_tolerated(t: EventText, ev: Event)
    requires
        t.price is Some,
        spec_parse_dec(t.price->Some_0) is Some,
        t.kind is Some,
        spec_kind_of(t.kind->Some_0) == MessageType::Unknown,
    ensures
        event_fields_ok(t),
        event_decodes_to(t, ev) <==> ev is Unknown,
{
}

/// Defaulting of absent optional fields: a "change" event carrying none of
/// them decodes to a quote with empty reason, zero remaining, unknown side
/// and no delta.
pub proof fn lemma_change_defaults(t: EventText, q: Quote)
    requires
        t.kind is Some,
        spec_kind_of(t.kind->Some_0) == MessageType::Change,
        t.price is Some,
        spec_parse_dec(t.price->Some_0) is Some,
        t.reason is None,
        t.remaining is None,
        t.side is None,
        t.delta is None,
        event_decodes_to(t, Event::Quote(q)),
    ensures
        q.price == spec_parse_dec(t.price->Some_0)->Some_0,
        q.reason@ == Seq::<char>::empty(),
        q.remaining == dec_zero(),
        q.side == MarketSide::Unknown,
        q.delta is None,
{
}

/// When every event of an events array decodes without fault.
pub open spec fn all_events_ok(evs: Seq<EventText>) -> bool {
    forall|i: int| 0 <= i < evs.len() ==> event_fields_ok(#[trigger] evs[i])
}

/// When an envelope decodes without fault: the events array exists and
/// decodes, and the mandatory integers are present, the sequence number
/// fitting 32 bits.
pub open spec fn message_ok(mt: MessageText) -> bool {
    &&& mt.events is Some
    &&& all_events_ok(mt.events->Some_0)
    &&& mt.event_id is Some
    &&& mt.socket_sequence is Some
    &&& mt.socket_sequence->Some_0 <= u32::MAX
}

/// Which error a faulty envelope yields: a bad event inside an existing
/// events array is the event's fault, anything else the envelope's.
pub open spec fn message_error(mt: MessageText) -> DecodeError {
    if mt.events is Some && !all_events_ok(mt.events->Some_0) {
        DecodeError::MalformedEventField
    } else {
        DecodeError::MalformedMessage
    }
}

/// Exactly the envelope a faultless message decodes to, the events in wire
/// order.
pub open spec fn message_decodes_to(mt: MessageText, m: MarketMessage) -> bool {
    &&& m.event_id == mt.event_id->Some_0
    &&& m.timestamp == mt.timestamp
    &&& m.timestampms == mt.timestampms
    &&& m.socket_sequence == mt.socket_sequence->Some_0 as u32
    &&& m.events@.len() == mt.events->Some_0.len()
    &&& forall|i: int|
        0 <= i < m.events@.len() ==> event_decodes_to(
            mt.events->Some_0[i],
            #[trigger] m.events@[i],
        )
}

/// Decode the envelope from its extracted field values: the verified core
/// of the message-level rules.
pub fn decode_raw_message(raw: RawMessage) -> (r: Result<MarketMessage, DecodeError>)
    ensures
        r is Ok <==> message_ok(message_text_of_raw(raw)),
        r matches Ok(m) ==> message_decodes_to(message_text_of_raw(raw), m) && message_wf(m),
        r matches Err(e) ==> e == message_error(message_text_of_raw(raw)),
{
    let RawMessage { event_id, timestamp, timestampms, socket_sequence, events } = raw;
    let events_in = match events {
        Some(v) => v,
        None => {
            return Err(DecodeError::MalformedMessage);
        },
    };
    let mut decoded: Vec<Event> = Vec::new();
    let mut idx: usize = 0;
    while idx < events_in.len()
        invariant
            idx <= events_in.len(),
            decoded@.len() == idx,
            raw.events is Some,
            events_in == raw.events->Some_0,
            forall|i: int|
                0 <= i < idx ==> event_fields_ok(#[trigger] texts_of_raw_events(events_in@)[i]),
            forall|i: int|
                0 <= i < idx ==> event_decodes_to(
                    texts_of_raw_events(events_in@)[i],
                    #[trigger] decoded@[i],
                ) && event_wf(decoded@[i]),
        decreases events_in.len() - idx,
    {
        proof {
            assert(texts_of_raw_events(events_in@)[idx as int] == event_text_of_raw(
                events_in@[idx as int],
            ));
        }
        match decode_raw_event(&events_in[idx]) {
            Ok(ev) => {
                decoded.push(ev);
            },
            Err(e) => {
                proof {
                    assert(!event_fields_ok(texts_of_raw_events(events_in@)[idx as int]));
                    assert(!all_events_ok(texts_of_raw_events(events_in@)));
                }
                return Err(e);
            },
        }
        idx = idx + 1;
    }
    let event_id = match event_id {
        Some(x) => x,
        None => {
            return Err(DecodeError::MalformedMessage);
        },
    };
    let socket_sequence = match socket_sequence {
        Some(x) => {
            if x <= u32::MAX as u64 {
                x as u32
            } else {
                return Err(DecodeError::MalformedMessage);
            }
        },
        None => {
            return Err(DecodeError::MalformedMessage);
        },
    };
    Ok(MarketMessage { event_id, events: decoded, timestamp, timestampms, socket_sequence })
}

/// Pull one field out as text, if it is there as a JSON string.
fn get_string_field(v: &serde_json::Value, key: &str) -> (r: Option<String>)
    ensures
        text_opt(r) == spec_string_field(*v, key@),
{
    match json_get(v, key) {
        Some(f) => json_as_string(f),
        None => None,
    }
}

/// Pull one field out as an integer, if it is there as one.
fn get_u64_field(v: &serde_json::Value, key: &str) -> (r: Option<u64>)
    ensures
        r == spec_u64_field(*v, key@),
{
    match json_get(v, key) {
        Some(f) => json_as_u64(f),
        None => None,
    }
}

/// Extract the per-event fields of one element of the events array.
fn read_event_fields(v: &serde_json::Value) -> (raw: RawEvent)
    ensures
        event_text_of_raw(raw) == event_text_of_doc(*v),
{
    RawEvent {
        kind: get_string_field(v, "type"),
        price: get_string_field(v, "price"),
        reason: get_string_field(v, "reason"),
        remaining: get_string_field(v, "remaining"),
        side: get_string_field(v, "side"),
        delta: get_string_field(v, "delta"),
        amount: get_string_field(v, "amount"),
        maker_side: get_string_field(v, "makerSide"),
    }
}

/// Extract the envelope fields of a parsed message.
fn read_message_fields(v: &serde_json::Value) -> (raw: RawMessage)
    ensures
        message_text_of_raw(raw) == message_text_of_doc(*v),
{
    let events = match json_get(v, "events") {
        Some(f) => match json_as_array(f) {
            Some(arr) => {
                let mut evs: Vec<RawEvent> = Vec::new();
                let mut i: usize = 0;
                while i < arr.len()
                    invariant
                        i <= arr.len(),
                        evs@.len() == i,
                        Some(arr@) == spec_events_of_doc(*v),
                        forall|k: int|
                            0 <= k < i ==> event_text_of_raw(#[trigger] evs@[k])
                                == event_text_of_doc(arr@[k]),
                    decreases arr.len() - i,
                {
                    let re = read_event_fields(&arr[i]);
                    evs.push(re);
                    i = i + 1;
                }
                proof {
                    assert(texts_of_raw_events(evs@) =~= texts_of_doc_events(arr@));
                }
                Some(evs)
            },
            None => None,
        },
        None => None,
    };
    RawMessage {
        event_id: get_u64_field(v, "eventId"),
        timestamp: get_u64_field(v, "timestamp"),
        timestampms: get_u64_field(v, "timestampms"),
        socket_sequence: get_u64_field(v, "socket_sequence"),
        events,
    }
}

impl Event {
    /// Decode one raw message buffer: parse it as one JSON document, pull
    /// the envelope and per-event fields out, and apply the verified
    /// decoding rules. The contract is a function of the bytes through the
    /// named JSON model: a buffer that is no document fails as a malformed
    /// message, and otherwise the result is exactly what the document's
    /// fields demand, per `message_ok`, `message_decodes_to` and
    /// `message_error`.
    pub fn new(message: &[u8]) -> (r: Result<MarketMessage, DecodeError>)
        ensures
            ({
                let mt = message_text_of_doc(json_doc(message@));
                &&& (r is Ok <==> json_parses(message@) && message_ok(mt))
                &&& (r matches Ok(m) ==> message_decodes_to(mt, m) && message_wf(m))
                &&& (r matches Err(e) ==> e == if !json_parses(message@) {
                    DecodeError::MalformedMessage
                } else {
                    message_error(mt)
                })
            }),
    {
        let parsed = match parse_json(message) {
            Some(v) => v,
            None => {
                return Err(DecodeError::MalformedMessage);
            },
        };
        let raw = read_message_fields(&parsed);
        decode_raw_message(raw)
    }
}

} // verus!
