//! The typed domain model of the feed: sides of the book, event kinds, the
//! decoded events themselves, and the decoded message envelope.

use vstd::prelude::*;
use vstd::string::StrSliceExecFns;
use crate::decimal::{Dec, dec_wf, dec_small, dec_canonical, spec_mul, WIDE_MANTISSA_LIMIT};

verus! {

/// Which side of the order book a wire event speaks of. `Unknown` stands for
/// any side string the feed sends that the client does not recognize; it is a
/// valid outcome, never a decode failure.
#[derive(Clone, Copy, Debug, PartialEq, Eq, Structural)]
pub enum MarketSide {
    Bid,
    Ask,
    Unknown,
}

/// What `MarketSide::from_string` yields: the mapping is case-sensitive and
/// everything but "ask" and "bid" is `Unknown`.
pub open spec fn spec_side_of(s: Seq<char>) -> MarketSide {
    if s == "ask"@ {
        MarketSide::Ask
    } else if s == "bid"@ {
        MarketSide::Bid
    } else {
        MarketSide::Unknown
    }
}

/// Character-by-character string comparison, so that contracts can speak of
/// the character views of both strings.
fn str_eq(a: &str, b: &str) -> (r: bool)
    ensures
        r == (a@ == b@),
{
    let na = a.unicode_len();
    let nb = b.unicode_len();
    if na != nb {
        return false;
    }
    let mut i: usize = 0;
    while i < na
        invariant
            i <= na,
            na == a@.len(),
            na == b@.len(),
            forall|j: int| 0 <= j < i ==> a@[j] == b@[j],
        decreases na - i,
    {
        if a.get_char(i) != b.get_char(i) {
            return false;
        }
        i = i + 1;
    }
    assert(a@ =~= b@);
    true
}

impl MarketSide {
    pub fn from_string(message: &str) -> (side: MarketSide)
        ensures
            side == spec_side_of(message@),
    {
        if str_eq(message, "ask") {
            MarketSide::Ask
        } else if str_eq(message, "bid") {
            MarketSide::Bid
        } else {
            MarketSide::Unknown
        }
    }
}

/// The recognized wire event kinds. `Unknown` covers every `type` string the
/// client does not understand, for forward compatibility.
#[derive(Clone, Copy, Debug, PartialEq, Eq, Structural)]
pub enum MessageType {
    Trade,
    Change,
    Unknown,
}

/// What `MessageType::from_string` yields: "trade" and "change" are the only
/// recognized kinds.
pub open spec fn spec_kind_of(s: Seq<char>) -> MessageType {
    if s == "trade"@ {
        MessageType::Trade
    } else if s == "change"@ {
        MessageType::Change
    } else {
        MessageType::Unknown
    }
}

impl MessageType {
    pub fn from_string(message: &str) -> (kind: Self)
        ensures
            kind == spec_kind_of(message@),
    {
        if str_eq(message, "trade") {
            MessageType::Trade
        } else if str_eq(message, "change") {
            MessageType::Change
        } else {
            MessageType::Unknown
        }
    }
}

/// A decoded "change" event: one price level of the book changed.
#[derive(Debug)]
pub struct Quote {
    pub price: Dec,
    pub reason: String,
    pub remaining: Dec,
    pub side: MarketSide,
    pub delta: Option<Dec>,
}

/// A decoded "trade" event: a match happened at a price and quantity.
#[derive(Debug)]
pub struct Trade {
    pub price: Dec,
    pub amount: Dec,
    pub maker_side: MarketSide,
}

impl Trade {
    /// The notional value of the trade: its amount times its price, exact.
    pub fn notional(&self) -> (r: Dec)
        requires
            dec_small(self.amount),
            dec_small(self.price),
        ensures
            r == spec_mul(self.amount, self.price),
            dec_canonical(r),
            r.mantissa < WIDE_MANTISSA_LIMIT,
    {
        self.amount.mul(&self.price)
    }
}

/// A decoded wire event. `Unknown` carries no payload: it is the sentinel for
/// event kinds the client does not understand.
#[derive(Debug)]
pub enum Event {
    Trade(Trade),
    Quote(Quote),
    Unknown,
}

/// The decoded message envelope, events in wire order.
#[derive(Debug)]
pub struct MarketMessage {
    pub event_id: u64,
    pub events: Vec<Event>,
    pub timestamp: Option<u64>,
    pub timestampms: Option<u64>,
    pub socket_sequence: u32,
}

/// Why a decode call failed; see the decoder's contract for exactly when
/// each arises.
#[derive(Clone, Copy, Debug, PartialEq, Eq, Structural)]
pub enum DecodeError {
    /// The buffer is not one JSON document, or a mandatory envelope field
    /// (`events`, `eventId`, `socket_sequence`) is missing or mistyped.
    MalformedMessage,
    /// A mandatory per-event field is missing, mistyped, or does not parse
    /// as a decimal, or an optional decimal field is present but malformed.
    MalformedEventField,
}

pub open spec fn quote_wf(q: Quote) -> bool {
    &&& dec_wf(q.price)
    &&& dec_wf(q.remaining)
    &&& q.delta matches Some(d) ==> dec_wf(d)
}

pub open spec fn trade_wf(t: Trade) -> bool {
    dec_wf(t.price) && dec_wf(t.amount)
}

pub open spec fn event_wf(e: Event) -> bool {
    match e {
        Event::Trade(t) => trade_wf(t),
        Event::Quote(q) => quote_wf(q),
        Event::Unknown => true,
    }
}

pub open spec fn message_wf(m: MarketMessage) -> bool {
    forall|i: int| 0 <= i < m.events@.len() ==> event_wf(#[trigger] m.events@[i])
}

} // verus!
