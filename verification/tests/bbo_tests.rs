use bbo_feed::bbo::{BestBidOffer, SharedBbo};
use bbo_feed::decimal::{parse_decimal, Dec};
use bbo_feed::models::{MarketSide, Quote};

fn quote(price: &str, remaining: &str, side: MarketSide) -> Quote {
    Quote {
        price: parse_decimal(price).unwrap(),
        reason: String::new(),
        remaining: parse_decimal(remaining).unwrap(),
        side,
        delta: None,
    }
}

#[test]
fn new_starts_at_zero() {
    let b = BestBidOffer::new();
    assert_eq!(b.best_bid, Dec::zero());
    assert_eq!(b.best_offer, Dec::zero());
    assert_eq!(b.bid_amount_remaining, Dec::zero());
    assert_eq!(b.ask_amount_remaining, Dec::zero());
}

#[test]
fn bid_update_touches_only_bid_fields() {
    let mut b = BestBidOffer::new();
    b.apply(&quote("50010.00", "0.8", MarketSide::Ask));
    let before = b;
    let snap = b.apply(&quote("50000.00", "1.5", MarketSide::Bid));
    assert_eq!(b.best_bid, parse_decimal("50000.00").unwrap());
    assert_eq!(b.bid_amount_remaining, parse_decimal("1.5").unwrap());
    assert_eq!(b.best_offer, before.best_offer);
    assert_eq!(b.ask_amount_remaining, before.ask_amount_remaining);
    assert_eq!(snap, b);
}

#[test]
fn ask_update_touches_only_ask_fields() {
    let mut b = BestBidOffer::new();
    b.apply(&quote("50000.00", "1.5", MarketSide::Bid));
    let before = b;
    let snap = b.apply(&quote("50010.00", "0.8", MarketSide::Ask));
    assert_eq!(b.best_offer, parse_decimal("50010.00").unwrap());
    assert_eq!(b.ask_amount_remaining, parse_decimal("0.8").unwrap());
    assert_eq!(b.best_bid, before.best_bid);
    assert_eq!(b.bid_amount_remaining, before.bid_amount_remaining);
    assert_eq!(snap, b);
}

#[test]
fn unknown_side_changes_nothing() {
    let mut b = BestBidOffer::new();
    b.apply(&quote("50000.00", "1.5", MarketSide::Bid));
    b.apply(&quote("50010.00", "0.8", MarketSide::Ask));
    let before = b;
    let snap = b.apply(&quote("123.45", "9.9", MarketSide::Unknown));
    assert_eq!(b, before);
    assert_eq!(snap, before);
}

#[test]
fn shared_aggregator_hands_out_paired_snapshots() {
    let shared = SharedBbo::new();
    let snap = shared.apply(&quote("50000.00", "1.5", MarketSide::Bid));
    assert_eq!(snap.best_bid, parse_decimal("50000.00").unwrap());
    assert_eq!(snap.bid_amount_remaining, parse_decimal("1.5").unwrap());
    let snap2 = shared.apply(&quote("50010.00", "0.8", MarketSide::Ask));
    assert_eq!(snap2.best_offer, parse_decimal("50010.00").unwrap());
    assert_eq!(snap2.ask_amount_remaining, parse_decimal("0.8").unwrap());
    assert_eq!(snap2.best_bid, snap.best_bid);
    assert_eq!(shared.snapshot(), snap2);
}

#[test]
fn price_and_remaining_move_together() {
    let mut b = BestBidOffer::new();
    b.apply(&quote("50000.00", "1.5", MarketSide::Bid));
    let snap = b.apply(&quote("50001.00", "2.5", MarketSide::Bid));
    // the snapshot never pairs the new price with the old remaining amount
    assert_eq!(snap.best_bid, parse_decimal("50001.00").unwrap());
    assert_eq!(snap.bid_amount_remaining, parse_decimal("2.5").unwrap());
}
