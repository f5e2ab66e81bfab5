//! The best-bid-offer aggregator: folds decoded quote events into the single
//! top-of-book snapshot, one side at a time.

use vstd::prelude::*;
use vstd::rwlock::RwLock;
use crate::decimal::{Dec, dec_zero, dec_wf};
use crate::models::{MarketSide, Quote, quote_wf};

verus! {

/// The aggregated top-of-book state. All four fields start at zero, meaning
/// "no market data observed yet"; a zero observed on the wire is stored the
/// same way, an ambiguity the feed itself does not resolve.
#[derive(Clone, Copy, Debug, PartialEq, Eq, Structural)]
pub struct BestBidOffer {
    pub best_bid: Dec,
    pub best_offer: Dec,
    pub bid_amount_remaining: Dec,
    pub ask_amount_remaining: Dec,
}

pub open spec fn bbo_wf(b: BestBidOffer) -> bool {
    &&& dec_wf(b.best_bid)
    &&& dec_wf(b.best_offer)
    &&& dec_wf(b.bid_amount_remaining)
    &&& dec_wf(b.ask_amount_remaining)
}

impl BestBidOffer {
    /// The startup snapshot: all four fields zero.
    pub fn new() -> (b: Self)
        ensures
            b.best_bid == dec_zero(),
            b.best_offer == dec_zero(),
            b.bid_amount_remaining == dec_zero(),
            b.ask_amount_remaining == dec_zero(),
            bbo_wf(b),
    {
        BestBidOffer {
            best_bid: Dec::zero(),
            best_offer: Dec::zero(),
            bid_amount_remaining: Dec::zero(),
            ask_amount_remaining: Dec::zero(),
        }
    }

    /// Fold one quote into the snapshot and hand back the state after the
    /// call, for reporting. A bid quote overwrites exactly the two bid
    /// fields, an ask quote exactly the two ask fields, and a quote of
    /// unknown side changes nothing; the price and the remaining amount of a
    /// side always move together.
    pub fn apply(&mut self, q: &Quote) -> (snap: BestBidOffer)
        ensures
            q.side == MarketSide::Bid ==> final(self).best_bid == q.price
                && final(self).bid_amount_remaining == q.remaining
                && final(self).best_offer == old(self).best_offer
                && final(self).ask_amount_remaining == old(self).ask_amount_remaining,
            q.side == MarketSide::Ask ==> final(self).best_offer == q.price
                && final(self).ask_amount_remaining == q.remaining
                && final(self).best_bid == old(self).best_bid
                && final(self).bid_amount_remaining == old(self).bid_amount_remaining,
            q.side == MarketSide::Unknown ==> *final(self) == *old(self),
            snap == *final(self),
    {
        match q.side {
            MarketSide::Bid => {
                self.best_bid = q.price;
                self.bid_amount_remaining = q.remaining;
            },
            MarketSide::Ask => {
                self.best_offer = q.price;
                self.ask_amount_remaining = q.remaining;
            },
            MarketSide::Unknown => {},
        }
        *self
    }
}

/// The aggregator's shared state: the one top-of-book record behind an
/// exclusive lock. Both fields of a side change inside one critical
/// section, so a reader can never observe a freshly-updated price paired
/// with a stale remaining amount: every value that leaves the lock is a
/// snapshot some complete update produced.
pub struct SharedBbo {
    lock: RwLock<BestBidOffer, spec_fn(BestBidOffer) -> bool>,
}

impl SharedBbo {
    /// Which snapshots the lock admits.
    pub closed spec fn inv(&self, b: BestBidOffer) -> bool {
        self.lock.inv(b)
    }

    /// A usable shared aggregator admits exactly the well-formed snapshots.
    pub open spec fn wf(&self) -> bool {
        forall|b: BestBidOffer| self.inv(b) == bbo_wf(b)
    }

    /// A shared aggregator holding the all-zero startup snapshot.
    pub fn new() -> (s: Self)
        ensures
            s.wf(),
    {
        let b = BestBidOffer::new();
        let lock = RwLock::new(b, Ghost(|v: BestBidOffer| bbo_wf(v)));
        SharedBbo { lock }
    }

    /// Fold one quote in, entirely inside the write lock, and hand back the
    /// snapshot the update produced, for reporting. The side a bid or ask
    /// quote touches carries the quote's price and remaining amount
    /// together in that snapshot.
    pub fn apply(&self, q: &Quote) -> (snap: BestBidOffer)
        requires
            self.wf(),
            quote_wf(*q),
        ensures
            bbo_wf(snap),
            q.side == MarketSide::Bid ==> snap.best_bid == q.price && snap.bid_amount_remaining
                == q.remaining,
            q.side == MarketSide::Ask ==> snap.best_offer == q.price && snap.ask_amount_remaining
                == q.remaining,
    {
        let (mut b, handle) = self.lock.acquire_write();
        proof {
            assert(self.inv(b) == bbo_wf(b));
        }
        let snap = b.apply(q);
        proof {
            assert(self.inv(b) == bbo_wf(b));
        }
        handle.release_write(b);
        snap
    }

    /// A point-in-time snapshot, under a read lock.
    pub fn snapshot(&self) -> (b: BestBidOffer)
        requires
            self.wf(),
        ensures
            bbo_wf(b),
    {
        let handle = self.lock.acquire_read();
        let b = *handle.borrow();
        handle.release_read();
        b
    }
}

} // verus!
