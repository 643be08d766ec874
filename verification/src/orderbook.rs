//! The per-venue book replica: an ordered bid map and ask map keyed by
//! fixed-point price, a sequence watermark, and the validated application of
//! update records to them.
//!
//! Each side is held as a vector of entries sorted by strictly increasing
//! price key, every stored quantity positive; its mathematical model is the
//! finite map from price key to quantity given by [`side_map`].  The best bid
//! is the greatest key of the bid side, the best ask the least key of the ask
//! side.

use vstd::prelude::*;
use crate::{ExchangeName, OrderBookError, Symbol};
use crate::decimal::{
    DisplayAmount, StorageAmount, MAX_SCALE, STORAGE_LIMIT, display_to_storage, storage_to_display,
    rescale,
};

verus! {

/// One stored price level: a price key and the quantity resting at it, both
/// in storage form.
#[derive(Debug, Clone, Copy, PartialEq, Eq, Structural)]
pub struct BookEntry {
    pub price: StorageAmount,
    pub quantity: StorageAmount,
}

/// The entries are sorted by strictly increasing price key.
pub open spec fn side_sorted(s: Seq<BookEntry>) -> bool {
    forall|i: int, j: int| 0 <= i < j < s.len() ==> s[i].price < s[j].price
}

/// Every stored quantity is positive; a zero quantity means "remove this
/// level" and is never stored.
pub open spec fn side_positive(s: Seq<BookEntry>) -> bool {
    forall|i: int| 0 <= i < s.len() ==> s[i].quantity > 0
}

/// Well-formedness of one side of the book.
pub open spec fn side_wf(s: Seq<BookEntry>) -> bool {
    side_sorted(s) && side_positive(s)
}

/// Some entry carries the given price key.
pub open spec fn side_has_price(s: Seq<BookEntry>, p: StorageAmount) -> bool {
    exists|i: int| 0 <= i < s.len() && s[i].price == p
}

/// The quantity resting at the given price key (meaningful when the side is
/// sorted and the key present).
pub open spec fn side_qty(s: Seq<BookEntry>, p: StorageAmount) -> StorageAmount {
    s[choose|i: int| 0 <= i < s.len() && s[i].price == p].quantity
}

/// The mapping a side denotes: price key to resting quantity.
pub open spec fn side_map(s: Seq<BookEntry>) -> Map<StorageAmount, StorageAmount> {
    Map::new(|p: StorageAmount| side_has_price(s, p), |p: StorageAmount| side_qty(s, p))
}

/// In a sorted side, at most one entry carries a given price key, so an
/// entry's quantity is the one the side's map assigns to its price.
pub proof fn lemma_side_entry(s: Seq<BookEntry>, i: int)
    requires
        side_sorted(s),
        0 <= i < s.len(),
    ensures
        side_has_price(s, s[i].price),
        side_map(s).dom().contains(s[i].price),
        side_map(s)[s[i].price] == s[i].quantity,
{
    assert(side_has_price(s, s[i].price));
    let j = choose|j: int| 0 <= j < s.len() && s[j].price == s[i].price;
    if j < i {
        assert(s[j].price < s[i].price);
    } else if i < j {
        assert(s[i].price < s[j].price);
    }
}

/// Inserts, overwrites or removes one level of a side, keeping it sorted:
/// a positive quantity is stored at the price key, a zero quantity removes
/// the key.
fn side_set_level(side: &mut Vec<BookEntry>, price: StorageAmount, quantity: StorageAmount)
    requires
        side_wf(old(side)@),
    ensures
        side_wf(final(side)@),
        quantity > 0 ==> side_map(final(side)@) == side_map(old(side)@).insert(price, quantity),
        quantity == 0 ==> side_map(final(side)@) == side_map(old(side)@).remove(price),
        final(side)@.len() <= old(side)@.len() + 1,
{
    let ghost s0 = side@;
    let mut i: usize = 0;
    while i < side.len() && side[i].price < price
        invariant
            0 <= i <= side.len(),
            side@ == s0,
            side_wf(s0),
            forall|k: int| 0 <= k < i ==> s0[k].price < price,
        decreases side.len() - i,
    {
        i = i + 1;
    }
    if i < side.len() && side[i].price == price {
        if quantity > 0 {
            side[i] = BookEntry { price, quantity };
            proof {
                let s1 = side@;
                assert(s1 == s0.update(i as int, BookEntry { price, quantity }));
                assert forall|p: StorageAmount| #[trigger] side_has_price(s1, p)
                    <==> side_has_price(s0, p) by {
                    assert(forall|k: int| 0 <= k < s1.len() ==> s1[k].price == s0[k].price);
                    if side_has_price(s1, p) {
                        let k = choose|k: int| 0 <= k < s1.len() && s1[k].price == p;
                        assert(s0[k].price == p);
                    }
                    if side_has_price(s0, p) {
                        let k = choose|k: int| 0 <= k < s0.len() && s0[k].price == p;
                        assert(s1[k].price == p);
                    }
                }
                assert forall|p: StorageAmount|
                    side_has_price(s1, p) implies #[trigger] side_map(s1)[p] == side_map(
                    s0,
                ).insert(price, quantity)[p] by {
                    let k = choose|k: int| 0 <= k < s1.len() && s1[k].price == p;
                    lemma_side_entry(s1, k);
                    if p == price {
                        lemma_side_entry(s1, i as int);
                    } else {
                        assert(k != i);
                        lemma_side_entry(s0, k);
                    }
                }
                assert(side_map(s1) =~= side_map(s0).insert(price, quantity));
            }
        } else {
            side.remove(i);
            proof {
                let s1 = side@;
                assert(s1 == s0.remove(i as int));
                assert(forall|k: int| 0 <= k < i ==> s1[k] == s0[k]);
                assert(forall|k: int| i <= k < s1.len() ==> s1[k] == s0[k + 1]);
                assert forall|p: StorageAmount|
                    #[trigger] side_has_price(s1, p) implies side_has_price(s0, p) && p
                    != price by {
                    let k = choose|k: int| 0 <= k < s1.len() && s1[k].price == p;
                    if k < i {
                        assert(s0[k].price == p);
                        assert(s0[k].price < s0[i as int].price);
                    } else {
                        assert(s0[k + 1].price == p);
                        assert(s0[i as int].price < s0[k + 1].price);
                    }
                }
                assert forall|p: StorageAmount|
                    side_has_price(s0, p) && p != price implies #[trigger] side_has_price(
                    s1,
                    p,
                ) && side_qty(s1, p) == side_qty(s0, p) by {
                    let k = choose|k: int| 0 <= k < s0.len() && s0[k].price == p;
                    lemma_side_entry(s0, k);
                    assert(k != i);
                    if k < i {
                        assert(s1[k].price == p);
                        lemma_side_entry(s1, k);
                    } else {
                        assert(s1[k - 1].price == p);
                        lemma_side_entry(s1, k - 1);
                    }
                }
                assert(side_map(s1) =~= side_map(s0).remove(price));
            }
        }
    } else {
        if quantity > 0 {
            side.insert(i, BookEntry { price, quantity });
            proof {
                let s1 = side@;
                assert(s1 == s0.insert(i as int, BookEntry { price, quantity }));
                assert(forall|k: int| 0 <= k < i ==> s1[k] == s0[k]);
                assert(s1[i as int] == BookEntry { price, quantity });
                assert(forall|k: int| i < k < s1.len() ==> s1[k] == s0[k - 1]);
                assert(!side_has_price(s0, price));
                assert(side_sorted(s1)) by {
                    assert forall|a: int, b: int| 0 <= a < b < s1.len() implies s1[a].price
                        < s1[b].price by {
                        if a < i && b > i {
                            assert(s0[a].price < price || a == i);
                            assert(s0[b - 1].price >= s0[i as int].price || b - 1 == i);
                        }
                    }
                }
                assert forall|p: StorageAmount| #[trigger] side_has_price(s1, p)
                    <==> (side_has_price(s0, p) || p == price) by {
                    if side_has_price(s1, p) {
                        let k = choose|k: int| 0 <= k < s1.len() && s1[k].price == p;
                        if k < i {
                            assert(s0[k].price == p);
                        } else if k > i {
                            assert(s0[k - 1].price == p);
                        }
                    }
                    if side_has_price(s0, p) {
                        let k = choose|k: int| 0 <= k < s0.len() && s0[k].price == p;
                        if k < i {
                            assert(s1[k].price == p);
                        } else {
                            assert(s1[k + 1].price == p);
                        }
                    }
                    if p == price {
                        assert(s1[i as int].price == p);
                    }
                }
                assert forall|p: StorageAmount|
                    side_has_price(s1, p) implies #[trigger] side_map(s1)[p] == side_map(
                    s0,
                ).insert(price, quantity)[p] by {
                    if p == price {
                        lemma_side_entry(s1, i as int);
                    } else {
                        let k = choose|k: int| 0 <= k < s0.len() && s0[k].price == p;
                        lemma_side_entry(s0, k);
                        if k < i {
                            lemma_side_entry(s1, k);
                        } else {
                            lemma_side_entry(s1, k + 1);
                        }
                    }
                }
                assert(side_map(s1) =~= side_map(s0).insert(price, quantity));
            }
        } else {
            proof {
                assert(!side_has_price(s0, price)) by {
                    if side_has_price(s0, price) {
                        let k = choose|k: int| 0 <= k < s0.len() && s0[k].price == price;
                        assert(k >= i);
                        if i < s0.len() {
                            assert(s0[i as int].price > price || s0[i as int].price == price);
                        }
                        assert(s0[k].price > price || k == i);
                    }
                }
                assert(side_map(s0) =~= side_map(s0).remove(price));
            }
        }
    }
}

/// A displayable price and quantity for one level of an update, price first.
pub open spec fn level_pair_wf(e: [DisplayAmount; 2]) -> bool {
    &&& e[0].wf()
    &&& !e[0].negative
    &&& e[1].wf()
    &&& !e[1].negative
}

/// The storage key a display amount maps to at the given scale.
pub open spec fn storage_key_of(d: DisplayAmount, scale: u32) -> nat {
    rescale(d.mantissa as nat, d.scale as nat, scale as nat)
}

/// The effect of one update level on a side's map: out-of-range amounts are
/// skipped, a positive quantity is stored, a zero quantity removes the key.
pub open spec fn apply_level_spec(
    m: Map<StorageAmount, StorageAmount>,
    e: [DisplayAmount; 2],
    price_scale: u32,
    quantity_scale: u32,
) -> Map<StorageAmount, StorageAmount> {
    let pk = storage_key_of(e[0], price_scale);
    let qk = storage_key_of(e[1], quantity_scale);
    if pk >= STORAGE_LIMIT as nat || qk >= STORAGE_LIMIT as nat {
        m
    } else if qk > 0 {
        m.insert(pk as StorageAmount, qk as StorageAmount)
    } else {
        m.remove(pk as StorageAmount)
    }
}

/// The effect of a whole list of update levels, applied left to right.
pub open spec fn apply_levels_spec(
    m: Map<StorageAmount, StorageAmount>,
    es: Seq<[DisplayAmount; 2]>,
    price_scale: u32,
    quantity_scale: u32,
) -> Map<StorageAmount, StorageAmount>
    decreases es.len(),
{
    if es.len() == 0 {
        m
    } else {
        apply_level_spec(
            apply_levels_spec(m, es.drop_last(), price_scale, quantity_scale),
            es.last(),
            price_scale,
            quantity_scale,
        )
    }
}

/// The orderbook replica for one venue and symbol.
#[derive(Debug)]
pub struct OrderBook {
    pub exchange: ExchangeName,
    pub symbol: Symbol,
    pub price_scale: u32,
    pub quantity_scale: u32,
    pub bids: Vec<BookEntry>,
    pub asks: Vec<BookEntry>,
    pub last_update_id: u64,
}

impl OrderBook {
    /// Both sides are well-formed and the scales are representable.
    pub open spec fn wf(self) -> bool {
        &&& side_wf(self.bids@)
        &&& side_wf(self.asks@)
        &&& self.price_scale <= MAX_SCALE
        &&& self.quantity_scale <= MAX_SCALE
    }

    /// The mapping the bid side denotes.
    pub open spec fn bids_map(self) -> Map<StorageAmount, StorageAmount> {
        side_map(self.bids@)
    }

    /// The mapping the ask side denotes.
    pub open spec fn asks_map(self) -> Map<StorageAmount, StorageAmount> {
        side_map(self.asks@)
    }

    /// The fields an update never touches.
    pub open spec fn same_venue(self, other: OrderBook) -> bool {
        &&& self.exchange == other.exchange
        &&& self.symbol == other.symbol
        &&& self.price_scale == other.price_scale
        &&& self.quantity_scale == other.quantity_scale
    }

    /// Creates an empty replica with the venue's scales and a zero watermark.
    pub fn new_orderbook(
        exchange: ExchangeName,
        symbol: Symbol,
        price_scale: u32,
        quantity_scale: u32,
    ) -> (r: Self)
        requires
            price_scale <= MAX_SCALE,
            quantity_scale <= MAX_SCALE,
        ensures
            r.wf(),
            r.exchange == exchange,
            r.symbol == symbol,
            r.price_scale == price_scale,
            r.quantity_scale == quantity_scale,
            r.bids_map() == Map::<StorageAmount, StorageAmount>::empty(),
            r.asks_map() == Map::<StorageAmount, StorageAmount>::empty(),
            r.bids@.len() == 0,
            r.asks@.len() == 0,
            r.last_update_id == 0,
    {
        let bids: Vec<BookEntry> = Vec::new();
        let asks: Vec<BookEntry> = Vec::new();
        proof {
            assert(side_map(bids@) =~= Map::<StorageAmount, StorageAmount>::empty());
            assert(side_map(asks@) =~= Map::<StorageAmount, StorageAmount>::empty());
        }
        Self { exchange, symbol, price_scale, quantity_scale, bids, asks, last_update_id: 0 }
    }

    /// Converts one displayable level to storage form and applies it to the
    /// bid side.  Fails with `ValueOutOfRange`, leaving the book unchanged,
    /// exactly when the price or the quantity does not fit a storage key.
    pub fn add_bid(&mut self, level: [DisplayAmount; 2]) -> (r: Result<(), OrderBookError>)
        requires
            old(self).wf(),
            level_pair_wf(level),
        ensures
            final(self).wf(),
            final(self).same_venue(*old(self)),
            final(self).last_update_id == old(self).last_update_id,
            final(self).asks@ == old(self).asks@,
            side_map(final(self).bids@) == apply_level_spec(
                side_map(old(self).bids@),
                level,
                old(self).price_scale,
                old(self).quantity_scale,
            ),
            r is Ok <==> storage_key_of(level[0], old(self).price_scale) < STORAGE_LIMIT as nat
                && storage_key_of(level[1], old(self).quantity_scale) < STORAGE_LIMIT as nat,
            r is Err ==> *final(self) == *old(self) && r == Err::<(), OrderBookError>(
                OrderBookError::ValueOutOfRange,
            ),
    {
        let price = match display_to_storage(&level[0], self.price_scale) {
            Ok(p) => p,
            Err(e) => {
                return Err(e);
            },
        };
        let quantity = match display_to_storage(&level[1], self.quantity_scale) {
            Ok(q) => q,
            Err(e) => {
                return Err(e);
            },
        };
        side_set_level(&mut self.bids, price, quantity);
        Ok(())
    }

    /// Converts one displayable level to storage form and applies it to the
    /// ask side.  Fails with `ValueOutOfRange`, leaving the book unchanged,
    /// exactly when the price or the quantity does not fit a storage key.
    pub fn add_ask(&mut self, level: [DisplayAmount; 2]) -> (r: Result<(), OrderBookError>)
        requires
            old(self).wf(),
            level_pair_wf(level),
        ensures
            final(self).wf(),
            final(self).same_venue(*old(self)),
            final(self).last_update_id == old(self).last_update_id,
            final(self).bids@ == old(self).bids@,
            side_map(final(self).asks@) == apply_level_spec(
                side_map(old(self).asks@),
                level,
                old(self).price_scale,
                old(self).quantity_scale,
            ),
            r is Ok <==> storage_key_of(level[0], old(self).price_scale) < STORAGE_LIMIT as nat
                && storage_key_of(level[1], old(self).quantity_scale) < STORAGE_LIMIT as nat,
            r is Err ==> *final(self) == *old(self) && r == Err::<(), OrderBookError>(
                OrderBookError::ValueOutOfRange,
            ),
    {
        let price = match display_to_storage(&level[0], self.price_scale) {
            Ok(p) => p,
            Err(e) => {
                return Err(e);
            },
        };
        let quantity = match display_to_storage(&level[1], self.quantity_scale) {
            Ok(q) => q,
            Err(e) => {
                return Err(e);
            },
        };
        side_set_level(&mut self.asks, price, quantity);
        Ok(())
    }
}

/// One venue delta, in the two sequencing shapes the venues use: a strict
/// record carries the closed range `first_update_id ..= last_update_id` of
/// sequence numbers it covers; a timestamped record carries only a
/// microsecond timestamp as its `last_update_id`.
#[derive(Debug)]
pub enum UpdateRecord {
    Strict {
        first_update_id: u64,
        last_update_id: u64,
        bids: Vec<[DisplayAmount; 2]>,
        asks: Vec<[DisplayAmount; 2]>,
    },
    Timestamped {
        last_update_id: u64,
        bids: Vec<[DisplayAmount; 2]>,
        asks: Vec<[DisplayAmount; 2]>,
    },
}

impl UpdateRecord {
    /// Every carried amount is a well-formed non-negative decimal, and a
    /// strict record covers a non-empty range of sequence numbers.
    pub open spec fn wf(self) -> bool {
        &&& forall|i: int| 0 <= i < self.spec_bids().len() ==> level_pair_wf(#[trigger] self.spec_bids()[i])
        &&& forall|i: int| 0 <= i < self.spec_asks().len() ==> level_pair_wf(#[trigger] self.spec_asks()[i])
        &&& self matches UpdateRecord::Strict { first_update_id, last_update_id, .. }
            ==> first_update_id <= last_update_id
    }

    /// The watermark this record moves the replica to.
    pub open spec fn spec_last_update_id(self) -> u64 {
        match self {
            UpdateRecord::Strict { last_update_id, .. } => last_update_id,
            UpdateRecord::Timestamped { last_update_id, .. } => last_update_id,
        }
    }

    /// The bid levels of the record.
    pub open spec fn spec_bids(self) -> Seq<[DisplayAmount; 2]> {
        match self {
            UpdateRecord::Strict { bids, .. } => bids@,
            UpdateRecord::Timestamped { bids, .. } => bids@,
        }
    }

    /// The ask levels of the record.
    pub open spec fn spec_asks(self) -> Seq<[DisplayAmount; 2]> {
        match self {
            UpdateRecord::Strict { asks, .. } => asks@,
            UpdateRecord::Timestamped { asks, .. } => asks@,
        }
    }

    /// Whether the record follows a replica standing at the given watermark:
    /// a strict record is accepted at bootstrap (watermark zero) or when it
    /// starts exactly one past the watermark; a timestamped record only has
    /// to not move time backwards.
    pub open spec fn spec_validate(self, watermark: u64) -> bool {
        match self {
            UpdateRecord::Strict { first_update_id, .. } => watermark == 0 || first_update_id
                == watermark + 1,
            UpdateRecord::Timestamped { last_update_id, .. } => last_update_id >= watermark,
        }
    }

    /// The watermark this record moves the replica to.
    pub fn last_update_id(&self) -> (r: u64)
        ensures
            r == self.spec_last_update_id(),
    {
        match self {
            UpdateRecord::Strict { last_update_id, .. } => *last_update_id,
            UpdateRecord::Timestamped { last_update_id, .. } => *last_update_id,
        }
    }

    /// The bid levels of the record.
    pub fn bids(&self) -> (r: &Vec<[DisplayAmount; 2]>)
        ensures
            r@ == self.spec_bids(),
    {
        match self {
            UpdateRecord::Strict { bids, .. } => bids,
            UpdateRecord::Timestamped { bids, .. } => bids,
        }
    }

    /// The ask levels of the record.
    pub fn asks(&self) -> (r: &Vec<[DisplayAmount; 2]>)
        ensures
            r@ == self.spec_asks(),
    {
        match self {
            UpdateRecord::Strict { asks, .. } => asks,
            UpdateRecord::Timestamped { asks, .. } => asks,
        }
    }

    /// Checks the record against a replica watermark; fails with
    /// `SequenceGap` exactly when the sequencing rule rejects it.
    pub fn validate(&self, last_id: u64) -> (r: Result<(), OrderBookError>)
        ensures
            r is Ok <==> self.spec_validate(last_id),
            r is Err ==> r == Err::<(), OrderBookError>(OrderBookError::SequenceGap),
    {
        match self {
            UpdateRecord::Strict { first_update_id, .. } => {
                if last_id == 0 {
                    Ok(())
                } else if last_id < u64::MAX && *first_update_id == last_id + 1 {
                    Ok(())
                } else {
                    Err(OrderBookError::SequenceGap)
                }
            },
            UpdateRecord::Timestamped { last_update_id, .. } => {
                if *last_update_id >= last_id {
                    Ok(())
                } else {
                    Err(OrderBookError::SequenceGap)
                }
            },
        }
    }
}

impl OrderBook {
    /// Validates the record's sequencing and applies its levels: every bid
    /// and ask is converted to storage form and stored, overwritten or
    /// removed; amounts that do not fit a storage key are skipped.  On
    /// success the watermark moves to the record's `last_update_id`, never
    /// backwards.  Fails with `SequenceGap`, leaving the book unchanged,
    /// exactly when validation rejects the record.
    pub fn update(&mut self, update: &UpdateRecord) -> (r: Result<(), OrderBookError>)
        requires
            old(self).wf(),
            update.wf(),
        ensures
            final(self).wf(),
            final(self).same_venue(*old(self)),
            r is Ok <==> update.spec_validate(old(self).last_update_id),
            r is Err ==> *final(self) == *old(self) && r == Err::<(), OrderBookError>(
                OrderBookError::SequenceGap,
            ),
            r is Ok ==> final(self).bids_map() == apply_levels_spec(
                old(self).bids_map(),
                update.spec_bids(),
                old(self).price_scale,
                old(self).quantity_scale,
            ),
            r is Ok ==> final(self).asks_map() == apply_levels_spec(
                old(self).asks_map(),
                update.spec_asks(),
                old(self).price_scale,
                old(self).quantity_scale,
            ),
            r is Ok ==> final(self).last_update_id == update.spec_last_update_id(),
            r is Ok ==> final(self).last_update_id >= old(self).last_update_id,
    {
        match update.validate(self.last_update_id) {
            Ok(_) => {},
            Err(e) => {
                return Err(e);
            },
        }
        let ghost m0 = self.bids_map();
        let ghost ps = self.price_scale;
        let ghost qs = self.quantity_scale;
        let bids = update.bids();
        let mut i: usize = 0;
        while i < bids.len()
            invariant
                0 <= i <= bids.len(),
                bids@ == update.spec_bids(),
                update.wf(),
                self.wf(),
                self.price_scale == ps,
                self.quantity_scale == qs,
                self.same_venue(*old(self)),
                self.last_update_id == old(self).last_update_id,
                self.asks@ == old(self).asks@,
                self.bids_map() == apply_levels_spec(m0, bids@.take(i as int), ps, qs),
                m0 == old(self).bids_map(),
            decreases bids.len() - i,
        {
            let _ = self.add_bid(bids[i]);
            proof {
                assert(bids@.take(i + 1).drop_last() == bids@.take(i as int));
                assert(bids@.take(i + 1).last() == bids@[i as int]);
            }
            i = i + 1;
        }
        proof {
            assert(bids@.take(bids@.len() as int) == bids@);
        }
        let ghost a0 = self.asks_map();
        let asks = update.asks();
        let mut j: usize = 0;
        while j < asks.len()
            invariant
                0 <= j <= asks.len(),
                asks@ == update.spec_asks(),
                update.wf(),
                self.wf(),
                self.price_scale == ps,
                self.quantity_scale == qs,
                self.same_venue(*old(self)),
                self.last_update_id == old(self).last_update_id,
                self.bids_map() == apply_levels_spec(
                    old(self).bids_map(),
                    update.spec_bids(),
                    ps,
                    qs,
                ),
                self.asks_map() == apply_levels_spec(a0, asks@.take(j as int), ps, qs),
                a0 == old(self).asks_map(),
            decreases asks.len() - j,
        {
            let _ = self.add_ask(asks[j]);
            proof {
                assert(asks@.take(j + 1).drop_last() == asks@.take(j as int));
                assert(asks@.take(j + 1).last() == asks@[j as int]);
            }
            j = j + 1;
        }
        proof {
            assert(asks@.take(asks@.len() as int) == asks@);
        }
        self.last_update_id = update.last_update_id();
        Ok(())
    }
}

/// Book insertion idempotence: applying the same level twice to a side's map
/// yields the same map as applying it once.
pub proof fn lemma_apply_level_idempotent(
    m: Map<StorageAmount, StorageAmount>,
    e: [DisplayAmount; 2],
    price_scale: u32,
    quantity_scale: u32,
)
    ensures
        apply_level_spec(apply_level_spec(m, e, price_scale, quantity_scale), e, price_scale, quantity_scale)
            == apply_level_spec(m, e, price_scale, quantity_scale),
{
    let m1 = apply_level_spec(m, e, price_scale, quantity_scale);
    let m2 = apply_level_spec(m1, e, price_scale, quantity_scale);
    assert(m2 =~= m1);
}

/// Zero-quantity deletion: a level whose quantity rounds to zero leaves its
/// price key absent from the side's map, whether or not it was present.
pub proof fn lemma_zero_quantity_deletes(
    m: Map<StorageAmount, StorageAmount>,
    e: [DisplayAmount; 2],
    price_scale: u32,
    quantity_scale: u32,
)
    requires
        storage_key_of(e[0], price_scale) < STORAGE_LIMIT as nat,
        storage_key_of(e[1], quantity_scale) == 0,
    ensures
        !apply_level_spec(m, e, price_scale, quantity_scale).dom().contains(
            storage_key_of(e[0], price_scale) as StorageAmount,
        ),
{
}

/// The watermark a replica reaches after a whole list of records has been
/// offered to it in order: each accepted record moves the watermark to its
/// `last_update_id`, each rejected one leaves it alone.
pub open spec fn watermark_after(watermark: u64, us: Seq<UpdateRecord>) -> u64
    decreases us.len(),
{
    if us.len() == 0 {
        watermark
    } else {
        let before = watermark_after(watermark, us.drop_last());
        if us.last().spec_validate(before) {
            us.last().spec_last_update_id()
        } else {
            before
        }
    }
}

/// Watermark monotonicity: across any sequence of offered records the
/// replica's watermark never decreases, whichever of them are accepted.
pub proof fn lemma_watermark_monotonic(watermark: u64, us: Seq<UpdateRecord>)
    requires
        forall|i: int| 0 <= i < us.len() ==> (#[trigger] us[i]).wf(),
    ensures
        watermark_after(watermark, us) >= watermark,
    decreases us.len(),
{
    if us.len() > 0 {
        assert(forall|i: int| 0 <= i < us.drop_last().len() ==> (#[trigger] us.drop_last()[i]).wf());
        lemma_watermark_monotonic(watermark, us.drop_last());
        assert(us.last() == us[us.len() - 1]);
        assert(us.last().wf());
    }
}

/// A displayable price level as emitted to the merger and to subscribers,
/// tagged with the venue it came from.
#[derive(Debug, Clone, Copy, PartialEq, Eq, Structural)]
pub struct Level {
    pub exchange: ExchangeName,
    pub price: DisplayAmount,
    pub quantity: DisplayAmount,
}

/// Both amounts of the level are well-formed and non-negative.
pub open spec fn level_wf(l: Level) -> bool {
    &&& l.price.wf()
    &&& !l.price.negative
    &&& l.quantity.wf()
    &&& !l.quantity.negative
}

/// Prices strictly descending: the best bid first.
pub open spec fn levels_price_desc(s: Seq<Level>) -> bool {
    forall|i: int, j: int| 0 <= i < j < s.len()
        ==> #[trigger] s[i].price.magnitude() > #[trigger] s[j].price.magnitude()
}

/// Prices strictly ascending: the best ask first.
pub open spec fn levels_price_asc(s: Seq<Level>) -> bool {
    forall|i: int, j: int| 0 <= i < j < s.len()
        ==> #[trigger] s[i].price.magnitude() < #[trigger] s[j].price.magnitude()
}

/// All levels of the list are well-formed.
pub open spec fn levels_wf(s: Seq<Level>) -> bool {
    forall|i: int| 0 <= i < s.len() ==> level_wf(#[trigger] s[i])
}

/// The top levels of one venue's book after an applied update: up to ten
/// best bids (highest price first) and up to ten best asks (lowest price
/// first), with the watermark they were extracted at.
#[derive(Debug, Clone, PartialEq)]
pub struct OrderBookOnlyLevels {
    pub exchange: ExchangeName,
    pub symbol: Symbol,
    pub bids: Vec<Level>,
    pub asks: Vec<Level>,
    pub last_update_id: u64,
}

impl OrderBookOnlyLevels {
    /// Both lists hold well-formed levels, sorted best first.
    pub open spec fn wf(self) -> bool {
        &&& levels_wf(self.bids@)
        &&& levels_wf(self.asks@)
        &&& levels_price_desc(self.bids@)
        &&& levels_price_asc(self.asks@)
    }
}

/// At one scale, the order of storage keys is the order of the magnitudes of
/// the decimals they load back to.
pub proof fn lemma_key_order_is_magnitude_order(a: StorageAmount, b: StorageAmount, scale: u32)
    requires
        a < b,
        scale <= MAX_SCALE,
    ensures
        (DisplayAmount { negative: false, mantissa: a as u128, scale }).magnitude() < (DisplayAmount {
            negative: false,
            mantissa: b as u128,
            scale,
        }).magnitude(),
{
    let p = crate::decimal::pow10((MAX_SCALE - scale) as nat);
    vstd::arithmetic::power::lemma_pow_positive(10, (MAX_SCALE - scale) as nat);
    vstd::arithmetic::mul::lemma_mul_strict_inequality(a as int, b as int, p as int);
}

impl OrderBook {
    /// The displayable level a stored entry loads back to.
    pub open spec fn spec_level_of(self, e: BookEntry) -> Level {
        Level {
            exchange: self.exchange,
            price: DisplayAmount { negative: false, mantissa: e.price as u128, scale: self.price_scale },
            quantity: DisplayAmount {
                negative: false,
                mantissa: e.quantity as u128,
                scale: self.quantity_scale,
            },
        }
    }

    /// Builds the displayable level for one stored entry.
    fn storage_level(&self, price: StorageAmount, quantity: StorageAmount) -> (r: Level)
        requires
            self.wf(),
        ensures
            r == self.spec_level_of(BookEntry { price, quantity }),
            level_wf(r),
    {
        let p = match storage_to_display(price, self.price_scale) {
            Ok(p) => p,
            Err(_) => DisplayAmount { negative: false, mantissa: 0, scale: 0 },
        };
        let q = match storage_to_display(quantity, self.quantity_scale) {
            Ok(q) => q,
            Err(_) => DisplayAmount { negative: false, mantissa: 0, scale: 0 },
        };
        Level { exchange: self.exchange, price: p, quantity: q }
    }

    /// The ten best bids, highest price first, in displayable form.
    pub fn get_bids_levels(&self) -> (r: Result<Vec<Level>, OrderBookError>)
        requires
            self.wf(),
        ensures
            r matches Ok(v) && v@.len() == vstd::math::min(10, self.bids@.len() as int)
                && (forall|k: int| 0 <= k < v@.len()
                    ==> v@[k] == self.spec_level_of(self.bids@[self.bids@.len() - 1 - k])),
            r matches Ok(v) && levels_price_desc(v@) && levels_wf(v@),
    {
        let mut v: Vec<Level> = Vec::new();
        let total = self.bids.len();
        let mut k: usize = 0;
        let count = if total < 10 {
            total
        } else {
            10
        };
        while k < count
            invariant
                self.wf(),
                0 <= k <= count,
                count == vstd::math::min(10, self.bids@.len() as int),
                total == self.bids@.len(),
                v@.len() == k,
                forall|t: int| 0 <= t < k ==> v@[t] == self.spec_level_of(
                    self.bids@[self.bids@.len() - 1 - t],
                ),
            decreases count - k,
        {
            let e = self.bids[total - 1 - k];
            let level = self.storage_level(e.price, e.quantity);
            v.push(level);
            k = k + 1;
        }
        proof {
            assert forall|i: int, j: int| 0 <= i < j < v@.len() implies #[trigger] v@[i].price.magnitude()
                > #[trigger] v@[j].price.magnitude() by {
                let a = self.bids@[self.bids@.len() - 1 - j];
                let b = self.bids@[self.bids@.len() - 1 - i];
                assert(a.price < b.price);
                lemma_key_order_is_magnitude_order(a.price, b.price, self.price_scale);
            }
        }
        Ok(v)
    }

    /// The ten best asks, lowest price first, in displayable form.
    pub fn get_asks_levels(&self) -> (r: Result<Vec<Level>, OrderBookError>)
        requires
            self.wf(),
        ensures
            r matches Ok(v) && v@.len() == vstd::math::min(10, self.asks@.len() as int)
                && (forall|k: int| 0 <= k < v@.len() ==> v@[k] == self.spec_level_of(self.asks@[k])),
            r matches Ok(v) && levels_price_asc(v@) && levels_wf(v@),
    {
        let mut v: Vec<Level> = Vec::new();
        let total = self.asks.len();
        let mut k: usize = 0;
        let count = if total < 10 {
            total
        } else {
            10
        };
        while k < count
            invariant
                self.wf(),
                0 <= k <= count,
                count == vstd::math::min(10, self.asks@.len() as int),
                total == self.asks@.len(),
                v@.len() == k,
                forall|t: int| 0 <= t < k ==> v@[t] == self.spec_level_of(self.asks@[t]),
            decreases count - k,
        {
            let e = self.asks[k];
            let level = self.storage_level(e.price, e.quantity);
            v.push(level);
            k = k + 1;
        }
        proof {
            assert forall|i: int, j: int| 0 <= i < j < v@.len() implies #[trigger] v@[i].price.magnitude()
                < #[trigger] v@[j].price.magnitude() by {
                let a = self.asks@[i];
                let b = self.asks@[j];
                assert(a.price < b.price);
                lemma_key_order_is_magnitude_order(a.price, b.price, self.price_scale);
            }
        }
        Ok(v)
    }

    /// What the extracted top of the book holds: the venue's tag, symbol and
    /// watermark, up to ten best bids highest price first, and up to ten
    /// best asks lowest price first.
    pub open spec fn levels_of(self, l: OrderBookOnlyLevels) -> bool {
        &&& l.wf()
        &&& l.exchange == self.exchange
        &&& l.symbol == self.symbol
        &&& l.last_update_id == self.last_update_id
        &&& l.bids@.len() == vstd::math::min(10, self.bids@.len() as int)
        &&& l.asks@.len() == vstd::math::min(10, self.asks@.len() as int)
        &&& forall|k: int| 0 <= k < l.bids@.len() ==> l.bids@[k] == self.spec_level_of(
            self.bids@[self.bids@.len() - 1 - k],
        )
        &&& forall|k: int| 0 <= k < l.asks@.len() ==> l.asks@[k] == self.spec_level_of(
            self.asks@[k],
        )
    }

    /// The top of the book in displayable form, or `None` exactly when both
    /// sides are empty.  Top-of-book ordering: the bids come highest price
    /// first, the asks lowest price first.
    pub fn get_book_levels(&self) -> (r: Option<OrderBookOnlyLevels>)
        requires
            self.wf(),
        ensures
            r is None <==> self.bids@.len() == 0 && self.asks@.len() == 0,
            r matches Some(l) ==> self.levels_of(l),
    {
        let bids = match self.get_bids_levels() {
            Ok(v) => v,
            Err(_) => {
                return None;
            },
        };
        let asks = match self.get_asks_levels() {
            Ok(v) => v,
            Err(_) => {
                return None;
            },
        };
        if bids.is_empty() && asks.is_empty() {
            None
        } else {
            Some(
                OrderBookOnlyLevels {
                    exchange: self.exchange,
                    symbol: self.symbol,
                    last_update_id: self.last_update_id,
                    bids,
                    asks,
                },
            )
        }
    }
}

} // verus!
