//! The merger: combines the latest top-of-book levels of both venues into a
//! single cross-venue summary.
//!
//! Bids from both venues are merged into one list sorted by price descending
//! and, for equal prices, by quantity descending; asks by price ascending
//! with the same quantity tie-break.  Equal prices from different venues are
//! not summed: each venue keeps its own level identity.  The merged top `N`
//! (the first venue's bid level count) of each list and the spread between
//! the best ask and the best bid form the published summary.

use vstd::prelude::*;
use vstd::seq_lib::group_to_multiset_ensures;
use crate::{ExchangeName, OrderBookError, Symbol};
use crate::decimal::{DisplayAmount, magnitude_le, sub_value, sub_value_ok};
use crate::orderbook::{Level, OrderBookOnlyLevels, level_wf, levels_wf};

verus! {

/// The merged cross-venue top-of-book and spread, the unit published to
/// subscribers.
#[derive(Debug, Clone, PartialEq)]
pub struct Summary {
    pub symbol: Symbol,
    pub spread: DisplayAmount,
    pub bids: Vec<Level>,
    pub asks: Vec<Level>,
}

/// Merged bid order: the higher price ranks first; at equal prices the
/// larger quantity ranks first.
pub open spec fn bid_le(x: Level, y: Level) -> bool {
    ||| x.price.magnitude() > y.price.magnitude()
    ||| (x.price.magnitude() == y.price.magnitude() && x.quantity.magnitude()
        >= y.quantity.magnitude())
}

/// Merged ask order: the lower price ranks first; at equal prices the
/// larger quantity ranks first.
pub open spec fn ask_le(x: Level, y: Level) -> bool {
    ||| x.price.magnitude() < y.price.magnitude()
    ||| (x.price.magnitude() == y.price.magnitude() && x.quantity.magnitude()
        >= y.quantity.magnitude())
}

/// The list is sorted by the merged bid order.
pub open spec fn sorted_bids(s: Seq<Level>) -> bool {
    forall|i: int, j: int| 0 <= i < j < s.len() ==> #[trigger] bid_le(s[i], s[j])
}

/// The list is sorted by the merged ask order.
pub open spec fn sorted_asks(s: Seq<Level>) -> bool {
    forall|i: int, j: int| 0 <= i < j < s.len() ==> #[trigger] ask_le(s[i], s[j])
}

/// Whether `x` may precede `y` in the merged bid order.
fn bid_le_exec(x: &Level, y: &Level) -> (r: bool)
    requires
        level_wf(*x),
        level_wf(*y),
    ensures
        r == bid_le(*x, *y),
{
    if magnitude_le(&y.price, &x.price) {
        if magnitude_le(&x.price, &y.price) {
            magnitude_le(&y.quantity, &x.quantity)
        } else {
            true
        }
    } else {
        false
    }
}

/// Whether `x` may precede `y` in the merged ask order.
fn ask_le_exec(x: &Level, y: &Level) -> (r: bool)
    requires
        level_wf(*x),
        level_wf(*y),
    ensures
        r == ask_le(*x, *y),
{
    if magnitude_le(&x.price, &y.price) {
        if magnitude_le(&y.price, &x.price) {
            magnitude_le(&y.quantity, &x.quantity)
        } else {
            true
        }
    } else {
        false
    }
}

/// Sorts levels by the merged bid order, keeping exactly the given levels.
fn sort_bids(v: &Vec<Level>) -> (r: Vec<Level>)
    requires
        levels_wf(v@),
    ensures
        r@.to_multiset() == v@.to_multiset(),
        r@.len() == v@.len(),
        sorted_bids(r@),
        levels_wf(r@),
{
    broadcast use group_to_multiset_ensures;

    let mut out: Vec<Level> = Vec::new();
    let mut i: usize = 0;
    while i < v.len()
        invariant
            0 <= i <= v@.len(),
            levels_wf(v@),
            out@.len() == i,
            out@.to_multiset() == v@.take(i as int).to_multiset(),
            sorted_bids(out@),
            levels_wf(out@),
        decreases v@.len() - i,
    {
        let x = v[i];
        let ghost out0 = out@;
        let mut k: usize = 0;
        while k < out.len() && bid_le_exec(&out[k], &x)
            invariant
                0 <= k <= out@.len(),
                out@ == out0,
                levels_wf(out@),
                level_wf(x),
                forall|t: int| 0 <= t < k ==> bid_le(#[trigger] out@[t], x),
            decreases out@.len() - k,
        {
            k = k + 1;
        }
        out.insert(k, x);
        proof {
            vstd::seq_lib::to_multiset_insert(out0, k as int, x);
            assert(v@.take(i + 1) == v@.take(i as int).push(v@[i as int]));
            vstd::seq_lib::to_multiset_build(v@.take(i as int), v@[i as int]);
            assert(v@.take(i + 1).to_multiset() =~= v@.take(i as int).to_multiset().insert(x));
            assert(out@.to_multiset() =~= v@.take(i + 1).to_multiset());
            assert forall|a: int, b: int| 0 <= a < b < out@.len() implies #[trigger] bid_le(
                out@[a],
                out@[b],
            ) by {
                if a < k && b > k {
                    assert(bid_le(out0[a], out0[b - 1]) || b - 1 == a);
                }
                if b == k as int {
                    assert(out@[a] == out0[a]);
                }
                if a == k as int {
                    assert(!bid_le(out0[k as int], x));
                    assert(bid_le(x, out0[k as int]));
                    assert(out@[b] == out0[b - 1]);
                    if b - 1 > k {
                        assert(bid_le(out0[k as int], out0[b - 1]));
                    }
                }
            }
        }
        i = i + 1;
    }
    proof {
        assert(v@.take(v@.len() as int) == v@);
    }
    out
}

/// Sorts levels by the merged ask order, keeping exactly the given levels.
fn sort_asks(v: &Vec<Level>) -> (r: Vec<Level>)
    requires
        levels_wf(v@),
    ensures
        r@.to_multiset() == v@.to_multiset(),
        r@.len() == v@.len(),
        sorted_asks(r@),
        levels_wf(r@),
{
    broadcast use group_to_multiset_ensures;

    let mut out: Vec<Level> = Vec::new();
    let mut i: usize = 0;
    while i < v.len()
        invariant
            0 <= i <= v@.len(),
            levels_wf(v@),
            out@.len() == i,
            out@.to_multiset() == v@.take(i as int).to_multiset(),
            sorted_asks(out@),
            levels_wf(out@),
        decreases v@.len() - i,
    {
        let x = v[i];
        let ghost out0 = out@;
        let mut k: usize = 0;
        while k < out.len() && ask_le_exec(&out[k], &x)
            invariant
                0 <= k <= out@.len(),
                out@ == out0,
                levels_wf(out@),
                level_wf(x),
                forall|t: int| 0 <= t < k ==> ask_le(#[trigger] out@[t], x),
            decreases out@.len() - k,
        {
            k = k + 1;
        }
        out.insert(k, x);
        proof {
            vstd::seq_lib::to_multiset_insert(out0, k as int, x);
            assert(v@.take(i + 1) == v@.take(i as int).push(v@[i as int]));
            vstd::seq_lib::to_multiset_build(v@.take(i as int), v@[i as int]);
            assert(v@.take(i + 1).to_multiset() =~= v@.take(i as int).to_multiset().insert(x));
            assert(out@.to_multiset() =~= v@.take(i + 1).to_multiset());
            assert forall|a: int, b: int| 0 <= a < b < out@.len() implies #[trigger] ask_le(
                out@[a],
                out@[b],
            ) by {
                if a < k && b > k {
                    assert(ask_le(out0[a], out0[b - 1]) || b - 1 == a);
                }
                if b == k as int {
                    assert(out@[a] == out0[a]);
                }
                if a == k as int {
                    assert(!ask_le(out0[k as int], x));
                    assert(ask_le(x, out0[k as int]));
                    assert(out@[b] == out0[b - 1]);
                    if b - 1 > k {
                        assert(ask_le(out0[k as int], out0[b - 1]));
                    }
                }
            }
        }
        i = i + 1;
    }
    proof {
        assert(v@.take(v@.len() as int) == v@);
    }
    out
}

/// All bid levels of the given snapshots, venue after venue.
pub open spec fn concat_bids(vs: Seq<OrderBookOnlyLevels>) -> Seq<Level>
    decreases vs.len(),
{
    if vs.len() == 0 {
        Seq::empty()
    } else {
        concat_bids(vs.drop_last()) + vs.last().bids@
    }
}

/// All ask levels of the given snapshots, venue after venue.
pub open spec fn concat_asks(vs: Seq<OrderBookOnlyLevels>) -> Seq<Level>
    decreases vs.len(),
{
    if vs.len() == 0 {
        Seq::empty()
    } else {
        concat_asks(vs.drop_last()) + vs.last().asks@
    }
}

proof fn lemma_concat_first_venue(vs: Seq<OrderBookOnlyLevels>)
    requires
        vs.len() >= 1,
    ensures
        concat_bids(vs).len() >= vs[0].bids@.len(),
        concat_asks(vs).len() >= vs[0].asks@.len(),
    decreases vs.len(),
{
    if vs.len() > 1 {
        lemma_concat_first_venue(vs.drop_last());
    }
}

fn gather_bids(vs: &Vec<OrderBookOnlyLevels>) -> (r: Vec<Level>)
    requires
        forall|i: int| 0 <= i < vs@.len() ==> (#[trigger] vs@[i]).wf(),
    ensures
        r@ == concat_bids(vs@),
        levels_wf(r@),
{
    let mut out: Vec<Level> = Vec::new();
    let mut i: usize = 0;
    while i < vs.len()
        invariant
            0 <= i <= vs@.len(),
            forall|t: int| 0 <= t < vs@.len() ==> (#[trigger] vs@[t]).wf(),
            out@ == concat_bids(vs@.take(i as int)),
            levels_wf(out@),
        decreases vs@.len() - i,
    {
        let side = &vs[i].bids;
        let mut j: usize = 0;
        while j < side.len()
            invariant
                0 <= j <= side@.len(),
                side@ == vs@[i as int].bids@,
                0 <= i < vs@.len(),
                forall|t: int| 0 <= t < vs@.len() ==> (#[trigger] vs@[t]).wf(),
                out@ == concat_bids(vs@.take(i as int)) + side@.take(j as int),
                levels_wf(out@),
            decreases side@.len() - j,
        {
            out.push(side[j]);
            proof {
                assert(side@.take(j + 1) == side@.take(j as int).push(side@[j as int]));
            }
            j = j + 1;
        }
        proof {
            assert(side@.take(side@.len() as int) == side@);
            assert(vs@.take(i + 1).drop_last() == vs@.take(i as int));
            assert(vs@.take(i + 1).last() == vs@[i as int]);
        }
        i = i + 1;
    }
    proof {
        assert(vs@.take(vs@.len() as int) == vs@);
    }
    out
}

fn gather_asks(vs: &Vec<OrderBookOnlyLevels>) -> (r: Vec<Level>)
    requires
        forall|i: int| 0 <= i < vs@.len() ==> (#[trigger] vs@[i]).wf(),
    ensures
        r@ == concat_asks(vs@),
        levels_wf(r@),
{
    let mut out: Vec<Level> = Vec::new();
    let mut i: usize = 0;
    while i < vs.len()
        invariant
            0 <= i <= vs@.len(),
            forall|t: int| 0 <= t < vs@.len() ==> (#[trigger] vs@[t]).wf(),
            out@ == concat_asks(vs@.take(i as int)),
            levels_wf(out@),
        decreases vs@.len() - i,
    {
        let side = &vs[i].asks;
        let mut j: usize = 0;
        while j < side.len()
            invariant
                0 <= j <= side@.len(),
                side@ == vs@[i as int].asks@,
                0 <= i < vs@.len(),
                forall|t: int| 0 <= t < vs@.len() ==> (#[trigger] vs@[t]).wf(),
                out@ == concat_asks(vs@.take(i as int)) + side@.take(j as int),
                levels_wf(out@),
            decreases side@.len() - j,
        {
            out.push(side[j]);
            proof {
                assert(side@.take(j + 1) == side@.take(j as int).push(side@[j as int]));
            }
            j = j + 1;
        }
        proof {
            assert(side@.take(side@.len() as int) == side@);
            assert(vs@.take(i + 1).drop_last() == vs@.take(i as int));
            assert(vs@.take(i + 1).last() == vs@[i as int]);
        }
        i = i + 1;
    }
    proof {
        assert(vs@.take(vs@.len() as int) == vs@);
    }
    out
}

/// The published list is the first `count` levels of some sorting of all
/// merged levels by the given order.
pub open spec fn merged_prefix(s: Seq<Level>, all: Seq<Level>, count: int, bids: bool) -> bool {
    exists|whole: Seq<Level>|
        {
            &&& whole.to_multiset() == all.to_multiset()
            &&& if bids {
                sorted_bids(whole)
            } else {
                sorted_asks(whole)
            }
            &&& s == whole.take(vstd::math::min(count, whole.len() as int))
        }
}

/// Some sorted merge of the snapshots' levels has a best-ask minus best-bid
/// difference that is not representable: the one way building a summary may
/// fail.
pub open spec fn spread_unrepresentable(vs: Seq<OrderBookOnlyLevels>) -> bool {
    exists|wb: Seq<Level>, wa: Seq<Level>|
        {
            &&& wb.to_multiset() == concat_bids(vs).to_multiset()
            &&& sorted_bids(wb)
            &&& wb.len() >= 1
            &&& wa.to_multiset() == concat_asks(vs).to_multiset()
            &&& sorted_asks(wa)
            &&& wa.len() >= 1
            &&& !sub_value_ok(wa[0].price, wb[0].price)
        }
}

/// What a summary built from the given snapshots states: the common symbol,
/// both merged lists sorted and cut to the first venue's bid level count,
/// and the spread as the exact difference between the best ask price and
/// the best bid price.
pub open spec fn summary_of(s: Summary, vs: Seq<OrderBookOnlyLevels>) -> bool {
    let count = vs[0].bids@.len() as int;
    &&& s.symbol == vs[0].symbol
    &&& merged_prefix(s.bids@, concat_bids(vs), count, true)
    &&& merged_prefix(s.asks@, concat_asks(vs), count, false)
    &&& s.bids@.len() >= 1
    &&& s.asks@.len() >= 1
    &&& levels_wf(s.bids@)
    &&& levels_wf(s.asks@)
    &&& sorted_bids(s.bids@)
    &&& sorted_asks(s.asks@)
    &&& s.spread.wf()
    &&& s.spread.value() == s.asks@[0].price.value() - s.bids@[0].price.value()
}

/// Merges the given per-venue snapshots into a single summary: all bids and
/// asks of both venues sorted by the merged orders, cut to the first
/// venue's bid level count, with `spread` the exact difference between the
/// best merged ask price and the best merged bid price.  Fails with
/// `ValueOutOfRange` exactly when that difference is not representable.
pub fn make_summary(book_levels_vec: Vec<OrderBookOnlyLevels>) -> (r: Result<
    Summary,
    OrderBookError,
>)
    requires
        book_levels_vec@.len() >= 1,
        forall|i: int| 0 <= i < book_levels_vec@.len() ==> (#[trigger] book_levels_vec@[i]).wf(),
        forall|i: int| 0 <= i < book_levels_vec@.len() ==> (#[trigger] book_levels_vec@[i]).bids@.len() >= 1,
        forall|i: int| 0 <= i < book_levels_vec@.len() ==> (#[trigger] book_levels_vec@[i]).asks@.len() >= 1,
    ensures
        r matches Ok(s) ==> summary_of(s, book_levels_vec@),
        r is Err ==> r == Err::<Summary, OrderBookError>(OrderBookError::ValueOutOfRange)
            && spread_unrepresentable(book_levels_vec@),
{
    let levels_count = book_levels_vec[0].bids.len();
    let all_bids = gather_bids(&book_levels_vec);
    let all_asks = gather_asks(&book_levels_vec);
    proof {
        lemma_concat_first_venue(book_levels_vec@);
    }
    let mut take_bids = sort_bids(&all_bids);
    let mut take_asks = sort_asks(&all_asks);
    let ghost whole_bids = take_bids@;
    let ghost whole_asks = take_asks@;
    take_bids.truncate(levels_count);
    take_asks.truncate(levels_count);
    proof {
        assert(take_bids@ == whole_bids.take(
            vstd::math::min(levels_count as int, whole_bids.len() as int),
        ));
        assert(take_asks@ == whole_asks.take(
            vstd::math::min(levels_count as int, whole_asks.len() as int),
        ));
    }
    let spread = match sub_value(&take_asks[0].price, &take_bids[0].price) {
        Ok(d) => d,
        Err(e) => {
            proof {
                assert(take_asks@[0] == whole_asks[0]);
                assert(take_bids@[0] == whole_bids[0]);
                assert({
                    &&& whole_bids.to_multiset() == concat_bids(book_levels_vec@).to_multiset()
                    &&& sorted_bids(whole_bids)
                    &&& whole_bids.len() >= 1
                    &&& whole_asks.to_multiset() == concat_asks(book_levels_vec@).to_multiset()
                    &&& sorted_asks(whole_asks)
                    &&& whole_asks.len() >= 1
                    &&& !sub_value_ok(whole_asks[0].price, whole_bids[0].price)
                });
                assert(spread_unrepresentable(book_levels_vec@));
            }
            return Err(e);
        },
    };
    Ok(
        Summary {
            symbol: book_levels_vec[0].symbol,
            spread,
            bids: take_bids,
            asks: take_asks,
        },
    )
}

/// Merger tie-break: when both venues' best bids carry the same price and
/// the first snapshot's quantity is strictly larger, every merged bid list
/// places the first snapshot's level first, venue attribution and all.
pub proof fn lemma_merger_tie_break(
    a: OrderBookOnlyLevels,
    b: OrderBookOnlyLevels,
    merged: Seq<Level>,
)
    requires
        a.wf(),
        b.wf(),
        a.bids@.len() >= 1,
        b.bids@.len() >= 1,
        a.bids@[0].price.magnitude() == b.bids@[0].price.magnitude(),
        a.bids@[0].quantity.magnitude() > b.bids@[0].quantity.magnitude(),
        sorted_bids(merged),
        merged.to_multiset() == (a.bids@ + b.bids@).to_multiset(),
    ensures
        merged.len() >= 1,
        merged[0] == a.bids@[0],
{
    broadcast use group_to_multiset_ensures;

    let all = a.bids@ + b.bids@;
    let a0 = a.bids@[0];
    let b0 = b.bids@[0];
    vstd::seq_lib::to_multiset_len(merged);
    vstd::seq_lib::to_multiset_len(all);
    assert(merged.len() == all.len());
    assert(all[0] == a0);
    assert(all.contains(a0));
    assert(merged.to_multiset().count(a0) > 0);
    assert(merged.contains(a0));
    let t = choose|t: int| 0 <= t < merged.len() && merged[t] == a0;
    if t == 0 {
    } else {
        assert(bid_le(merged[0], a0));
        assert(merged.contains(merged[0]));
        assert(all.to_multiset().count(merged[0]) > 0);
        assert(all.contains(merged[0]));
        let k = choose|k: int| 0 <= k < all.len() && all[k] == merged[0];
        // every merged level's price is at most the shared best bid price
        if k < a.bids@.len() {
            assert(all[k] == a.bids@[k]);
            if k > 0 {
                assert(a.bids@[0].price.magnitude() > a.bids@[k].price.magnitude());
            }
        } else {
            assert(all[k] == b.bids@[k - a.bids@.len()]);
            if k > a.bids@.len() {
                assert(b.bids@[0].price.magnitude() > b.bids@[k - a.bids@.len()].price.magnitude());
            }
        }
        // so the head's price equals it and its quantity is at least a0's,
        // which rules out every level but a0 itself
        assert(merged[0].price.magnitude() == a0.price.magnitude());
        assert(merged[0].quantity.magnitude() >= a0.quantity.magnitude());
        assert(merged[0] == a0 || merged[0] == b0);
        assert(merged[0] == a0);
    }
}

proof fn lemma_concat_pair(u: OrderBookOnlyLevels, w: OrderBookOnlyLevels)
    ensures
        concat_bids(seq![u, w]) == u.bids@ + w.bids@,
        concat_asks(seq![u, w]) == u.asks@ + w.asks@,
{
    let s = seq![u, w];
    assert(s.drop_last() =~= seq![u]);
    assert(seq![u].drop_last() =~= Seq::<OrderBookOnlyLevels>::empty());
    assert(concat_bids(Seq::<OrderBookOnlyLevels>::empty()) == Seq::<Level>::empty());
    assert(concat_bids(seq![u]) == Seq::<Level>::empty() + u.bids@);
    assert(Seq::<Level>::empty() + u.bids@ =~= u.bids@);
    assert(concat_bids(s) == concat_bids(seq![u]) + w.bids@);
    assert(concat_asks(Seq::<OrderBookOnlyLevels>::empty()) == Seq::<Level>::empty());
    assert(concat_asks(seq![u]) == Seq::<Level>::empty() + u.asks@);
    assert(Seq::<Level>::empty() + u.asks@ =~= u.asks@);
    assert(concat_asks(s) == concat_asks(seq![u]) + w.asks@);
}

/// The merger's table of the latest per-venue snapshots.
#[derive(Debug)]
pub struct MergerState {
    pub binance: Option<OrderBookOnlyLevels>,
    pub bitstamp: Option<OrderBookOnlyLevels>,
}

fn copy_levels(v: &Vec<Level>) -> (r: Vec<Level>)
    ensures
        r@ == v@,
{
    let mut out: Vec<Level> = Vec::new();
    let mut i: usize = 0;
    while i < v.len()
        invariant
            0 <= i <= v@.len(),
            out@ == v@.take(i as int),
        decreases v@.len() - i,
    {
        out.push(v[i]);
        proof {
            assert(v@.take(i + 1) == v@.take(i as int).push(v@[i as int]));
        }
        i = i + 1;
    }
    proof {
        assert(v@.take(v@.len() as int) == v@);
    }
    out
}

impl OrderBookOnlyLevels {
    /// A field-for-field copy of the snapshot.
    pub fn duplicate(&self) -> (r: Self)
        ensures
            r.exchange == self.exchange,
            r.symbol == self.symbol,
            r.last_update_id == self.last_update_id,
            r.bids@ == self.bids@,
            r.asks@ == self.asks@,
    {
        OrderBookOnlyLevels {
            exchange: self.exchange,
            symbol: self.symbol,
            last_update_id: self.last_update_id,
            bids: copy_levels(&self.bids),
            asks: copy_levels(&self.asks),
        }
    }
}

impl MergerState {
    /// Every stored snapshot is well-formed and stored under its own venue.
    pub open spec fn wf(self) -> bool {
        &&& self.binance matches Some(l) ==> l.wf() && l.exchange == ExchangeName::BINANCE
        &&& self.bitstamp matches Some(l) ==> l.wf() && l.exchange == ExchangeName::BITSTAMP
    }

    /// Both venues have reported, with all four sides non-empty: publishing
    /// may begin.
    pub open spec fn ready(self) -> bool {
        &&& self.binance matches Some(bn) && bn.bids@.len() >= 1 && bn.asks@.len() >= 1
        &&& self.bitstamp matches Some(bs) && bs.bids@.len() >= 1 && bs.asks@.len() >= 1
    }

    /// The snapshots a summary is made from, first venue first.
    pub open spec fn snapshots(self) -> Seq<OrderBookOnlyLevels>
        recommends
            self.ready(),
    {
        seq![self.binance->Some_0, self.bitstamp->Some_0]
    }

    /// An empty table: neither venue has reported yet.
    pub fn new() -> (r: Self)
        ensures
            r.binance is None,
            r.bitstamp is None,
            r.wf(),
    {
        MergerState { binance: None, bitstamp: None }
    }

    /// Takes one venue's fresh snapshot: overwrites that venue's entry and,
    /// when both venues are present with non-empty sides, produces the
    /// merged summary to publish; produces nothing before that point.
    /// Fails only as `make_summary` does.
    pub fn on_levels(&mut self, levels: OrderBookOnlyLevels) -> (r: Result<
        Option<Summary>,
        OrderBookError,
    >)
        requires
            old(self).wf(),
            levels.wf(),
        ensures
            final(self).wf(),
            levels.exchange == ExchangeName::BINANCE ==> final(self).binance == Some(levels)
                && final(self).bitstamp == old(self).bitstamp,
            levels.exchange == ExchangeName::BITSTAMP ==> final(self).bitstamp == Some(levels)
                && final(self).binance == old(self).binance,
            !final(self).ready() ==> r == Ok::<Option<Summary>, OrderBookError>(None),
            final(self).ready() ==> match r {
                Ok(Some(s)) => summary_of(s, final(self).snapshots()),
                Ok(None) => false,
                Err(e) => e == OrderBookError::ValueOutOfRange && spread_unrepresentable(
                    final(self).snapshots(),
                ),
            },
    {
        match levels.exchange {
            ExchangeName::BINANCE => {
                self.binance = Some(levels);
            },
            ExchangeName::BITSTAMP => {
                self.bitstamp = Some(levels);
            },
        }
        let (bn, bs) = match (&self.binance, &self.bitstamp) {
            (Some(bn), Some(bs)) => (bn, bs),
            _ => {
                return Ok(None);
            },
        };
        if bn.bids.len() == 0 || bn.asks.len() == 0 || bs.bids.len() == 0 || bs.asks.len() == 0 {
            return Ok(None);
        }
        let mut book_levels_vec: Vec<OrderBookOnlyLevels> = Vec::new();
        book_levels_vec.push(bn.duplicate());
        book_levels_vec.push(bs.duplicate());
        proof {
            assert(book_levels_vec@[0].wf());
            assert(book_levels_vec@[1].wf());
            lemma_concat_pair(book_levels_vec@[0], book_levels_vec@[1]);
            lemma_concat_pair(self.snapshots()[0], self.snapshots()[1]);
            assert(book_levels_vec@ =~= seq![book_levels_vec@[0], book_levels_vec@[1]]);
            assert(self.snapshots() =~= seq![self.snapshots()[0], self.snapshots()[1]]);
            assert(concat_bids(book_levels_vec@) == concat_bids(self.snapshots()));
            assert(concat_asks(book_levels_vec@) == concat_asks(self.snapshots()));
        }
        match make_summary(book_levels_vec) {
            Ok(s) => {
                proof {
                    assert(summary_of(s, self.snapshots()));
                }
                Ok(Some(s))
            },
            Err(e) => Err(e),
        }
    }
}

} // verus!
