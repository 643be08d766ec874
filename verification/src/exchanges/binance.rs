//! The strict-sequenced venue: its snapshot and diff-frame shapes, the scale
//! extraction from its exchange-info metadata, and its endpoints.
//!
//! The venue numbers its diffs with an explicit closed range of sequence
//! ids; the book accepts a frame only when the range starts exactly one past
//! the replica's watermark.

use vstd::prelude::*;
use crate::Symbol;
use crate::decimal::{
    DisplayAmount, MAX_SCALE, parse_decimal_bytes, wellformed_decimal, decimal_digits,
    decimal_scale_of, digits_val, MANTISSA_LIMIT,
};
use crate::orderbook::{UpdateRecord, level_pair_wf};

verus! {

/// The REST depth snapshot, already parsed to plain values: the watermark it
/// was taken at and the full lists of bid and ask levels.
#[derive(Debug)]
pub struct Snapshot {
    pub last_update_id: u64,
    pub bids: Vec<[DisplayAmount; 2]>,
    pub asks: Vec<[DisplayAmount; 2]>,
}

/// One websocket diff frame, already parsed to plain values: the closed
/// range of sequence ids it covers and its bid and ask levels.
#[derive(Debug)]
pub struct BookUpdate {
    pub first_update_id: u64,
    pub last_update_id: u64,
    pub bids: Vec<[DisplayAmount; 2]>,
    pub asks: Vec<[DisplayAmount; 2]>,
}

impl Snapshot {
    /// Every amount is a well-formed non-negative decimal and the snapshot
    /// carries a live watermark.
    pub open spec fn wf(self) -> bool {
        &&& forall|i: int| 0 <= i < self.bids@.len() ==> level_pair_wf(#[trigger] self.bids@[i])
        &&& forall|i: int| 0 <= i < self.asks@.len() ==> level_pair_wf(#[trigger] self.asks@[i])
        &&& self.last_update_id >= 1
    }

    /// The snapshot as the first update of the stream, covering everything
    /// up to its watermark (a synthetic first id of one).
    pub fn into_update(self) -> (r: UpdateRecord)
        requires
            self.wf(),
        ensures
            r == (UpdateRecord::Strict {
                first_update_id: 1u64,
                last_update_id: self.last_update_id,
                bids: self.bids,
                asks: self.asks,
            }),
            r.wf(),
    {
        UpdateRecord::Strict {
            first_update_id: 1,
            last_update_id: self.last_update_id,
            bids: self.bids,
            asks: self.asks,
        }
    }
}

impl BookUpdate {
    /// Every amount is a well-formed non-negative decimal and the frame
    /// covers a non-empty range of sequence ids.
    pub open spec fn wf(self) -> bool {
        &&& forall|i: int| 0 <= i < self.bids@.len() ==> level_pair_wf(#[trigger] self.bids@[i])
        &&& forall|i: int| 0 <= i < self.asks@.len() ==> level_pair_wf(#[trigger] self.asks@[i])
        &&& self.first_update_id <= self.last_update_id
    }

    /// The frame as a strict update record.
    pub fn into_update(self) -> (r: UpdateRecord)
        requires
            self.wf(),
        ensures
            r == (UpdateRecord::Strict {
                first_update_id: self.first_update_id,
                last_update_id: self.last_update_id,
                bids: self.bids,
                asks: self.asks,
            }),
            r.wf(),
    {
        UpdateRecord::Strict {
            first_update_id: self.first_update_id,
            last_update_id: self.last_update_id,
            bids: self.bids,
            asks: self.asks,
        }
    }
}

/// The fractional scale of a tick size decimal once trailing zeros are
/// dropped: `"0.01000000"` ticks in hundredths, so prices carry two digits.
pub open spec fn normalized_scale(m: nat, s: nat) -> nat
    decreases s,
{
    if s == 0 || m % 10 != 0 {
        s
    } else {
        normalized_scale(m / 10, (s - 1) as nat)
    }
}

/// The price scale the venue's `PRICE_FILTER.tickSize` string dictates: the
/// scale of the normalized tick decimal.  `None` exactly when the string is
/// not a representable decimal numeral.
pub fn tick_size_scale(tick_size: &[u8]) -> (r: Option<u32>)
    ensures
        r is Some <==> wellformed_decimal(tick_size@) && digits_val(decimal_digits(tick_size@))
            < MANTISSA_LIMIT as nat && decimal_scale_of(tick_size@) <= MAX_SCALE as nat,
        r matches Some(sc) ==> sc as nat == normalized_scale(
            digits_val(decimal_digits(tick_size@)),
            decimal_scale_of(tick_size@),
        ),
{
    let d = match parse_decimal_bytes(tick_size) {
        Some(d) => d,
        None => {
            return None;
        },
    };
    let mut m: u128 = d.mantissa;
    let mut sc: u32 = d.scale;
    while sc > 0 && m % 10 == 0
        invariant
            normalized_scale(m as nat, sc as nat) == normalized_scale(
                d.mantissa as nat,
                d.scale as nat,
            ),
        decreases sc,
    {
        m = m / 10;
        sc = sc - 1;
    }
    Some(sc)
}

/// The scales the venue's exchange-info metadata dictates: the normalized
/// tick size scale for prices, the base asset precision capped at eight for
/// quantities.  `None` exactly when the tick size cannot be read.
pub fn scales_from_info(tick_size: &[u8], base_asset_precision: u32) -> (r: Option<(u32, u32)>)
    ensures
        r is Some <==> wellformed_decimal(tick_size@) && digits_val(decimal_digits(tick_size@))
            < MANTISSA_LIMIT as nat && decimal_scale_of(tick_size@) <= MAX_SCALE as nat,
        r matches Some(scales) ==> scales.0 as nat == normalized_scale(
            digits_val(decimal_digits(tick_size@)),
            decimal_scale_of(tick_size@),
        ) && scales.1 == (if base_asset_precision < 8 {
            base_asset_precision
        } else {
            8u32
        }),
{
    let price_scale = match tick_size_scale(tick_size) {
        Some(sc) => sc,
        None => {
            return None;
        },
    };
    let quantity_scale = if base_asset_precision < 8 {
        base_asset_precision
    } else {
        8
    };
    Some((price_scale, quantity_scale))
}

/// The REST endpoint the venue's metadata is fetched from.
pub fn info_url(symbol: Symbol) -> (r: &'static str)
    ensures
        symbol == Symbol::BTCUSDT ==> r@ == "https://www.binance.us/api/v3/exchangeInfo?symbol=BTCUSDT"@,
        symbol == Symbol::ETHUSDT ==> r@ == "https://www.binance.us/api/v3/exchangeInfo?symbol=ETHUSDT"@,
{
    match symbol {
        Symbol::BTCUSDT => "https://www.binance.us/api/v3/exchangeInfo?symbol=BTCUSDT",
        Symbol::ETHUSDT => "https://www.binance.us/api/v3/exchangeInfo?symbol=ETHUSDT",
    }
}

/// The REST endpoint the depth snapshot is fetched from, limited to a
/// thousand levels.
pub fn depth_url(symbol: Symbol) -> (r: &'static str)
    ensures
        symbol == Symbol::BTCUSDT ==> r@ == "https://www.binance.us/api/v3/depth?symbol=BTCUSDT&limit=1000"@,
        symbol == Symbol::ETHUSDT ==> r@ == "https://www.binance.us/api/v3/depth?symbol=ETHUSDT&limit=1000"@,
{
    match symbol {
        Symbol::BTCUSDT => "https://www.binance.us/api/v3/depth?symbol=BTCUSDT&limit=1000",
        Symbol::ETHUSDT => "https://www.binance.us/api/v3/depth?symbol=ETHUSDT&limit=1000",
    }
}

/// The websocket endpoint of the hundred-millisecond diff stream; the
/// subscription is implicit in the path.
pub fn ws_url(symbol: Symbol) -> (r: &'static str)
    ensures
        symbol == Symbol::BTCUSDT ==> r@ == "wss://stream.binance.us:9443/ws/btcusdt@depth@100ms"@,
        symbol == Symbol::ETHUSDT ==> r@ == "wss://stream.binance.us:9443/ws/ethusdt@depth@100ms"@,
{
    match symbol {
        Symbol::BTCUSDT => "wss://stream.binance.us:9443/ws/btcusdt@depth@100ms",
        Symbol::ETHUSDT => "wss://stream.binance.us:9443/ws/ethusdt@depth@100ms",
    }
}

} // verus!
