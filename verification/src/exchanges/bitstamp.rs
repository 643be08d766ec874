//! The timestamp-sequenced venue: its snapshot and diff-frame shapes, the
//! scale selection from its trading-pairs metadata, its endpoints, and the
//! textual subscribe frame its websocket wants after connecting.
//!
//! The venue stamps every message with a microsecond timestamp; the book
//! accepts a frame whenever time does not move backwards.

use vstd::prelude::*;
use crate::Symbol;
use crate::decimal::DisplayAmount;
use crate::orderbook::{UpdateRecord, level_pair_wf};

verus! {

/// The REST order-book snapshot, already parsed to plain values.
#[derive(Debug)]
pub struct Snapshot {
    pub last_update_id: u64,
    pub bids: Vec<[DisplayAmount; 2]>,
    pub asks: Vec<[DisplayAmount; 2]>,
}

/// The payload of one websocket diff frame.
#[derive(Debug)]
pub struct BookUpdateData {
    pub last_update_id: u64,
    pub bids: Vec<[DisplayAmount; 2]>,
    pub asks: Vec<[DisplayAmount; 2]>,
}

/// One websocket diff frame, already parsed to plain values.
#[derive(Debug)]
pub struct BookUpdate {
    pub data: BookUpdateData,
}

impl Snapshot {
    /// Every amount is a well-formed non-negative decimal.
    pub open spec fn wf(self) -> bool {
        &&& forall|i: int| 0 <= i < self.bids@.len() ==> level_pair_wf(#[trigger] self.bids@[i])
        &&& forall|i: int| 0 <= i < self.asks@.len() ==> level_pair_wf(#[trigger] self.asks@[i])
    }

    /// The snapshot as the first update of the stream.
    pub fn into_update(self) -> (r: UpdateRecord)
        requires
            self.wf(),
        ensures
            r == (UpdateRecord::Timestamped {
                last_update_id: self.last_update_id,
                bids: self.bids,
                asks: self.asks,
            }),
            r.wf(),
    {
        UpdateRecord::Timestamped {
            last_update_id: self.last_update_id,
            bids: self.bids,
            asks: self.asks,
        }
    }
}

impl BookUpdate {
    /// Every amount is a well-formed non-negative decimal.
    pub open spec fn wf(self) -> bool {
        &&& forall|i: int| 0 <= i < self.data.bids@.len() ==> level_pair_wf(
            #[trigger] self.data.bids@[i],
        )
        &&& forall|i: int| 0 <= i < self.data.asks@.len() ==> level_pair_wf(
            #[trigger] self.data.asks@[i],
        )
    }

    /// The frame as a timestamped update record.
    pub fn into_update(self) -> (r: UpdateRecord)
        requires
            self.wf(),
        ensures
            r == (UpdateRecord::Timestamped {
                last_update_id: self.data.last_update_id,
                bids: self.data.bids,
                asks: self.data.asks,
            }),
            r.wf(),
    {
        UpdateRecord::Timestamped {
            last_update_id: self.data.last_update_id,
            bids: self.data.bids,
            asks: self.data.asks,
        }
    }
}

/// One trading pair's record from the venue's pairs listing, already parsed
/// to plain values: the pair's URL name and its two decimal-digit counts.
#[derive(Debug)]
pub struct PairInfo {
    pub url_symbol: Vec<u8>,
    pub base_decimals: u32,
    pub counter_decimals: u32,
}

/// The lowercase URL name of the pair, as bytes.
pub open spec fn symbol_url_bytes(symbol: Symbol) -> Seq<u8> {
    match symbol {
        Symbol::BTCUSDT => seq![98u8, 116u8, 99u8, 117u8, 115u8, 100u8, 116u8],
        Symbol::ETHUSDT => seq![101u8, 116u8, 104u8, 117u8, 115u8, 100u8, 116u8],
    }
}

/// The lowercase URL name of the pair, as bytes.
pub fn symbol_url_vec(symbol: Symbol) -> (r: Vec<u8>)
    ensures
        r@ == symbol_url_bytes(symbol),
{
    let mut v: Vec<u8> = Vec::new();
    match symbol {
        Symbol::BTCUSDT => {
            v.push(98);
            v.push(116);
            v.push(99);
            v.push(117);
            v.push(115);
            v.push(100);
            v.push(116);
        },
        Symbol::ETHUSDT => {
            v.push(101);
            v.push(116);
            v.push(104);
            v.push(117);
            v.push(115);
            v.push(100);
            v.push(116);
        },
    }
    proof {
        assert(v@ =~= symbol_url_bytes(symbol));
    }
    v
}

/// The record names the given pair.
pub open spec fn pair_matches(p: PairInfo, symbol: Symbol) -> bool {
    p.url_symbol@ == symbol_url_bytes(symbol)
}

fn bytes_eq(a: &Vec<u8>, b: &Vec<u8>) -> (r: bool)
    ensures
        r == (a@ == b@),
{
    if a.len() != b.len() {
        return false;
    }
    let mut i: usize = 0;
    while i < a.len()
        invariant
            0 <= i <= a@.len(),
            a@.len() == b@.len(),
            forall|k: int| 0 <= k < i ==> a@[k] == b@[k],
        decreases a@.len() - i,
    {
        if a[i] != b[i] {
            return false;
        }
        i = i + 1;
    }
    proof {
        assert(a@ =~= b@);
    }
    true
}

/// The scales the venue's trading-pairs metadata dictates for the given
/// pair: counter decimals for prices, base decimals for quantities, taken
/// from the first record naming the pair.  `None` exactly when no record
/// names it.
pub fn scales_from_pairs(pairs: &Vec<PairInfo>, symbol: Symbol) -> (r: Option<(u32, u32)>)
    ensures
        r is Some <==> exists|i: int| 0 <= i < pairs@.len() && pair_matches(#[trigger] pairs@[i], symbol),
        r matches Some(scales) ==> exists|i: int|
            {
                &&& 0 <= i < pairs@.len()
                &&& pair_matches(#[trigger] pairs@[i], symbol)
                &&& forall|k: int| 0 <= k < i ==> !pair_matches(#[trigger] pairs@[k], symbol)
                &&& scales.0 == pairs@[i].counter_decimals
                &&& scales.1 == pairs@[i].base_decimals
            },
{
    let wanted = symbol_url_vec(symbol);
    let mut i: usize = 0;
    while i < pairs.len()
        invariant
            0 <= i <= pairs@.len(),
            wanted@ == symbol_url_bytes(symbol),
            forall|k: int| 0 <= k < i ==> !pair_matches(#[trigger] pairs@[k], symbol),
        decreases pairs@.len() - i,
    {
        if bytes_eq(&pairs[i].url_symbol, &wanted) {
            return Some((pairs[i].counter_decimals, pairs[i].base_decimals));
        }
        i = i + 1;
    }
    None
}

/// The REST endpoint the trading-pairs metadata is fetched from.
pub fn info_url() -> (r: &'static str)
    ensures
        r@ == "https://www.bitstamp.net/api/v2/trading-pairs-info/"@,
{
    "https://www.bitstamp.net/api/v2/trading-pairs-info/"
}

/// The REST endpoint the full order book is fetched from.
pub fn order_book_url(symbol: Symbol) -> (r: &'static str)
    ensures
        symbol == Symbol::BTCUSDT ==> r@ == "https://www.bitstamp.net/api/v2/order_book/btcusdt"@,
        symbol == Symbol::ETHUSDT ==> r@ == "https://www.bitstamp.net/api/v2/order_book/ethusdt"@,
{
    match symbol {
        Symbol::BTCUSDT => "https://www.bitstamp.net/api/v2/order_book/btcusdt",
        Symbol::ETHUSDT => "https://www.bitstamp.net/api/v2/order_book/ethusdt",
    }
}

/// The venue's fixed websocket endpoint.
pub fn ws_url() -> (r: &'static str)
    ensures
        r@ == "wss://ws.bitstamp.net/"@,
{
    "wss://ws.bitstamp.net/"
}

/// The textual subscribe frame to send after connecting: it names the
/// pair's diff-order-book channel.
pub fn subscribe_frame(symbol: Symbol) -> (r: &'static str)
    ensures
        symbol == Symbol::BTCUSDT ==> r@
            == "{\"event\":\"bts:subscribe\",\"data\":{\"channel\":\"diff_order_book_btcusdt\"}}"@,
        symbol == Symbol::ETHUSDT ==> r@
            == "{\"event\":\"bts:subscribe\",\"data\":{\"channel\":\"diff_order_book_ethusdt\"}}"@,
{
    match symbol {
        Symbol::BTCUSDT => "{\"event\":\"bts:subscribe\",\"data\":{\"channel\":\"diff_order_book_btcusdt\"}}",
        Symbol::ETHUSDT => "{\"event\":\"bts:subscribe\",\"data\":{\"channel\":\"diff_order_book_ethusdt\"}}",
    }
}

} // verus!
