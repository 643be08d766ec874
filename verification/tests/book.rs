use orderbook_merger::{ExchangeName, OrderBookError, Symbol};
use orderbook_merger::decimal::DisplayAmount;
use orderbook_merger::orderbook::{BookEntry, OrderBook, UpdateRecord};

fn amount(mantissa: u128, scale: u32) -> DisplayAmount {
    DisplayAmount { negative: false, mantissa, scale }
}

fn pair(price: u128, qty: u128) -> [DisplayAmount; 2] {
    [amount(price, 0), amount(qty, 0)]
}

fn new_book() -> OrderBook {
    OrderBook::new_orderbook(ExchangeName::BINANCE, Symbol::BTCUSDT, 0, 0)
}

fn snapshot_update() -> UpdateRecord {
    // snapshot at watermark 100: bids (10,1) (9,2); asks (11,1) (12,3)
    UpdateRecord::Strict {
        first_update_id: 1,
        last_update_id: 100,
        bids: vec![pair(10, 1), pair(9, 2)],
        asks: vec![pair(11, 1), pair(12, 3)],
    }
}

#[test]
fn bootstrap_single_venue() {
    let mut book = new_book();
    book.update(&snapshot_update()).unwrap();
    assert_eq!(book.last_update_id, 100);
    let diff = UpdateRecord::Strict {
        first_update_id: 101,
        last_update_id: 101,
        bids: vec![pair(10, 0)],
        asks: vec![pair(11, 2)],
    };
    book.update(&diff).unwrap();
    assert_eq!(book.last_update_id, 101);
    let levels = book.get_book_levels().unwrap();
    let bids: Vec<(u128, u128)> =
        levels.bids.iter().map(|l| (l.price.mantissa, l.quantity.mantissa)).collect();
    let asks: Vec<(u128, u128)> =
        levels.asks.iter().map(|l| (l.price.mantissa, l.quantity.mantissa)).collect();
    assert_eq!(bids, vec![(9, 2)]);
    assert_eq!(asks, vec![(11, 2), (12, 3)]);
    assert_eq!(levels.last_update_id, 101);
}

#[test]
fn gap_rejection_leaves_state_unchanged() {
    let mut book = new_book();
    book.update(&snapshot_update()).unwrap();
    let diff = UpdateRecord::Strict {
        first_update_id: 101,
        last_update_id: 101,
        bids: vec![pair(10, 0)],
        asks: vec![pair(11, 2)],
    };
    book.update(&diff).unwrap();
    let bids_before = book.bids.clone();
    let asks_before = book.asks.clone();
    let gapped = UpdateRecord::Strict {
        first_update_id: 103,
        last_update_id: 103,
        bids: vec![pair(8, 1)],
        asks: vec![],
    };
    assert_eq!(book.update(&gapped), Err(OrderBookError::SequenceGap));
    assert_eq!(book.last_update_id, 101);
    assert_eq!(book.bids, bids_before);
    assert_eq!(book.asks, asks_before);
}

#[test]
fn timestamp_venue_rejects_backwards_time() {
    let mut book = OrderBook::new_orderbook(ExchangeName::BITSTAMP, Symbol::BTCUSDT, 0, 0);
    let first = UpdateRecord::Timestamped {
        last_update_id: 1000,
        bids: vec![pair(10, 1)],
        asks: vec![pair(11, 1)],
    };
    let second = UpdateRecord::Timestamped {
        last_update_id: 999,
        bids: vec![pair(9, 1)],
        asks: vec![],
    };
    book.update(&first).unwrap();
    assert_eq!(book.last_update_id, 1000);
    assert_eq!(book.update(&second), Err(OrderBookError::SequenceGap));
    assert_eq!(book.last_update_id, 1000);
    // equal timestamps are accepted: time did not move backwards
    let same = UpdateRecord::Timestamped {
        last_update_id: 1000,
        bids: vec![pair(9, 4)],
        asks: vec![],
    };
    book.update(&same).unwrap();
    assert_eq!(book.last_update_id, 1000);
}

#[test]
fn insertion_is_idempotent() {
    let mut once = new_book();
    let mut twice = new_book();
    once.add_bid(pair(10, 3)).unwrap();
    twice.add_bid(pair(10, 3)).unwrap();
    twice.add_bid(pair(10, 3)).unwrap();
    assert_eq!(once.bids, twice.bids);
    once.add_ask(pair(12, 5)).unwrap();
    twice.add_ask(pair(12, 5)).unwrap();
    twice.add_ask(pair(12, 5)).unwrap();
    assert_eq!(once.asks, twice.asks);
}

#[test]
fn zero_quantity_deletes() {
    let mut book = new_book();
    book.add_bid(pair(10, 3)).unwrap();
    book.add_bid(pair(10, 0)).unwrap();
    assert!(book.bids.is_empty());
    // deleting an absent price is harmless
    book.add_ask(pair(11, 0)).unwrap();
    assert!(book.asks.is_empty());
}

#[test]
fn out_of_range_level_is_reported_and_skipped() {
    let mut book = new_book();
    let too_big = [amount(1u128 << 64, 0), amount(1, 0)];
    assert_eq!(book.add_bid(too_big), Err(OrderBookError::ValueOutOfRange));
    assert!(book.bids.is_empty());
    // inside an update the bad level is skipped and the rest applied
    let update = UpdateRecord::Timestamped {
        last_update_id: 5,
        bids: vec![too_big, pair(9, 2)],
        asks: vec![],
    };
    book.update(&update).unwrap();
    assert_eq!(book.bids, vec![BookEntry { price: 9, quantity: 2 }]);
    assert_eq!(book.last_update_id, 5);
}

#[test]
fn top_levels_are_sorted_and_capped() {
    let mut book = new_book();
    let mut asks = Vec::new();
    let mut bids = Vec::new();
    for p in 1..=15u128 {
        bids.push(pair(p, 1));
        asks.push(pair(100 + p, 1));
    }
    let update = UpdateRecord::Timestamped { last_update_id: 1, bids, asks };
    book.update(&update).unwrap();
    let levels = book.get_book_levels().unwrap();
    assert_eq!(levels.bids.len(), 10);
    assert_eq!(levels.asks.len(), 10);
    let bid_prices: Vec<u128> = levels.bids.iter().map(|l| l.price.mantissa).collect();
    let ask_prices: Vec<u128> = levels.asks.iter().map(|l| l.price.mantissa).collect();
    // bids descend from the best bid, asks ascend from the best ask
    assert_eq!(bid_prices, (6..=15u128).rev().collect::<Vec<_>>());
    assert_eq!(ask_prices, (101..=110u128).collect::<Vec<_>>());
}

#[test]
fn watermark_is_monotonic_across_applies() {
    let mut book = OrderBook::new_orderbook(ExchangeName::BITSTAMP, Symbol::ETHUSDT, 0, 0);
    let mut last = 0u64;
    for id in [3u64, 10, 10, 42, 100] {
        let u = UpdateRecord::Timestamped {
            last_update_id: id,
            bids: vec![pair(1, 1)],
            asks: vec![],
        };
        book.update(&u).unwrap();
        assert!(book.last_update_id >= last);
        last = book.last_update_id;
    }
    assert_eq!(book.last_update_id, 100);
}

#[test]
fn empty_book_has_no_levels() {
    let book = new_book();
    assert!(book.get_book_levels().is_none());
}
