use orderbook_merger::{ExchangeName, Symbol, make_summary};
use orderbook_merger::decimal::DisplayAmount;
use orderbook_merger::orderbook::{Level, OrderBookOnlyLevels};
use orderbook_merger::summary::MergerState;

fn amount(mantissa: u128, scale: u32) -> DisplayAmount {
    DisplayAmount { negative: false, mantissa, scale }
}

fn level(exchange: ExchangeName, price: u128, qty: u128) -> Level {
    Level { exchange, price: amount(price, 0), quantity: amount(qty, 0) }
}

fn snapshot(
    exchange: ExchangeName,
    bids: Vec<(u128, u128)>,
    asks: Vec<(u128, u128)>,
) -> OrderBookOnlyLevels {
    OrderBookOnlyLevels {
        exchange,
        symbol: Symbol::BTCUSDT,
        bids: bids.into_iter().map(|(p, q)| level(exchange, p, q)).collect(),
        asks: asks.into_iter().map(|(p, q)| level(exchange, p, q)).collect(),
        last_update_id: 1,
    }
}

#[test]
fn cross_venue_merge_ranks_larger_quantity_first() {
    // venue A top bids (100,1) (99,5); venue B (100,2) (98,7); two levels kept
    let a = snapshot(ExchangeName::BINANCE, vec![(100, 1), (99, 5)], vec![(101, 1), (102, 1)]);
    let b = snapshot(ExchangeName::BITSTAMP, vec![(100, 2), (98, 7)], vec![(101, 3), (103, 2)]);
    let summary = make_summary(vec![a, b]).unwrap();
    assert_eq!(summary.bids.len(), 2);
    assert_eq!(summary.bids[0], level(ExchangeName::BITSTAMP, 100, 2));
    assert_eq!(summary.bids[1], level(ExchangeName::BINANCE, 100, 1));
}

#[test]
fn merge_keeps_venue_attribution_on_ask_ties() {
    let a = snapshot(ExchangeName::BINANCE, vec![(100, 1)], vec![(101, 5)]);
    let b = snapshot(ExchangeName::BITSTAMP, vec![(99, 2)], vec![(101, 2)]);
    let summary = make_summary(vec![a, b]).unwrap();
    // equal ask prices: the larger quantity ranks first, venues kept apart
    assert_eq!(summary.asks[0], level(ExchangeName::BINANCE, 101, 5));
}

#[test]
fn spread_is_best_ask_minus_best_bid() {
    let a = snapshot(ExchangeName::BINANCE, vec![(100, 1), (99, 5)], vec![(103, 1)]);
    let b = snapshot(ExchangeName::BITSTAMP, vec![(98, 2)], vec![(102, 3)]);
    let summary = make_summary(vec![a, b]).unwrap();
    // best ask 102, best bid 100
    assert!(!summary.spread.negative);
    assert_eq!(summary.spread.mantissa, 2);
    assert_eq!(summary.spread.scale, 0);
    assert_eq!(summary.symbol, Symbol::BTCUSDT);
}

#[test]
fn spread_may_be_negative_in_crossed_markets() {
    let a = snapshot(ExchangeName::BINANCE, vec![(105, 1)], vec![(106, 1)]);
    let b = snapshot(ExchangeName::BITSTAMP, vec![(90, 1)], vec![(104, 1)]);
    let summary = make_summary(vec![a, b]).unwrap();
    // best ask 104 under best bid 105
    assert!(summary.spread.negative);
    assert_eq!(summary.spread.mantissa, 1);
}

#[test]
fn merged_lists_are_cut_to_first_venue_level_count() {
    let a = snapshot(ExchangeName::BINANCE, vec![(100, 1), (99, 1), (98, 1)], vec![(101, 1)]);
    let b = snapshot(ExchangeName::BITSTAMP, vec![(97, 1)], vec![(102, 1), (103, 1)]);
    let summary = make_summary(vec![a, b]).unwrap();
    assert_eq!(summary.bids.len(), 3);
    assert_eq!(summary.asks.len(), 3);
    let bid_prices: Vec<u128> = summary.bids.iter().map(|l| l.price.mantissa).collect();
    assert_eq!(bid_prices, vec![100, 99, 98]);
    let ask_prices: Vec<u128> = summary.asks.iter().map(|l| l.price.mantissa).collect();
    assert_eq!(ask_prices, vec![101, 102, 103]);
}

#[test]
fn merger_state_publishes_only_when_both_venues_present() {
    let mut state = MergerState::new();
    let a = snapshot(ExchangeName::BINANCE, vec![(100, 1)], vec![(101, 1)]);
    assert_eq!(state.on_levels(a).unwrap(), None);
    let b = snapshot(ExchangeName::BITSTAMP, vec![(99, 2)], vec![(102, 2)]);
    let summary = state.on_levels(b).unwrap().unwrap();
    assert_eq!(summary.bids[0], level(ExchangeName::BINANCE, 100, 1));
    assert_eq!(summary.asks[0], level(ExchangeName::BINANCE, 101, 1));
    assert_eq!(summary.spread.mantissa, 1);
}

#[test]
fn merger_state_overwrites_per_venue_entry() {
    let mut state = MergerState::new();
    state.on_levels(snapshot(ExchangeName::BINANCE, vec![(100, 1)], vec![(101, 1)])).unwrap();
    state.on_levels(snapshot(ExchangeName::BITSTAMP, vec![(99, 2)], vec![(102, 2)])).unwrap();
    // a fresh snapshot from the first venue replaces its entry
    let fresh = snapshot(ExchangeName::BINANCE, vec![(100, 9)], vec![(101, 9)]);
    let summary = state.on_levels(fresh).unwrap().unwrap();
    assert_eq!(summary.bids[0], level(ExchangeName::BINANCE, 100, 9));
}
