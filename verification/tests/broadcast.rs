// The latest-value cell the broadcaster publishes into, exercised with the
// merger's own summaries: a subscriber sees the current value on its first
// read and the newest value thereafter, the publisher never waits, and a
// dropped receiver leaves the others untouched.

use orderbook_merger::{ExchangeName, Symbol, make_summary};
use orderbook_merger::decimal::DisplayAmount;
use orderbook_merger::orderbook::{Level, OrderBookOnlyLevels};
use orderbook_merger::summary::Summary;

fn amount(mantissa: u128, scale: u32) -> DisplayAmount {
    DisplayAmount { negative: false, mantissa, scale }
}

fn snapshot(exchange: ExchangeName, bid: u128, ask: u128) -> OrderBookOnlyLevels {
    let mk = |p: u128| Level { exchange, price: amount(p, 0), quantity: amount(1, 0) };
    OrderBookOnlyLevels {
        exchange,
        symbol: Symbol::BTCUSDT,
        bids: vec![mk(bid)],
        asks: vec![mk(ask)],
        last_update_id: 1,
    }
}

fn summary(bid: u128, ask: u128) -> Summary {
    make_summary(vec![
        snapshot(ExchangeName::BINANCE, bid, ask),
        snapshot(ExchangeName::BITSTAMP, bid - 1, ask + 1),
    ])
    .unwrap()
}

#[test]
fn subscription_fan_out_converges_to_newest() {
    let s0 = summary(10, 11);
    let (tx, rx_early) = tokio::sync::watch::channel(s0);
    let rx_second = tx.subscribe();
    let s1 = summary(20, 21);
    let s2 = summary(30, 31);
    let s3 = summary(40, 41);
    tx.send_replace(s1);
    tx.send_replace(s2);
    tx.send_replace(s3.clone());
    // a client that subscribes only after the publishes sees the newest value
    let rx_late = tx.subscribe();
    assert_eq!(*rx_late.borrow(), s3);
    // clients that subscribed earlier converge to the same newest value
    assert_eq!(*rx_early.borrow(), s3);
    assert_eq!(*rx_second.borrow(), s3);
}

#[test]
fn new_subscriber_first_reads_last_published_value() {
    let v = summary(100, 101);
    let (tx, _rx) = tokio::sync::watch::channel(summary(1, 2));
    tx.send_replace(v.clone());
    // no further publishes: every new subscription starts at `v`
    let mut rx = tx.subscribe();
    assert_eq!(*rx.borrow_and_update(), v);
    let mut rx2 = tx.subscribe();
    assert_eq!(*rx2.borrow_and_update(), v);
}

#[test]
fn client_disconnect_leaves_others_untouched() {
    let (tx, rx1) = tokio::sync::watch::channel(summary(10, 11));
    let rx2 = tx.subscribe();
    let rx3 = tx.subscribe();
    assert_eq!(tx.receiver_count(), 3);
    drop(rx2);
    // the publisher observes the decrement and keeps publishing
    assert_eq!(tx.receiver_count(), 2);
    let s = summary(50, 51);
    tx.send_replace(s.clone());
    assert_eq!(*rx1.borrow(), s);
    assert_eq!(*rx3.borrow(), s);
}

#[test]
fn publisher_is_not_blocked_by_idle_subscribers() {
    let (tx, rx) = tokio::sync::watch::channel(summary(1, 2));
    // nobody polls `rx`; a long run of publishes still returns promptly
    for i in 0..1000u128 {
        tx.send_replace(summary(10 + i, 11 + i));
    }
    assert_eq!(rx.borrow().bids[0].price, amount(1009, 0));
}
