use orderbook_merger::{ExchangeName, Symbol};
use orderbook_merger::decimal::DisplayAmount;
use orderbook_merger::exchanges::binance;
use orderbook_merger::exchanges::bitstamp;
use orderbook_merger::exchanges::exchange::{ApplierOutcome, applier_step, frame_is_stale};
use orderbook_merger::orderbook::{OrderBook, UpdateRecord};

fn amount(mantissa: u128, scale: u32) -> DisplayAmount {
    DisplayAmount { negative: false, mantissa, scale }
}

fn pair(price: u128, qty: u128) -> [DisplayAmount; 2] {
    [amount(price, 0), amount(qty, 0)]
}

#[test]
fn binance_scales_follow_tick_size_and_precision() {
    // a tick of 0.01000000 normalizes to two price digits; precision caps at 8
    assert_eq!(binance::scales_from_info(b"0.01000000", 10), Some((2, 8)));
    assert_eq!(binance::scales_from_info(b"0.00100000", 5), Some((3, 5)));
    assert_eq!(binance::scales_from_info(b"1.00000000", 8), Some((0, 8)));
    assert_eq!(binance::scales_from_info(b"not a tick", 8), None);
}

#[test]
fn bitstamp_scales_come_from_matching_pair() {
    let pairs = vec![
        bitstamp::PairInfo {
            url_symbol: b"ethusdt".to_vec(),
            base_decimals: 8,
            counter_decimals: 2,
        },
        bitstamp::PairInfo {
            url_symbol: b"btcusdt".to_vec(),
            base_decimals: 6,
            counter_decimals: 1,
        },
    ];
    assert_eq!(bitstamp::scales_from_pairs(&pairs, Symbol::BTCUSDT), Some((1, 6)));
    assert_eq!(bitstamp::scales_from_pairs(&pairs, Symbol::ETHUSDT), Some((2, 8)));
    let none: Vec<bitstamp::PairInfo> = Vec::new();
    assert_eq!(bitstamp::scales_from_pairs(&none, Symbol::BTCUSDT), None);
}

#[test]
fn endpoints_follow_the_venue_tables() {
    assert_eq!(
        binance::info_url(Symbol::BTCUSDT),
        "https://www.binance.us/api/v3/exchangeInfo?symbol=BTCUSDT"
    );
    assert_eq!(
        binance::depth_url(Symbol::ETHUSDT),
        "https://www.binance.us/api/v3/depth?symbol=ETHUSDT&limit=1000"
    );
    assert_eq!(
        binance::ws_url(Symbol::BTCUSDT),
        "wss://stream.binance.us:9443/ws/btcusdt@depth@100ms"
    );
    assert_eq!(bitstamp::info_url(), "https://www.bitstamp.net/api/v2/trading-pairs-info/");
    assert_eq!(
        bitstamp::order_book_url(Symbol::ETHUSDT),
        "https://www.bitstamp.net/api/v2/order_book/ethusdt"
    );
    assert_eq!(bitstamp::ws_url(), "wss://ws.bitstamp.net/");
    assert_eq!(
        bitstamp::subscribe_frame(Symbol::BTCUSDT),
        "{\"event\":\"bts:subscribe\",\"data\":{\"channel\":\"diff_order_book_btcusdt\"}}"
    );
}

#[test]
fn snapshots_become_first_updates() {
    let snap = binance::Snapshot {
        last_update_id: 100,
        bids: vec![pair(10, 1)],
        asks: vec![pair(11, 1)],
    };
    match snap.into_update() {
        UpdateRecord::Strict { first_update_id, last_update_id, .. } => {
            assert_eq!(first_update_id, 1);
            assert_eq!(last_update_id, 100);
        },
        _ => panic!("a strict venue snapshot must become a strict record"),
    }
    let snap = bitstamp::Snapshot {
        last_update_id: 1700000000000000,
        bids: vec![pair(10, 1)],
        asks: vec![],
    };
    match snap.into_update() {
        UpdateRecord::Timestamped { last_update_id, .. } => {
            assert_eq!(last_update_id, 1700000000000000);
        },
        _ => panic!("a timestamp venue snapshot must become a timestamped record"),
    }
}

#[test]
fn diff_frames_become_updates() {
    let frame = binance::BookUpdate {
        first_update_id: 101,
        last_update_id: 105,
        bids: vec![pair(10, 2)],
        asks: vec![],
    };
    match frame.into_update() {
        UpdateRecord::Strict { first_update_id, last_update_id, .. } => {
            assert_eq!((first_update_id, last_update_id), (101, 105));
        },
        _ => panic!("a strict venue frame must become a strict record"),
    }
    let frame = bitstamp::BookUpdate {
        data: bitstamp::BookUpdateData {
            last_update_id: 42,
            bids: vec![],
            asks: vec![pair(11, 1)],
        },
    };
    match frame.into_update() {
        UpdateRecord::Timestamped { last_update_id, .. } => assert_eq!(last_update_id, 42),
        _ => panic!("a timestamp venue frame must become a timestamped record"),
    }
}

#[test]
fn applier_drops_stale_frames_silently() {
    let mut book = OrderBook::new_orderbook(ExchangeName::BINANCE, Symbol::BTCUSDT, 0, 0);
    let snap = binance::Snapshot {
        last_update_id: 100,
        bids: vec![pair(10, 1)],
        asks: vec![pair(11, 1)],
    };
    assert!(matches!(
        applier_step(&mut book, &snap.into_update()),
        ApplierOutcome::Forwarded(_)
    ));
    // a frame wholly covered by the snapshot watermark is stale, not a gap
    let stale = UpdateRecord::Strict {
        first_update_id: 95,
        last_update_id: 99,
        bids: vec![pair(8, 1)],
        asks: vec![],
    };
    assert!(frame_is_stale(&stale, book.last_update_id));
    assert!(matches!(applier_step(&mut book, &stale), ApplierOutcome::DroppedStale));
    assert_eq!(book.last_update_id, 100);
    // a frame past the watermark that does not join it is a gap
    let gapped = UpdateRecord::Strict {
        first_update_id: 103,
        last_update_id: 104,
        bids: vec![],
        asks: vec![pair(12, 1)],
    };
    assert!(matches!(applier_step(&mut book, &gapped), ApplierOutcome::Gap));
    assert_eq!(book.last_update_id, 100);
    // the aligned frame is applied and forwarded
    let aligned = UpdateRecord::Strict {
        first_update_id: 101,
        last_update_id: 102,
        bids: vec![pair(10, 3)],
        asks: vec![],
    };
    match applier_step(&mut book, &aligned) {
        ApplierOutcome::Forwarded(levels) => {
            assert_eq!(levels.last_update_id, 102);
            assert_eq!(levels.bids[0].quantity.mantissa, 3);
        },
        other => panic!("expected the aligned frame to be forwarded, got {:?}", other),
    }
}
