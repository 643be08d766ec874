use orderbook_merger::ExchangeName;
use orderbook_merger::dashboard::{App, AppReturn, AppState, Key};
use orderbook_merger::decimal::DisplayAmount;
use orderbook_merger::orderbook::Level;
use orderbook_merger::summary::Summary;
use orderbook_merger::Symbol;

fn amount(mantissa: u128, scale: u32) -> DisplayAmount {
    DisplayAmount { negative: false, mantissa, scale }
}

fn sample_summary(bid: u128, ask: u128) -> Summary {
    let mk = |p: u128| Level {
        exchange: ExchangeName::BINANCE,
        price: amount(p, 0),
        quantity: amount(1, 0),
    };
    Summary {
        symbol: Symbol::BTCUSDT,
        spread: amount(ask - bid, 0),
        bids: vec![mk(bid)],
        asks: vec![mk(ask)],
    }
}

#[test]
fn control_c_exits() {
    let mut app = App::new();
    assert_eq!(app.press_key(Key::Ctrl('c')), AppReturn::Exit);
    assert_eq!(app.press_key(Key::Ctrl('d')), AppReturn::Continue);
    assert_eq!(app.press_key(Key::Char('c')), AppReturn::Continue);
    assert_eq!(app.press_key(Key::Unknown), AppReturn::Continue);
    assert_eq!(app.update_on_tick(), AppReturn::Continue);
}

#[test]
fn app_renders_the_latest_summary() {
    let mut app = App::new();
    assert!(app.summary().bids.is_empty());
    let s = sample_summary(100, 101);
    assert_eq!(app.update_summary(s.clone()), AppReturn::Continue);
    assert_eq!(*app.summary(), s);
}

#[test]
fn delay_stays_between_one_and_ten_seconds() {
    let mut state = AppState::initialized().unwrap();
    assert_eq!(state.duration(), Some(1));
    state.decrement_delay();
    assert_eq!(state.duration(), Some(1));
    for _ in 0..12 {
        state.increment_delay();
    }
    assert_eq!(state.duration(), Some(10));
    state.decrement_delay();
    assert_eq!(state.duration(), Some(9));
    // before initialization nothing changes
    let mut init = AppState::Init;
    init.increment_delay();
    assert_eq!(init.duration(), None);
    assert!(init.get_summary().is_none());
    assert!(init.get_datapoints().is_none());
}

#[test]
fn state_gathers_datapoints_from_each_summary() {
    let mut state = AppState::initialized().unwrap();
    state.update_summary(sample_summary(100, 102));
    state.update_summary(sample_summary(99, 100));
    let summary = state.get_summary().unwrap();
    assert_eq!(summary.bids[0].price, amount(99, 0));
    let (bids, asks, spreads) = state.get_datapoints().unwrap();
    assert_eq!(bids.iter().map(|d| d.mantissa).collect::<Vec<_>>(), vec![100, 99]);
    assert_eq!(asks.iter().map(|d| d.mantissa).collect::<Vec<_>>(), vec![102, 100]);
    assert_eq!(spreads.iter().map(|d| d.mantissa).collect::<Vec<_>>(), vec![2, 1]);
}
