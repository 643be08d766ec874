//! The dashboard application's state: the most recent summary it renders,
//! the key handling that decides when to quit, and the initialized state
//! with its refresh delay and chart datapoints.
//!
//! Terminal input and drawing live outside the library; they hand key
//! presses and fresh summaries in as plain values and read the state back.

use vstd::prelude::*;
use crate::OrderBookError;
use crate::decimal::DisplayAmount;
use crate::summary::Summary;
use crate::Symbol;

verus! {

/// A key press, reduced to what the dashboard reacts to.
#[derive(Debug, Clone, Copy, PartialEq, Eq, Structural)]
pub enum Key {
    Char(char),
    Ctrl(char),
    Unknown,
}

/// One event of the dashboard's input loop.
#[derive(Debug)]
pub enum InputEvent {
    /// An input key was pressed.
    Input(Key),
    /// A tick of the refresh timer.
    Tick,
    /// A fresh summary arrived from the subscription.
    Update(Summary),
}

/// One request of the render loop to the I/O task.
#[derive(Debug, Clone, Copy, PartialEq, Eq, Structural)]
pub enum IoEvent {
    /// Bring the application to its initialized state.
    Initialize,
}

/// What the application decided after handling an event.
#[derive(Debug, PartialEq, Eq, Structural)]
pub enum AppReturn {
    Exit,
    Continue,
}

/// The main application: the summary it currently renders.
#[derive(Debug)]
pub struct App {
    summary: Summary,
}

impl App {
    /// The summary the application currently renders.
    pub closed spec fn spec_summary(self) -> Summary {
        self.summary
    }

    /// A fresh application rendering an empty summary.
    pub fn new() -> (r: Self)
        ensures
            r.spec_summary().bids@.len() == 0,
            r.spec_summary().asks@.len() == 0,
            r.spec_summary().spread == (DisplayAmount { negative: false, mantissa: 0, scale: 0 }),
    {
        App {
            summary: Summary {
                symbol: Symbol::BTCUSDT,
                spread: DisplayAmount { negative: false, mantissa: 0, scale: 0 },
                bids: Vec::new(),
                asks: Vec::new(),
            },
        }
    }

    /// Reacts to a key press: control-c quits, every other key is ignored.
    pub fn press_key(&mut self, key: Key) -> (r: AppReturn)
        ensures
            *final(self) == *old(self),
            r == (if key == (Key::Ctrl('c')) {
                AppReturn::Exit
            } else {
                AppReturn::Continue
            }),
    {
        match key {
            Key::Ctrl(c) => {
                if c == 'c' {
                    AppReturn::Exit
                } else {
                    AppReturn::Continue
                }
            },
            _ => AppReturn::Continue,
        }
    }

    /// A timer tick changes nothing.
    pub fn update_on_tick(&mut self) -> (r: AppReturn)
        ensures
            *final(self) == *old(self),
            r == AppReturn::Continue,
    {
        AppReturn::Continue
    }

    /// The summary the application currently renders.
    pub fn summary(&self) -> (r: &Summary)
        ensures
            *r == self.spec_summary(),
    {
        &self.summary
    }

    /// Replaces the rendered summary with a fresh one.
    pub fn update_summary(&mut self, summary: Summary) -> (r: AppReturn)
        ensures
            final(self).spec_summary() == summary,
            r == AppReturn::Continue,
    {
        self.summary = summary;
        AppReturn::Continue
    }
}

/// The dashboard's lifecycle: empty at start, then initialized with a
/// refresh delay, the rendered summary, and the chart datapoints gathered
/// from every summary seen.
#[derive(Debug)]
pub enum AppState {
    Init,
    Initialized {
        duration_secs: u64,
        counter_sleep: u32,
        summary: Summary,
        datapoints_bid: Vec<DisplayAmount>,
        datapoints_ask: Vec<DisplayAmount>,
        datapoints_spread: Vec<DisplayAmount>,
    },
}

impl AppState {
    /// The refresh delay, in whole seconds, of an initialized state.
    pub open spec fn spec_duration_secs(self) -> u64
        recommends
            self is Initialized,
    {
        self->Initialized_duration_secs
    }

    /// The initialized state the dashboard starts from: a one-second
    /// refresh delay, an empty summary and no datapoints yet.
    pub fn initialized() -> (r: Result<Self, OrderBookError>)
        ensures
            r matches Ok(s) && s matches AppState::Initialized {
                duration_secs,
                counter_sleep,
                summary,
                datapoints_bid,
                datapoints_ask,
                datapoints_spread,
            } && duration_secs == 1u64 && counter_sleep == 0u32 && summary.bids@.len() == 0
                && summary.asks@.len() == 0 && datapoints_bid@.len() == 0
                && datapoints_ask@.len() == 0 && datapoints_spread@.len() == 0,
    {
        Ok(
            AppState::Initialized {
                duration_secs: 1,
                counter_sleep: 0,
                summary: Summary {
                    symbol: Symbol::BTCUSDT,
                    spread: DisplayAmount { negative: false, mantissa: 0, scale: 0 },
                    bids: Vec::new(),
                    asks: Vec::new(),
                },
                datapoints_bid: Vec::new(),
                datapoints_ask: Vec::new(),
                datapoints_spread: Vec::new(),
            },
        )
    }

    /// The rendered summary, once initialized.
    pub fn get_summary(&self) -> (r: Option<&Summary>)
        ensures
            r is Some <==> self is Initialized,
            r matches Some(s) ==> *s == self->Initialized_summary,
    {
        match self {
            AppState::Initialized { summary, .. } => Some(summary),
            AppState::Init => None,
        }
    }

    /// The three datapoint series — best bid, best ask, spread — once
    /// initialized.
    pub fn get_datapoints(&self) -> (r: Option<
        (&Vec<DisplayAmount>, &Vec<DisplayAmount>, &Vec<DisplayAmount>),
    >)
        ensures
            r is Some <==> self is Initialized,
            r matches Some(d) ==> d.0@ == self->Initialized_datapoints_bid@ && d.1@
                == self->Initialized_datapoints_ask@ && d.2@
                == self->Initialized_datapoints_spread@,
    {
        match self {
            AppState::Initialized { datapoints_bid, datapoints_ask, datapoints_spread, .. } => Some(
                (datapoints_bid, datapoints_ask, datapoints_spread),
            ),
            AppState::Init => None,
        }
    }

    /// The refresh delay in seconds, once initialized.
    pub fn duration(&self) -> (r: Option<u64>)
        ensures
            r is Some <==> self is Initialized,
            r matches Some(d) ==> d == self.spec_duration_secs(),
    {
        match self {
            AppState::Initialized { duration_secs, .. } => Some(*duration_secs),
            AppState::Init => None,
        }
    }

    /// One second more of delay, kept within one to ten seconds.
    pub open spec fn delay_up(d: u64) -> u64 {
        if d >= 9 {
            10u64
        } else {
            (d + 1) as u64
        }
    }

    /// One second less of delay, kept within one to ten seconds.
    pub open spec fn delay_down(d: u64) -> u64 {
        if d <= 2 {
            1u64
        } else {
            (d - 1) as u64
        }
    }

    /// Lengthens the refresh delay by one second, kept within one to ten
    /// seconds; does nothing before initialization.
    pub fn increment_delay(&mut self)
        ensures
            *old(self) is Init ==> *final(self) == *old(self),
            *old(self) is Initialized ==> final(self).same_but_duration(*old(self)) && final(self).spec_duration_secs() == Self::delay_up(old(self).spec_duration_secs()),
    {
        if let AppState::Initialized { duration_secs, .. } = self {
            let secs = if *duration_secs >= 9 {
                10
            } else {
                *duration_secs + 1
            };
            *duration_secs = secs;
        }
    }

    /// Shortens the refresh delay by one second, kept within one to ten
    /// seconds; does nothing before initialization.
    pub fn decrement_delay(&mut self)
        ensures
            *old(self) is Init ==> *final(self) == *old(self),
            *old(self) is Initialized ==> final(self).same_but_duration(*old(self)) && final(self).spec_duration_secs() == Self::delay_down(old(self).spec_duration_secs()),
    {
        if let AppState::Initialized { duration_secs, .. } = self {
            let secs = if *duration_secs <= 2 {
                1
            } else {
                *duration_secs - 1
            };
            *duration_secs = secs;
        }
    }

    /// Every field but the refresh delay is unchanged.
    pub open spec fn same_but_duration(self, other: AppState) -> bool {
        &&& self is Initialized
        &&& other is Initialized
        &&& self->Initialized_counter_sleep == other->Initialized_counter_sleep
        &&& self->Initialized_summary == other->Initialized_summary
        &&& self->Initialized_datapoints_bid@ == other->Initialized_datapoints_bid@
        &&& self->Initialized_datapoints_ask@ == other->Initialized_datapoints_ask@
        &&& self->Initialized_datapoints_spread@ == other->Initialized_datapoints_spread@
    }

    /// Takes a fresh summary: appends its best bid price, best ask price
    /// and spread to the datapoint series and replaces the rendered
    /// summary; does nothing before initialization.
    pub fn update_summary(&mut self, summary_new: Summary)
        requires
            summary_new.bids@.len() >= 1,
            summary_new.asks@.len() >= 1,
        ensures
            *old(self) is Init ==> *final(self) == *old(self),
            *old(self) is Initialized ==> {
                &&& *final(self) is Initialized
                &&& (*final(self))->Initialized_summary == summary_new
                &&& (*final(self))->Initialized_datapoints_bid@ == (*old(self))->Initialized_datapoints_bid@.push(summary_new.bids@[0].price)
                &&& (*final(self))->Initialized_datapoints_ask@ == (*old(self))->Initialized_datapoints_ask@.push(summary_new.asks@[0].price)
                &&& (*final(self))->Initialized_datapoints_spread@ == (*old(self))->Initialized_datapoints_spread@.push(summary_new.spread)
                &&& (*final(self))->Initialized_duration_secs == (*old(self))->Initialized_duration_secs
                &&& (*final(self))->Initialized_counter_sleep == (*old(self))->Initialized_counter_sleep
            },
    {
        if let AppState::Initialized {
            summary,
            datapoints_bid,
            datapoints_ask,
            datapoints_spread,
            ..
        } = self {
            datapoints_bid.push(summary_new.bids[0].price);
            datapoints_ask.push(summary_new.asks[0].price);
            datapoints_spread.push(summary_new.spread);
            *summary = summary_new;
        }
    }
}

} // verus!
