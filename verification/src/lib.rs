//! Cross-venue order-book merger.
//!
//! The library keeps a per-venue replica of an exchange's top-of-book depth,
//! applies sequenced updates to it, merges the best levels of two venues into
//! a single sorted summary, and drives the small state machines around that
//! pipeline (the merger table and the dashboard application).  Prices and
//! quantities are held as fixed-point decimals of the library's own making;
//! all ordering inside the book uses 64-bit integer storage keys.

use vstd::prelude::*;

pub mod decimal;
pub mod orderbook;
pub mod dashboard;
pub mod exchanges;
pub mod summary;

pub use decimal::{DisplayAmount, StorageAmount, ToDisplay, ToStorage, display_to_storage};
pub use summary::make_summary;

verus! {

/// The trading pairs the pipeline understands.
#[derive(Debug, Clone, Copy, PartialEq, Eq, Structural)]
pub enum Symbol {
    BTCUSDT,
    ETHUSDT,
}

/// The two supported venues.  Every emitted level carries its venue so the
/// merger can attribute origin.
#[derive(Debug, Clone, Copy, PartialEq, Eq, Structural)]
pub enum ExchangeName {
    BINANCE,
    BITSTAMP,
}

/// The error kinds of the pipeline.  The library's own functions return
/// `SequenceGap`, `ValueOutOfRange` and `ParseError`; the remaining kinds
/// classify failures at the process edges that call into the library.
#[derive(Debug, Clone, Copy, PartialEq, Eq, Structural)]
pub enum OrderBookError {
    /// Missing or unparseable listen address.
    ConfigError,
    /// Venue metadata fetch or parse failed.
    MetadataError,
    /// Depth snapshot fetch or parse failed.
    SnapshotError,
    /// Websocket handshake or subscribe failed.
    ConnectError,
    /// A frame could not be decoded.
    ParseError,
    /// An update's sequencing did not follow the replica's watermark.
    SequenceGap,
    /// A decimal did not fit the 64-bit storage key.
    ValueOutOfRange,
    /// A subscription transport failed.
    RpcTransportError,
}

impl OrderBookError {
    /// A short display name for the error kind.
    pub fn as_str(&self) -> (r: &'static str)
        ensures
            *self == OrderBookError::ConfigError ==> r@ == "config error"@,
            *self == OrderBookError::MetadataError ==> r@ == "metadata error"@,
            *self == OrderBookError::SnapshotError ==> r@ == "snapshot error"@,
            *self == OrderBookError::ConnectError ==> r@ == "connect error"@,
            *self == OrderBookError::ParseError ==> r@ == "parse error"@,
            *self == OrderBookError::SequenceGap ==> r@ == "sequence gap"@,
            *self == OrderBookError::ValueOutOfRange ==> r@ == "value out of range"@,
            *self == OrderBookError::RpcTransportError ==> r@ == "rpc transport error"@,
    {
        match self {
            OrderBookError::ConfigError => "config error",
            OrderBookError::MetadataError => "metadata error",
            OrderBookError::SnapshotError => "snapshot error",
            OrderBookError::ConnectError => "connect error",
            OrderBookError::ParseError => "parse error",
            OrderBookError::SequenceGap => "sequence gap",
            OrderBookError::ValueOutOfRange => "value out of range",
            OrderBookError::RpcTransportError => "rpc transport error",
        }
    }
}

impl Symbol {
    /// The uppercase wire name of the pair, as it appears in query strings.
    pub fn as_str(&self) -> (r: &'static str)
        ensures
            *self == Symbol::BTCUSDT ==> r@ == "BTCUSDT"@,
            *self == Symbol::ETHUSDT ==> r@ == "ETHUSDT"@,
    {
        match self {
            Symbol::BTCUSDT => "BTCUSDT",
            Symbol::ETHUSDT => "ETHUSDT",
        }
    }

    /// The lowercase form of the pair, as it appears in URL paths.
    pub fn as_lower_str(&self) -> (r: &'static str)
        ensures
            *self == Symbol::BTCUSDT ==> r@ == "btcusdt"@,
            *self == Symbol::ETHUSDT ==> r@ == "ethusdt"@,
    {
        match self {
            Symbol::BTCUSDT => "btcusdt",
            Symbol::ETHUSDT => "ethusdt",
        }
    }
}

impl ExchangeName {
    /// The display name of the venue.
    pub fn as_str(&self) -> (r: &'static str)
        ensures
            *self == ExchangeName::BINANCE ==> r@ == "BINANCE"@,
            *self == ExchangeName::BITSTAMP ==> r@ == "BITSTAMP"@,
    {
        match self {
            ExchangeName::BINANCE => "BINANCE",
            ExchangeName::BITSTAMP => "BITSTAMP",
        }
    }
}

} // verus!
