//! The venue connectors' decision logic: the shapes each venue's snapshots
//! and diff frames reduce to, the scale extraction from venue metadata, the
//! endpoints the fetchers call, and the applier step that moves a replica
//! forward and extracts the levels to forward to the merger.
//!
//! The connectors' I/O — REST fetches, the websocket stream, channel sends —
//! lives outside the library; it hands frames in as plain values and carries
//! the decisions out.

pub mod exchange;
pub mod binance;
pub mod bitstamp;
