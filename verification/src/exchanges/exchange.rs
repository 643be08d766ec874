//! The applier: the venue-independent step that takes one update record,
//! validates it against the replica, applies it, and extracts the top of the
//! book to forward to the merger.

use vstd::prelude::*;
use crate::orderbook::{OrderBook, OrderBookOnlyLevels, UpdateRecord, apply_levels_spec};

verus! {

/// A strict-venue frame wholly covered by the replica's watermark: during
/// bootstrap alignment such frames arrive for ground the snapshot already
/// holds and must be discarded without being treated as a gap.
pub open spec fn is_stale(u: UpdateRecord, watermark: u64) -> bool {
    watermark > 0 && (u matches UpdateRecord::Strict { last_update_id, .. } && last_update_id
        <= watermark)
}

/// Whether a strict frame is stale against the replica's watermark.
pub fn frame_is_stale(u: &UpdateRecord, watermark: u64) -> (r: bool)
    ensures
        r == is_stale(*u, watermark),
{
    match u {
        UpdateRecord::Strict { last_update_id, .. } => watermark > 0 && *last_update_id
            <= watermark,
        UpdateRecord::Timestamped { .. } => false,
    }
}

/// What one applier step decided.
#[derive(Debug)]
pub enum ApplierOutcome {
    /// The update was applied and the fresh top of the book should be
    /// forwarded to the merger.
    Forwarded(OrderBookOnlyLevels),
    /// The update was applied but the book is still empty on both sides.
    Applied,
    /// A stale bootstrap-alignment frame was discarded; the book is
    /// unchanged.
    DroppedStale,
    /// The update's sequencing did not follow the watermark; the book is
    /// unchanged, and a strict venue needs a fresh snapshot.
    Gap,
}

/// One step of the applier task: drop a stale frame, reject a gap leaving
/// the replica unchanged, or apply the update and extract the top of the
/// book for the merger.
pub fn applier_step(book: &mut OrderBook, update: &UpdateRecord) -> (r: ApplierOutcome)
    requires
        old(book).wf(),
        update.wf(),
    ensures
        final(book).wf(),
        final(book).same_venue(*old(book)),
        is_stale(*update, old(book).last_update_id) ==> r is DroppedStale && *final(book) == *old(
            book,
        ),
        !is_stale(*update, old(book).last_update_id) && !update.spec_validate(
            old(book).last_update_id,
        ) ==> r is Gap && *final(book) == *old(book),
        !is_stale(*update, old(book).last_update_id) && update.spec_validate(
            old(book).last_update_id,
        ) ==> {
            &&& final(book).bids_map() == apply_levels_spec(
                old(book).bids_map(),
                update.spec_bids(),
                old(book).price_scale,
                old(book).quantity_scale,
            )
            &&& final(book).asks_map() == apply_levels_spec(
                old(book).asks_map(),
                update.spec_asks(),
                old(book).price_scale,
                old(book).quantity_scale,
            )
            &&& final(book).last_update_id == update.spec_last_update_id()
            &&& final(book).last_update_id >= old(book).last_update_id
            &&& (r is Forwarded <==> !(final(book).bids@.len() == 0 && final(book).asks@.len()
                == 0))
            &&& (r matches ApplierOutcome::Forwarded(l) ==> final(book).levels_of(l))
            &&& (r is Forwarded || r is Applied)
        },
{
    if frame_is_stale(update, book.last_update_id) {
        return ApplierOutcome::DroppedStale;
    }
    match book.update(update) {
        Err(_) => ApplierOutcome::Gap,
        Ok(_) => match book.get_book_levels() {
            Some(levels) => ApplierOutcome::Forwarded(levels),
            None => ApplierOutcome::Applied,
        },
    }
}

} // verus!
