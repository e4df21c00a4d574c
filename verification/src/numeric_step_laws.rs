//! What each step to a row made of fast fields does, field by field.
#![allow(unused_imports)]

use crate::catalog::{AttrNumber, Datum, Oid};
use crate::item_pointer::{BlockNumber, ItemPointerData};
use crate::numeric::{
    datum_or_null, empty_slot, filled_flags, ColumnRequest, ExecState, NextAction, NextActionView,
    NumericView, QuerySource, SlotView, TupleTableSlot, WhichFastField,
};
use crate::search::{SearchHit, SearchRequest};
use tantivy::index::SegmentId;
use tantivy::DocAddress;
use vstd::prelude::*;

verus! {

/// What a scan was made for stays: its fields, its table and the columns of its rows.
pub open spec fn keeps_its_rows(before: NumericView, after: NumericView) -> bool {
    &&& after.which_fast_fields == before.which_fast_fields
    &&& after.heaprel == before.heaprel
    &&& after.tupdesc == before.tupdesc
}

/// What was searched stays.
pub open spec fn keeps_its_search(before: NumericView, after: NumericView) -> bool {
    &&& after.did_query == before.did_query
    &&& after.search_results == before.search_results
}

/// The block of a place is made of its two halves, the upper one first; two places with the same
/// block have the same halves. A place is one if it names a line.
pub proof fn law_block_is_its_two_halves(a: ItemPointerData, b: ItemPointerData)
    ensures
        a.block_number() == 65536 * a.bi_hi + a.bi_lo,
        0 <= a.block_number() <= u32::MAX,
        a.block_number() == b.block_number() <==> a.bi_hi == b.bi_hi && a.bi_lo == b.bi_lo,
        a.is_valid() <==> a.ip_posid != 0,
{
}

/// A slot that nothing was put into is marked as empty, has no columns and no place.
pub proof fn law_empty_slot_holds_nothing()
    ensures
        empty_slot().tts_flags == 2,
        empty_slot().tts_nvalid == 0,
        empty_slot().tts_values.len() == 0,
        empty_slot().tts_isnull.len() == 0,
        empty_slot().tts_table_oid == 0,
        !empty_slot().tts_tid.is_valid(),
        empty_slot().tts_tid.block_number() == u32::MAX,
{
}

/// Of the flags of a slot, filling it clears the one for an empty slot, sets the one for a row that
/// the slot owns, and leaves the others.
pub proof fn law_filling_changes_two_flags(flags: u16)
    ensures
        filled_flags(flags) & 2 == 0,
        filled_flags(flags) & 4 == 4,
        filled_flags(flags) & 0xFFF9 == flags & 0xFFF9,
{
    assert(((flags & !2u16) | 4u16) & 2u16 == 0) by (bit_vector);
    assert(((flags & !2u16) | 4u16) & 4u16 == 4u16) by (bit_vector);
    assert(((flags & !2u16) | 4u16) & 0xFFF9u16 == flags & 0xFFF9u16) by (bit_vector);
}

/// A slot can be filled exactly if the columns of a row are known, each has a fast field, and there
/// is room for the values and the nulls of all of them.
pub proof fn law_room_for_a_row(state: NumericView)
    ensures
        state.tupdesc is None ==> !state.can_fill(),
        state.tupdesc matches Some(types) ==> (state.can_fill() <==> types.len()
            <= state.which_fast_fields.len() && types.len() <= state.slot.tts_values.len()
            && state.slot.tts_isnull.len() == state.slot.tts_values.len()),
{
}

/// A search of a shared scan is of the segment it got, and there is none without one, whatever the
/// scan did before. A scan that is not shared searches everything once, up to its limit; after that
/// there is nothing to search, and what was searched stays. Nothing else changes.
pub proof fn law_query_searches_what_is_next(
    state: NumericView,
    segment_id: SegmentId,
    limit: Option<usize>,
)
    ensures
        ({
            let (after, more) = state.query(QuerySource::Parallel { claimed: Some(segment_id) });
            &&& more
            &&& after.search_results == Some(SearchRequest::Segment { segment_id })
            &&& after.did_query == state.did_query
            &&& keeps_its_rows(state, after)
            &&& after.slot == state.slot
            &&& after.blockvis == state.blockvis
        }),
        ({
            let (after, more) = state.query(QuerySource::Parallel { claimed: None });
            &&& !more
            &&& after.search_results is None
            &&& after.did_query == state.did_query
            &&& keeps_its_rows(state, after)
            &&& after.slot == state.slot
            &&& after.blockvis == state.blockvis
        }),
        ({
            let (after, more) = state.query(QuerySource::Serial { limit });
            &&& more == !state.did_query
            &&& more ==> after.search_results == Some(SearchRequest::All { limit })
            &&& !more ==> after.search_results == state.search_results
            &&& after.did_query
            &&& keeps_its_rows(state, after)
            &&& after.slot == state.slot
            &&& after.blockvis == state.blockvis
        }),
{
}

/// There is a document to ask for exactly if there was a search.
pub proof fn law_only_a_search_has_documents(state: NumericView)
    ensures
        state.search_results is Some ==> state.next_row() == NextActionView::FetchHit,
        state.search_results is None ==> state.next_row() == (NextActionView::Return {
            state: ExecState::Eof,
        }),
        state.next_hit(None).0 == state,
        state.next_hit(None).1 == (NextActionView::Return { state: ExecState::Eof }),
{
}

/// A document's place and table are put into the slot, whose columns stay. Its block, if it is
/// another than the one asked about last, is asked about; if it is the same, the answer is taken
/// over.
pub proof fn law_document_is_placed_and_its_block_judged(state: NumericView, hit: SearchHit)
    ensures
        ({
            let at = state.at_hit(hit);
            let (after, action) = state.next_hit(Some(hit));
            let block = 65536 * hit.tid.bi_hi + hit.tid.bi_lo;
            &&& at.slot.tts_tid == hit.tid
            &&& state.heaprel matches Some(table) ==> at.slot.tts_table_oid == table
            &&& at.slot.tts_flags == state.slot.tts_flags
            &&& at.slot.tts_nvalid == state.slot.tts_nvalid
            &&& at.slot.tts_values == state.slot.tts_values
            &&& at.slot.tts_isnull == state.slot.tts_isnull
            &&& at.blockvis == state.blockvis
            &&& keeps_its_rows(state, at)
            &&& keeps_its_search(state, at)
            &&& state.blockvis.0 != block ==> after == at && action == (
            NextActionView::CheckVisibility { blockno: block as BlockNumber })
            &&& state.blockvis.0 == block ==> (after, action) == at.judged(hit, state.blockvis.1)
        }),
{
}

/// The answer about a document's block is kept. If all its rows are visible the slot is marked as
/// full, and each column of the row is asked for: of its own fast field, as its own type, of that
/// document. If not, the row itself has to be looked at, and the slot stays.
pub proof fn law_visible_rows_are_read(state: NumericView, hit: SearchHit)
    requires
        state.tupdesc is Some,
        state.tupdesc->0.len() <= usize::MAX,
    ensures
        ({
            let (after, action) = state.judged(hit, true);
            let block = 65536 * hit.tid.bi_hi + hit.tid.bi_lo;
            &&& after.blockvis.0 == block
            &&& after.blockvis.1
            &&& keeps_its_rows(state, after)
            &&& keeps_its_search(state, after)
            &&& after.slot.tts_tid == state.slot.tts_tid
            &&& after.slot.tts_table_oid == state.slot.tts_table_oid
            &&& after.slot.tts_values == state.slot.tts_values
            &&& after.slot.tts_isnull == state.slot.tts_isnull
            &&& after.slot.tts_flags & 2 == 0
            &&& after.slot.tts_flags & 4 == 4
            &&& after.slot.tts_flags & 0xFFF9 == state.slot.tts_flags & 0xFFF9
            &&& state.slot.tts_values.len() <= i16::MAX ==> after.slot.tts_nvalid
                == state.slot.tts_values.len()
            &&& action matches NextActionView::FetchColumns { columns, bm25, doc_address }
            &&& bm25 == hit.bm25
            &&& doc_address == hit.doc_address
            &&& columns.len() == state.tupdesc->0.len()
            &&& forall|c: int|
                0 <= c < columns.len() ==> {
                    &&& (#[trigger] columns[c]).field == state.which_fast_fields[c]
                    &&& columns[c].column == c
                    &&& columns[c].atttypid == state.tupdesc->0[c]
                }
        }),
        ({
            let (after, action) = state.judged(hit, false);
            let block = 65536 * hit.tid.bi_hi + hit.tid.bi_lo;
            &&& after.blockvis.0 == block
            &&& !after.blockvis.1
            &&& keeps_its_rows(state, after)
            &&& keeps_its_search(state, after)
            &&& after.slot == state.slot
            &&& action == (NextActionView::Return {
                state: ExecState::RequiresVisibilityCheck {
                    ctid: hit.ctid,
                    score: hit.bm25,
                    doc_address: hit.doc_address,
                },
            })
        }),
{
    law_filling_changes_two_flags(state.slot.tts_flags);
}

/// A value that was read is put into its column as it is, all of it, and the column is not null;
/// one that is absent makes its column null. The columns after them and all else of the slot stay.
pub proof fn law_columns_hold_what_was_read(
    state: NumericView,
    columns: Seq<Option<Datum>>,
    c: int,
)
    requires
        state.slot.tts_isnull.len() == state.slot.tts_values.len(),
        0 <= c < state.slot.tts_values.len(),
    ensures
        ({
            let after = state.with_columns(columns);
            let slot = after.slot;
            &&& slot.tts_values.len() == state.slot.tts_values.len()
            &&& slot.tts_isnull.len() == state.slot.tts_isnull.len()
            &&& c < columns.len() ==> (columns[c] matches Some(datum) ==> slot.tts_values[c]
                == datum && !slot.tts_isnull[c])
            &&& c < columns.len() && columns[c] is None ==> slot.tts_values[c] == 0
                && slot.tts_isnull[c]
            &&& c >= columns.len() ==> slot.tts_values[c] == state.slot.tts_values[c]
                && slot.tts_isnull[c] == state.slot.tts_isnull[c]
            &&& slot.tts_tid == state.slot.tts_tid
            &&& slot.tts_table_oid == state.slot.tts_table_oid
            &&& slot.tts_flags == state.slot.tts_flags
            &&& slot.tts_nvalid == state.slot.tts_nvalid
            &&& after.blockvis == state.blockvis
            &&& keeps_its_rows(state, after)
            &&& keeps_its_search(state, after)
        }),
{
}

/// Two different values never end up as the same value of a column.
pub proof fn law_no_value_is_lost(
    state: NumericView,
    a: Seq<Option<Datum>>,
    b: Seq<Option<Datum>>,
    c: int,
)
    requires
        state.slot.tts_isnull.len() == state.slot.tts_values.len(),
        0 <= c < state.slot.tts_values.len(),
        c < a.len(),
        c < b.len(),
        state.with_columns(a).slot.tts_values[c] == state.with_columns(b).slot.tts_values[c],
        state.with_columns(a).slot.tts_isnull[c] == state.with_columns(b).slot.tts_isnull[c],
    ensures
        a[c] == b[c],
{
    law_columns_hold_what_was_read(state, a, c);
    law_columns_hold_what_was_read(state, b, c);
}

/// A scan that starts over has searched nothing and knows of no block, and keeps all else.
pub proof fn law_reset_forgets_the_search(state: NumericView)
    ensures
        ({
            let after = state.reset();
            &&& after.search_results is None
            &&& !after.did_query
            &&& after.blockvis.0 == u32::MAX
            &&& !after.blockvis.1
            &&& keeps_its_rows(state, after)
            &&& after.slot == state.slot
        }),
{
}

/// What is said of a slot is what it holds.
pub proof fn law_slot_is_seen_as_it_is(slot: TupleTableSlot)
    ensures
        slot@.tts_flags == slot.tts_flags,
        slot@.tts_nvalid == slot.tts_nvalid,
        slot@.tts_tid == slot.tts_tid,
        slot@.tts_table_oid == slot.tts_table_oid,
        slot@.tts_values == slot.tts_values@,
        slot@.tts_isnull == slot.tts_isnull@,
{
}

/// What is said of an action is what it asks for.
pub proof fn law_action_is_seen_as_it_is(action: NextAction)
    ensures
        action is FetchHit ==> action@ == NextActionView::FetchHit,
        action matches NextAction::CheckVisibility { blockno } ==> action@ == (
        NextActionView::CheckVisibility { blockno }),
        action matches NextAction::FetchColumns { columns, bm25, doc_address } ==> action@ == (
        NextActionView::FetchColumns { columns: columns@, bm25, doc_address }),
        action matches NextAction::Return { state } ==> action@ == (NextActionView::Return {
            state,
        }),
{
}

} // verus!
