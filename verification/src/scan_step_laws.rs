//! What each step of a scan of the index does, field by field.
#![allow(unused_imports)]

use crate::catalog::{Datum, Oid};
use crate::item_pointer::ItemPointerData;
use crate::scan::{
    bitmap_start, is_returnable_type, reader_for, Bm25ScanState, BitmapAction, BitmapScan, IndexScanDesc,
    KeyField, KeyFieldView, MvccSatisfies, MvccView, ReaderRequest, ReaderView, ScanAction,
    ScanStateView, ScanView, TupleStore,
};
use crate::search::{QueryTree, ScanKey, SearchHit, SearchRequest};
use crate::search_laws::{
    is_query_of, law_each_key_has_to_match_too, law_found_is_what_meets_all_keys, meets,
    respects_parts,
};
use tantivy::index::SegmentId;
use tantivy::DocAddress;
use vstd::prelude::*;

verus! {

/// What a scan was made with and what the server set stays: whether rows are to come from the index
/// and with which columns, and whether the scan is shared.
pub open spec fn keeps_its_kind(before: ScanView, after: ScanView) -> bool {
    &&& after.xs_want_itup == before.xs_want_itup
    &&& after.xs_hitupdesc == before.xs_hitupdesc
    &&& after.parallel_scan == before.parallel_scan
}

/// What a scan was opened with stays: its reader, the fields it reads and the type of its key.
pub open spec fn keeps_its_reader(before: ScanStateView, after: ScanStateView) -> bool {
    &&& after.reader == before.reader
    &&& after.fast_fields == before.fast_fields
    &&& after.key_field_oid == before.key_field_oid
}

/// A process is a worker exactly if the scan is shared and it has a worker's number.
pub proof fn law_leader_is_no_worker(scan: ScanView, worker_number: i32)
    ensures
        !scan.parallel_scan ==> !scan.runs_in_worker(worker_number),
        !scan.runs_in_worker((-1) as i32),
        scan.parallel_scan && worker_number != -1 ==> scan.runs_in_worker(worker_number),
{
}

/// A reader computes no scores, looks for what one condition alone asks for, and sees the segments
/// that its own snapshot sees; only in a worker of a shared scan it sees those that the leader
/// holds open, all of them.
pub proof fn law_reader_sees_what_it_should(
    scan: ScanView,
    key: ScanKey,
    worker_number: i32,
    segment_ids: Seq<SegmentId>,
)
    ensures
        ({
            let reader = reader_for(scan, seq![key], worker_number, segment_ids);
            &&& !reader.need_scores
            &&& is_query_of(key, reader.query)
            &&& scan.parallel_scan && worker_number != -1 ==> reader.mvcc == (
            MvccView::ParallelWorker { segment_ids })
            &&& !scan.parallel_scan || worker_number == -1 ==> reader.mvcc == MvccView::Snapshot
        }),
{
    law_each_key_has_to_match_too(seq![key]);
}

/// A document is found by the reader exactly if it meets each condition of the scan, in a worker as
/// in any other process.
pub proof fn law_reader_looks_for_all_keys(
    scan: ScanView,
    keys: Seq<ScanKey>,
    worker_number: i32,
    segment_ids: Seq<SegmentId>,
    matches: spec_fn(QueryTree) -> bool,
)
    requires
        keys.len() > 0,
        respects_parts(matches),
    ensures
        !reader_for(scan, keys, worker_number, segment_ids).need_scores,
        matches(reader_for(scan, keys, worker_number, segment_ids).query) <==> forall|i: int|
            0 <= i < keys.len() ==> meets(matches, #[trigger] keys[i]),
{
    law_found_is_what_meets_all_keys(keys, matches);
}

/// A scan that is not shared searches everything, without a limit, whether or not its rows come
/// from the index and whatever segment was claimed. A shared one searches the segment claimed and
/// nothing without one.
pub proof fn law_opened_scan_searches(
    scan: ScanView,
    reader: ReaderView,
    claimed: Option<SegmentId>,
    key_field: Option<KeyFieldView>,
)
    ensures
        ({
            let after = scan.opened(reader, claimed, key_field);
            &&& after.opaque is Some
            &&& !scan.parallel_scan ==> after.opaque->0.results == Some(
                SearchRequest::All { limit: None },
            )
            &&& scan.parallel_scan && claimed is None ==> after.opaque->0.results is None
            &&& scan.parallel_scan && claimed is Some ==> after.opaque->0.results == Some(
                SearchRequest::Segment { segment_id: claimed->0 },
            )
        }),
{
}

/// Whether rows come from the index does not change what is searched, nor with which reader.
pub proof fn law_search_is_the_same_for_index_only_scans(
    scan: ScanView,
    reader: ReaderView,
    claimed: Option<SegmentId>,
    key_field: Option<KeyFieldView>,
)
    ensures
        ({
            let a = (ScanView { xs_want_itup: true, ..scan }).opened(reader, claimed, key_field);
            let b = (ScanView { xs_want_itup: false, ..scan }).opened(reader, claimed, key_field);
            &&& a.opaque->0.results == b.opaque->0.results
            &&& a.opaque->0.reader == b.opaque->0.reader
        }),
{
}

/// A scan that starts keeps its reader, and all else of the scan stays. To return rows from the
/// index it reads the key field as the type of the first column, and it starts with a row of nulls,
/// one for each column. To return none it reads nothing.
pub proof fn law_opened_scan_is_ready(
    scan: ScanView,
    reader: ReaderView,
    claimed: Option<SegmentId>,
    key_field: Option<KeyFieldView>,
)
    ensures
        ({
            let after = scan.opened(reader, claimed, key_field);
            let state = after.opaque->0;
            &&& state.reader == reader
            &&& keeps_its_kind(scan, after)
            &&& after.xs_recheck == scan.xs_recheck
            &&& after.xs_heaptid == scan.xs_heaptid
            &&& after.xs_hitup == scan.xs_hitup
            &&& scan.xs_want_itup ==> {
                &&& state.fast_fields.len() == 1
                &&& state.fast_fields[0] == key_field->0
                &&& state.key_field_oid == scan.xs_hitupdesc[0]
                &&& state.values.len() == scan.xs_hitupdesc.len()
                &&& state.nulls.len() == scan.xs_hitupdesc.len()
                &&& forall|i: int| 0 <= i < state.values.len() ==> #[trigger] state.values[i] == 0
                &&& forall|i: int| 0 <= i < state.nulls.len() ==> #[trigger] state.nulls[i]
            }
            &&& !scan.xs_want_itup ==> {
                &&& state.fast_fields.len() == 0
                &&& state.key_field_oid == 0
                &&& state.values.len() == 0
                &&& state.nulls.len() == 0
            }
        }),
{
}

/// Rows can be returned from the index exactly if the scan has begun, the key can be read and there
/// is room for a row.
pub proof fn law_rows_need_room_and_a_key(scan: ScanView)
    ensures
        scan.opaque is None ==> !scan.can_return_rows(),
        scan.opaque is Some ==> (scan.can_return_rows() <==> scan.opaque->0.fast_fields.len() > 0
            && scan.opaque->0.values.len() > 0 && scan.opaque->0.nulls.len()
            == scan.opaque->0.values.len()),
{
}

/// A request for a row takes rows as they are, with no need to check them again, and begins with
/// the results at hand or else with a claim. Nothing else of the scan changes.
pub proof fn law_row_begins_at_the_results(scan: ScanView)
    requires
        scan.opaque is Some,
    ensures
        ({
            let (after, action) = scan.next_row();
            &&& !after.xs_recheck
            &&& keeps_its_kind(scan, after)
            &&& after.opaque == scan.opaque
            &&& after.xs_heaptid == scan.xs_heaptid
            &&& after.xs_hitup == scan.xs_hitup
            &&& scan.opaque->0.results is Some ==> action == ScanAction::FetchHit
            &&& scan.opaque->0.results is None ==> action == ScanAction::ClaimSegment
        }),
{
}

/// The place of the document found becomes the place of the row. With rows from the index, the key
/// of that document is read next, as a value of the type of the key; else the row is returned at
/// once. Without a document a segment is claimed, and nothing changes.
pub proof fn law_document_gives_its_place(scan: ScanView, hit: SearchHit)
    requires
        scan.opaque is Some,
    ensures
        ({
            let (after, action) = scan.next_hit(Some(hit));
            &&& after.xs_heaptid == hit.tid
            &&& keeps_its_kind(scan, after)
            &&& after.opaque == scan.opaque
            &&& after.xs_hitup == scan.xs_hitup
            &&& after.xs_recheck == scan.xs_recheck
            &&& scan.xs_want_itup ==> action == (ScanAction::FetchKey {
                doc_address: hit.doc_address,
                key_field_oid: scan.opaque->0.key_field_oid,
            })
            &&& !scan.xs_want_itup ==> action == (ScanAction::Return {
                found: true,
                store: TupleStore::Nothing,
            })
        }),
        scan.next_hit(None).0 == scan,
        scan.next_hit(None).1 == ScanAction::ClaimSegment,
{
}

/// The key read becomes the first column as it is, or a null if it is absent; the other columns and
/// all else stay. The row is then returned: formed, or written over one that was formed before.
pub proof fn law_key_becomes_the_first_column(scan: ScanView, key: Option<Datum>)
    requires
        scan.can_return_rows(),
    ensures
        ({
            let (after, action) = scan.next_key(key);
            let state = after.opaque->0;
            let before = scan.opaque->0;
            &&& after.opaque is Some
            &&& keeps_its_kind(scan, after)
            &&& keeps_its_reader(before, state)
            &&& state.results == before.results
            &&& after.xs_heaptid == scan.xs_heaptid
            &&& after.xs_recheck == scan.xs_recheck
            &&& after.xs_hitup
            &&& state.values.len() == before.values.len()
            &&& state.nulls.len() == before.nulls.len()
            &&& key matches Some(datum) ==> state.values[0] == datum && !state.nulls[0]
            &&& key is None ==> state.values[0] == 0 && state.nulls[0]
            &&& forall|i: int|
                1 <= i < before.values.len() ==> #[trigger] state.values[i] == before.values[i]
            &&& forall|i: int|
                1 <= i < before.nulls.len() ==> #[trigger] state.nulls[i] == before.nulls[i]
            &&& scan.xs_hitup ==> action == (ScanAction::Return {
                found: true,
                store: TupleStore::Refill,
            })
            &&& !scan.xs_hitup ==> action == (ScanAction::Return {
                found: true,
                store: TupleStore::Form,
            })
        }),
{
}

/// The segment claimed is the one that is searched next, whatever was searched before, both for
/// rows and for a bitmap. Nothing else of the scan changes.
pub proof fn law_claimed_segment_is_searched(
    scan: ScanView,
    bitmap: BitmapScan,
    segment_id: SegmentId,
)
    requires
        scan.opaque is Some,
    ensures
        scan.next_claim(Some(segment_id)).1 == (ScanAction::SearchSegment { segment_id }),
        bitmap.next_claim(Some(segment_id)) == (BitmapAction::SearchSegment { segment_id }),
        scan.next_claim(Some(segment_id)).0 == scan.next_segment(Some(segment_id)),
        ({
            let after = scan.next_segment(Some(segment_id));
            let (state, before) = (after.opaque->0, scan.opaque->0);
            &&& after.opaque is Some
            &&& state.results == Some(SearchRequest::Segment { segment_id })
            &&& keeps_its_kind(scan, after)
            &&& keeps_its_reader(before, state)
            &&& state.values == before.values
            &&& state.nulls == before.nulls
            &&& after.xs_heaptid == scan.xs_heaptid
            &&& after.xs_hitup == scan.xs_hitup
            &&& after.xs_recheck == scan.xs_recheck
        }),
{
}

/// Without a segment to claim there is no row, a bitmap is done with the places added so far, and
/// the scan stays as it is.
pub proof fn law_no_segment_is_the_end(scan: ScanView, bitmap: BitmapScan)
    requires
        scan.opaque is Some,
    ensures
        scan.next_claim(None).0 == scan,
        scan.next_claim(None).1 == (ScanAction::Return {
            found: false,
            store: TupleStore::Nothing,
        }),
        scan.next_segment(None) == scan,
        bitmap.next_claim(None) == (BitmapAction::Return { count: bitmap.count }),
{
}

/// A bitmap begins empty, with the results at hand or else with a claim. Each document adds one
/// place, its own, which need not be checked again; without a document a segment is claimed.
pub proof fn law_bitmap_adds_each_place(scan: ScanView, bitmap: BitmapScan, hit: SearchHit)
    requires
        scan.opaque is Some,
        bitmap.count < i64::MAX,
    ensures
        bitmap_start(scan).0.count == 0,
        scan.opaque->0.results is Some ==> bitmap_start(scan).1 == BitmapAction::FetchHit,
        scan.opaque->0.results is None ==> bitmap_start(scan).1 == BitmapAction::ClaimSegment,
        bitmap.next_hit(Some(hit)).0.count == bitmap.count + 1,
        bitmap.next_hit(Some(hit)).1 == (BitmapAction::AddTuple { tid: hit.tid, recheck: false }),
        bitmap.next_hit(None) == (bitmap, BitmapAction::ClaimSegment),
{
}

/// The types of which values can be returned from the index: the integers of four and eight bytes,
/// the floats of four and eight bytes, booleans and identifiers.
pub proof fn law_returnable_types(typid: Oid)
    ensures
        is_returnable_type(typid) <==> typid == 23 || typid == 20 || typid == 700 || typid == 701
            || typid == 16 || typid == 2950,
{
}

/// What is said of a scan is what it holds.
pub proof fn law_scan_is_seen_as_it_is(scan: IndexScanDesc)
    ensures
        scan@.xs_want_itup == scan.xs_want_itup,
        scan@.xs_recheck == scan.xs_recheck,
        scan@.xs_heaptid == scan.xs_heaptid,
        scan@.xs_hitup == scan.xs_hitup,
        scan@.xs_hitupdesc == scan.xs_hitupdesc@,
        scan@.parallel_scan == scan.parallel_scan,
        scan@.opaque is Some <==> scan.opaque is Some,
        scan.opaque matches Some(state) ==> scan@.opaque->0 == state@,
{
}

/// What is said of the state of a scan is what it holds.
pub proof fn law_state_is_seen_as_it_is(state: Bm25ScanState)
    ensures
        state@.reader == state.reader@,
        state@.results == state.results,
        state@.values == state.itup.0@,
        state@.nulls == state.itup.1@,
        state@.key_field_oid == state.key_field_oid,
        state@.fast_fields.len() == state.fast_fields@.len(),
        forall|i: int|
            0 <= i < state.fast_fields@.len() ==> (#[trigger] state@.fast_fields[i]).name
                == state.fast_fields@[i].name@ && state@.fast_fields[i].field_type
                == state.fast_fields@[i].field_type,
{
}

/// What is said of a reader is what it is opened with.
pub proof fn law_reader_is_seen_as_it_is(reader: ReaderRequest, field: KeyField)
    ensures
        reader@.query == reader.query@,
        reader@.need_scores == reader.need_scores,
        reader.mvcc is Snapshot <==> reader@.mvcc is Snapshot,
        reader.mvcc matches MvccSatisfies::ParallelWorker { segment_ids } ==> reader@.mvcc == (
        MvccView::ParallelWorker { segment_ids: segment_ids@ }),
        field@.name == field.name@,
        field@.field_type == field.field_type,
{
}

} // verus!
