//! Scans of the index as the server runs them.

use crate::catalog::{
    Datum, Oid, BOOLOID, FLOAT4OID, FLOAT8OID, INT4OID, INT8OID, INVALID_OID, NULL_DATUM, UUIDOID,
};
use crate::item_pointer::ItemPointerData;
use crate::search::{
    keys_to_search_query_input, QueryTree, ScanKey, SearchHit, SearchQueryInput, SearchRequest,
};
use tantivy::index::SegmentId;
use tantivy::DocAddress;
use vstd::prelude::*;

#[allow(unused_imports)]
use crate::search::{conjunction, queries_of};

verus! {

/// The field that holds the key of the indexed documents.
#[derive(Debug)]
pub struct KeyField {
    pub name: String,
    /// How the field's values are stored, by its number among the ways to store a field.
    pub field_type: u32,
}

/// What a `KeyField` says.
pub ghost struct KeyFieldView {
    pub name: Seq<char>,
    pub field_type: u32,
}

impl View for KeyField {
    type V = KeyFieldView;

    open spec fn view(&self) -> KeyFieldView {
        KeyFieldView { name: self.name@, field_type: self.field_type }
    }
}

/// Which segments a reader sees.
#[derive(Debug)]
pub enum MvccSatisfies {
    /// Those that the snapshot sees.
    Snapshot,
    /// These, which the leader of a parallel scan holds open.
    ParallelWorker { segment_ids: Vec<SegmentId> },
}

/// What an `MvccSatisfies` says.
pub ghost enum MvccView {
    Snapshot,
    ParallelWorker { segment_ids: Seq<SegmentId> },
}

impl View for MvccSatisfies {
    type V = MvccView;

    open spec fn view(&self) -> MvccView {
        match *self {
            MvccSatisfies::Snapshot => MvccView::Snapshot,
            MvccSatisfies::ParallelWorker { segment_ids } => MvccView::ParallelWorker {
                segment_ids: segment_ids@,
            },
        }
    }
}

/// What a reader of the index is opened with.
#[derive(Debug)]
pub struct ReaderRequest {
    pub query: SearchQueryInput,
    /// Scores are computed.
    pub need_scores: bool,
    pub mvcc: MvccSatisfies,
}

/// What a `ReaderRequest` says.
pub ghost struct ReaderView {
    pub query: QueryTree,
    pub need_scores: bool,
    pub mvcc: MvccView,
}

impl View for ReaderRequest {
    type V = ReaderView;

    open spec fn view(&self) -> ReaderView {
        ReaderView { query: self.query@, need_scores: self.need_scores, mvcc: self.mvcc@ }
    }
}

/// What a scan keeps between the rows that it returns.
#[derive(Debug)]
pub struct Bm25ScanState {
    /// The fields whose values are read for each document found.
    pub fast_fields: Vec<KeyField>,
    /// What the reader was opened with.
    pub reader: ReaderRequest,
    /// The search whose results are being returned.
    pub results: Option<SearchRequest>,
    /// The values of the row to return and which of them are null.
    pub itup: (Vec<Datum>, Vec<bool>),
    /// The type of the key field.
    pub key_field_oid: Oid,
}

/// What a `Bm25ScanState` says.
pub ghost struct ScanStateView {
    pub fast_fields: Seq<KeyFieldView>,
    pub reader: ReaderView,
    pub results: Option<SearchRequest>,
    pub values: Seq<Datum>,
    pub nulls: Seq<bool>,
    pub key_field_oid: Oid,
}

impl View for Bm25ScanState {
    type V = ScanStateView;

    open spec fn view(&self) -> ScanStateView {
        ScanStateView {
            fast_fields: self.fast_fields@.map_values(|field: KeyField| field@),
            reader: self.reader@,
            results: self.results,
            values: self.itup.0@,
            nulls: self.itup.1@,
            key_field_oid: self.key_field_oid,
        }
    }
}

/// A scan of the index.
#[derive(Debug)]
pub struct IndexScanDesc {
    /// Rows are to be returned from the index alone.
    pub xs_want_itup: bool,
    /// The row has to be checked against the conditions again.
    pub xs_recheck: bool,
    /// The place of the row that was found last.
    pub xs_heaptid: ItemPointerData,
    /// A row was formed before, whose memory can be used again.
    pub xs_hitup: bool,
    /// The types of the columns of the rows returned from the index.
    pub xs_hitupdesc: Vec<Oid>,
    /// Several processes share the scan.
    pub parallel_scan: bool,
    pub opaque: Option<Bm25ScanState>,
}

/// What an `IndexScanDesc` says.
pub ghost struct ScanView {
    pub xs_want_itup: bool,
    pub xs_recheck: bool,
    pub xs_heaptid: ItemPointerData,
    pub xs_hitup: bool,
    pub xs_hitupdesc: Seq<Oid>,
    pub parallel_scan: bool,
    pub opaque: Option<ScanStateView>,
}

impl View for IndexScanDesc {
    type V = ScanView;

    open spec fn view(&self) -> ScanView {
        ScanView {
            xs_want_itup: self.xs_want_itup,
            xs_recheck: self.xs_recheck,
            xs_heaptid: self.xs_heaptid,
            xs_hitup: self.xs_hitup,
            xs_hitupdesc: self.xs_hitupdesc@,
            parallel_scan: self.parallel_scan,
            opaque: match self.opaque {
                Some(state) => Some(state@),
                None => None,
            },
        }
    }
}

/// What has to be done with the memory of a row that is returned from the index.
#[derive(Clone, Copy, Debug, PartialEq, Eq, Structural)]
pub enum TupleStore {
    /// No row is returned from the index.
    Nothing,
    /// A row is to be formed of the values at hand.
    Form,
    /// The row formed before is to be overwritten with the values at hand.
    Refill,
}

/// What has to be done next for the server to get its next row.
#[derive(Clone, Copy, Debug, PartialEq)]
pub enum ScanAction {
    /// Take the next document from the results and go on with `amgettuple_hit`.
    FetchHit,
    /// Read the key of the document as a value of the given type and go on with `amgettuple_key`.
    FetchKey { doc_address: DocAddress, key_field_oid: Oid },
    /// Claim a segment that no process of the scan has claimed yet and go on with
    /// `amgettuple_claimed`.
    ClaimSegment,
    /// Search the segment, take the first document from the results and go on with
    /// `amgettuple_hit`.
    SearchSegment { segment_id: SegmentId },
    /// Store the row and tell the server whether there was one.
    Return { found: bool, store: TupleStore },
}

/// What has to be done next for the server to get a bitmap of the rows found.
#[derive(Clone, Copy, Debug, PartialEq)]
pub enum BitmapAction {
    /// Take the next document from the results and go on with `amgetbitmap_hit`.
    FetchHit,
    /// Add the place to the bitmap, take the next document from the results and go on with
    /// `amgetbitmap_hit`.
    AddTuple { tid: ItemPointerData, recheck: bool },
    /// Claim a segment that no process of the scan has claimed yet and go on with
    /// `amgetbitmap_claimed`.
    ClaimSegment,
    /// Search the segment, take the first document from the results and go on with
    /// `amgetbitmap_hit`.
    SearchSegment { segment_id: SegmentId },
    /// Tell the server how many places were added.
    Return { count: i64 },
}

impl ScanView {
    /// The scan runs in a worker process of a parallel scan.
    pub open spec fn runs_in_worker(self, worker_number: i32) -> bool {
        worker_number != -1 && self.parallel_scan
    }

    /// A row can be returned from the index: it has a column, and the key can be read.
    pub open spec fn can_return_rows(self) -> bool {
        &&& self.opaque is Some
        &&& self.opaque->0.fast_fields.len() > 0
        &&& self.opaque->0.values.len() > 0
        &&& self.opaque->0.nulls.len() == self.opaque->0.values.len()
    }

    /// The scan with `results` as the search whose results are being returned.
    pub open spec fn searching(self, results: Option<SearchRequest>) -> ScanView {
        ScanView { opaque: Some(ScanStateView { results, ..self.opaque->0 }), ..self }
    }

    /// The scan once its reader is open. A scan that is not shared searches all segments, a shared
    /// one the segment that was claimed, if there was one.
    pub open spec fn opened(
        self,
        reader: ReaderView,
        claimed: Option<SegmentId>,
        key_field: Option<KeyFieldView>,
    ) -> ScanView {
        let results = if !self.parallel_scan {
            Some(SearchRequest::All { limit: None })
        } else {
            match claimed {
                Some(segment_id) => Some(SearchRequest::Segment { segment_id }),
                None => None,
            }
        };
        let natts = self.xs_hitupdesc.len();
        let state = if self.xs_want_itup {
            ScanStateView {
                fast_fields: seq![key_field->0],
                reader,
                results,
                values: Seq::new(natts, |i: int| NULL_DATUM),
                nulls: Seq::new(natts, |i: int| true),
                key_field_oid: self.xs_hitupdesc[0],
            }
        } else {
            ScanStateView {
                fast_fields: Seq::empty(),
                reader,
                results,
                values: Seq::empty(),
                nulls: Seq::empty(),
                key_field_oid: INVALID_OID,
            }
        };
        ScanView { opaque: Some(state), ..self }
    }

    /// The first step to the next row: from the results at hand, or else from another segment.
    pub open spec fn next_row(self) -> (ScanView, ScanAction) {
        (
            ScanView { xs_recheck: false, ..self },
            if self.opaque->0.results is Some {
                ScanAction::FetchHit
            } else {
                ScanAction::ClaimSegment
            },
        )
    }

    /// The step after the next document was asked for.
    pub open spec fn next_hit(self, hit: Option<SearchHit>) -> (ScanView, ScanAction) {
        match hit {
            Some(hit) => (
                ScanView { xs_heaptid: hit.tid, ..self },
                if self.xs_want_itup {
                    ScanAction::FetchKey {
                        doc_address: hit.doc_address,
                        key_field_oid: self.opaque->0.key_field_oid,
                    }
                } else {
                    ScanAction::Return { found: true, store: TupleStore::Nothing }
                },
            ),
            None => (self, ScanAction::ClaimSegment),
        }
    }

    /// The step after the key of the document was read, which is absent where it is null.
    pub open spec fn next_key(self, key: Option<Datum>) -> (ScanView, ScanAction) {
        let state = self.opaque->0;
        let (value, null) = match key {
            Some(datum) => (datum, false),
            None => (NULL_DATUM, true),
        };
        (
            ScanView {
                xs_hitup: true,
                opaque: Some(
                    ScanStateView {
                        values: state.values.update(0, value),
                        nulls: state.nulls.update(0, null),
                        ..state
                    },
                ),
                ..self
            },
            ScanAction::Return {
                found: true,
                store: if self.xs_hitup {
                    TupleStore::Refill
                } else {
                    TupleStore::Form
                },
            },
        )
    }

    /// The scan after another segment was asked for.
    pub open spec fn next_segment(self, claimed: Option<SegmentId>) -> ScanView {
        match claimed {
            Some(segment_id) => self.searching(Some(SearchRequest::Segment { segment_id })),
            None => self,
        }
    }

    /// The step after another segment was asked for.
    pub open spec fn next_claim(self, claimed: Option<SegmentId>) -> (ScanView, ScanAction) {
        (
            self.next_segment(claimed),
            match claimed {
                Some(segment_id) => ScanAction::SearchSegment { segment_id },
                None => ScanAction::Return { found: false, store: TupleStore::Nothing },
            },
        )
    }
}

/// Completes the description of a new scan: the rows that it may return from the index have the
/// columns `rd_att` of the index.
pub fn ambeginscan(scandesc: IndexScanDesc, rd_att: Vec<Oid>) -> (scan: IndexScanDesc)
    ensures
        scan@ == (ScanView { xs_hitupdesc: rd_att@, ..scandesc@ }),
        scan.xs_hitupdesc@ == rd_att@,
        scan == (IndexScanDesc { xs_hitupdesc: scan.xs_hitupdesc, ..scandesc }),
{
    let mut scan = scandesc;
    scan.xs_hitupdesc = rd_att;
    scan
}

/// Whether the scan runs in a worker process of a parallel scan. Such a process reads the segments
/// that the leader holds open; any other reads those that its snapshot sees.
pub fn is_parallel_worker(scan: &IndexScanDesc, worker_number: i32) -> (worker: bool)
    ensures
        worker == scan@.runs_in_worker(worker_number),
        worker == (scan.parallel_scan && worker_number != -1),
{
    !(worker_number == -1 || !scan.parallel_scan)
}

/// What the reader of a scan with the conditions `keys` has to be opened with, where `segment_ids`
/// are the segments that the leader of a parallel scan holds open.
pub open spec fn reader_for(
    scan: ScanView,
    keys: Seq<ScanKey>,
    worker_number: i32,
    segment_ids: Seq<SegmentId>,
) -> ReaderView {
    ReaderView {
        query: conjunction(queries_of(keys)),
        need_scores: false,
        mvcc: if scan.runs_in_worker(worker_number) {
            MvccView::ParallelWorker { segment_ids }
        } else {
            MvccView::Snapshot
        },
    }
}

/// What the reader of a scan that starts, or starts over, has to be opened with. `segment_ids` are
/// the segments that the leader of a parallel scan holds open, which only its workers need.
///
/// A document is found if it meets all of `keys`.
pub fn amrescan(
    scan: &IndexScanDesc,
    keys: Vec<ScanKey>,
    worker_number: i32,
    segment_ids: Option<Vec<SegmentId>>,
) -> (request: ReaderRequest)
    requires
        keys@.len() > 0,
        forall|i: int| 0 <= i < keys@.len() ==> (#[trigger] keys@[i]).has_argument(),
        scan@.runs_in_worker(worker_number) ==> segment_ids is Some,
    ensures
        request.query@ == conjunction(queries_of(keys@)),
        !request.need_scores,
        request.mvcc@ == if scan@.runs_in_worker(worker_number) {
            MvccView::ParallelWorker { segment_ids: segment_ids->0@ }
        } else {
            MvccView::Snapshot
        },
        request@ == reader_for(
            scan@,
            keys@,
            worker_number,
            match segment_ids {
                Some(ids) => ids@,
                None => Seq::empty(),
            },
        ),
        request.mvcc is Snapshot <==> !scan.parallel_scan || worker_number == -1,
        request.mvcc matches MvccSatisfies::ParallelWorker { segment_ids: seen } ==> seen@
            == segment_ids->0@,
{
    let query = keys_to_search_query_input(keys);
    let mvcc = if is_parallel_worker(scan, worker_number) {
        MvccSatisfies::ParallelWorker { segment_ids: segment_ids.unwrap() }
    } else {
        MvccSatisfies::Snapshot
    };
    ReaderRequest { query, need_scores: false, mvcc }
}

/// What a scan that starts, or starts over, has to be given once its reader is open.
#[derive(Clone, Copy, Debug, PartialEq, Eq, Structural)]
pub struct RescanNeeds {
    /// A segment that no process of the scan has claimed yet, if there is one.
    pub claimed: bool,
    /// The key field of the index.
    pub key_field: bool,
}

/// What `amrescan_opened` needs: only a shared scan claims a segment, and only rows returned from
/// the index have a key.
pub fn rescan_needs(scan: &IndexScanDesc) -> (needs: RescanNeeds)
    ensures
        needs.claimed == scan@.parallel_scan,
        needs.key_field == scan@.xs_want_itup,
{
    RescanNeeds { claimed: scan.parallel_scan, key_field: scan.xs_want_itup }
}

/// Starts a scan, or starts it over, once its reader is open. `claimed` is the segment that the
/// process claimed, which only a shared scan has; `key_field` is needed only where rows are to be
/// returned from the index.
pub fn amrescan_opened(
    scan: &mut IndexScanDesc,
    reader: ReaderRequest,
    claimed: Option<SegmentId>,
    key_field: Option<KeyField>,
)
    requires
        old(scan)@.xs_want_itup ==> key_field is Some && old(scan)@.xs_hitupdesc.len() > 0,
    ensures
        final(scan)@ == old(scan)@.opened(
            reader@,
            claimed,
            match key_field {
                Some(field) => Some(field@),
                None => None,
            },
        ),
        final(scan).opaque is Some,
        final(scan).opaque->0.results == if !old(scan).parallel_scan {
            Some(SearchRequest::All { limit: None })
        } else {
            match claimed {
                Some(segment_id) => Some(SearchRequest::Segment { segment_id }),
                None => None,
            }
        },
        final(scan).opaque->0.reader == reader,
        old(scan).xs_want_itup ==> final(scan).opaque->0.key_field_oid == old(scan).xs_hitupdesc@[0],
{
    let results = if !scan.parallel_scan {
        Some(SearchRequest::All { limit: None })
    } else {
        match claimed {
            Some(segment_id) => Some(SearchRequest::Segment { segment_id }),
            None => None,
        }
    };
    let natts: usize = scan.xs_hitupdesc.len();
    let scan_state = if scan.xs_want_itup {
        let field = key_field.unwrap();
        let ghost view = field@;
        let fast_fields = vec![field];
        let itup: (Vec<Datum>, Vec<bool>) = (vec![NULL_DATUM; natts], vec![true; natts]);
        assert(fast_fields@.map_values(|field: KeyField| field@) == seq![view]);
        assert(itup.0@ == Seq::new(natts as nat, |i: int| NULL_DATUM));
        assert(itup.1@ == Seq::new(natts as nat, |i: int| true));
        Bm25ScanState {
            fast_fields,
            reader,
            results,
            itup,
            key_field_oid: scan.xs_hitupdesc[0],
        }
    } else {
        let fast_fields: Vec<KeyField> = Vec::new();
        assert(fast_fields@.map_values(|field: KeyField| field@) == Seq::<KeyFieldView>::empty());
        Bm25ScanState {
            fast_fields,
            reader,
            results,
            itup: (Vec::new(), Vec::new()),
            key_field_oid: INVALID_OID,
        }
    };
    scan.opaque = Some(scan_state);
}

/// Ends a scan: what it kept between rows is gone.
pub fn amendscan(scan: &mut IndexScanDesc)
    ensures
        final(scan)@ == (ScanView { opaque: None, ..old(scan)@ }),
        final(scan).opaque is None,
{
    scan.opaque = None;
}

/// Begins to look for the server's next row.
pub fn amgettuple(scan: &mut IndexScanDesc) -> (action: ScanAction)
    requires
        old(scan)@.opaque is Some,
    ensures
        (final(scan)@, action) == old(scan)@.next_row(),
        !final(scan).xs_recheck,
        final(scan).opaque == old(scan).opaque,
        action == if old(scan).opaque->0.results is Some {
            ScanAction::FetchHit
        } else {
            ScanAction::ClaimSegment
        },
{
    scan.xs_recheck = false;
    match &scan.opaque {
        Some(state) => if state.results.is_some() {
            ScanAction::FetchHit
        } else {
            ScanAction::ClaimSegment
        },
        None => ScanAction::ClaimSegment,
    }
}

/// Goes on with the next document, if there was one in the results.
pub fn amgettuple_hit(scan: &mut IndexScanDesc, hit: Option<SearchHit>) -> (action: ScanAction)
    requires
        old(scan)@.opaque is Some,
        hit is Some && old(scan)@.xs_want_itup ==> old(scan)@.can_return_rows(),
    ensures
        (final(scan)@, action) == old(scan)@.next_hit(hit),
        final(scan).opaque == old(scan).opaque,
        hit matches Some(found) ==> final(scan).xs_heaptid == found.tid,
        hit is None ==> *final(scan) == *old(scan) && action == ScanAction::ClaimSegment,
{
    match hit {
        Some(hit) => {
            scan.xs_heaptid = hit.tid;
            if scan.xs_want_itup {
                let key_field_oid: Oid = match &scan.opaque {
                    Some(state) => state.key_field_oid,
                    None => INVALID_OID,
                };
                ScanAction::FetchKey { doc_address: hit.doc_address, key_field_oid }
            } else {
                ScanAction::Return { found: true, store: TupleStore::Nothing }
            }
        },
        None => ScanAction::ClaimSegment,
    }
}

/// Goes on with the key of the document, which is absent where it is null.
pub fn amgettuple_key(scan: &mut IndexScanDesc, key: Option<Datum>) -> (action: ScanAction)
    requires
        old(scan)@.can_return_rows(),
    ensures
        (final(scan)@, action) == old(scan)@.next_key(key),
        key matches Some(datum) ==> final(scan).opaque->0.itup.0@[0] == datum,
        final(scan).opaque->0.itup.1@[0] == (key is None),
{
    match &mut scan.opaque {
        Some(state) => match key {
            Some(key_field_datum) => {
                state.itup.0[0] = key_field_datum;
                state.itup.1[0] = false;
            },
            None => {
                state.itup.0[0] = NULL_DATUM;
                state.itup.1[0] = true;
            },
        },
        None => {},
    }
    let store = if scan.xs_hitup {
        TupleStore::Refill
    } else {
        TupleStore::Form
    };
    scan.xs_hitup = true;
    ScanAction::Return { found: true, store }
}

/// Turns to the segment that was claimed, if there was one.
pub fn search_next_segment(state: &mut Bm25ScanState, claimed: Option<SegmentId>) -> (found: bool)
    ensures
        found == (claimed is Some),
        final(state)@ == match claimed {
            Some(segment_id) => ScanStateView {
                results: Some(SearchRequest::Segment { segment_id }),
                ..old(state)@
            },
            None => old(state)@,
        },
{
    match claimed {
        Some(segment_id) => {
            state.results = Some(SearchRequest::Segment { segment_id });
            true
        },
        None => false,
    }
}

/// Goes on with another segment, if one was claimed.
pub fn amgettuple_claimed(scan: &mut IndexScanDesc, claimed: Option<SegmentId>) -> (action:
    ScanAction)
    requires
        old(scan)@.opaque is Some,
    ensures
        (final(scan)@, action) == old(scan)@.next_claim(claimed),
{
    match &mut scan.opaque {
        Some(state) => {
            search_next_segment(state, claimed);
        },
        None => {},
    }
    match claimed {
        Some(segment_id) => ScanAction::SearchSegment { segment_id },
        None => ScanAction::Return { found: false, store: TupleStore::Nothing },
    }
}

/// How far a scan is that gathers all rows into a bitmap.
#[derive(Clone, Copy, Debug, PartialEq, Eq, Structural)]
pub struct BitmapScan {
    /// How many places were added to the bitmap.
    pub count: i64,
}

impl BitmapScan {
    /// The step after the next document was asked for.
    pub open spec fn next_hit(self, hit: Option<SearchHit>) -> (BitmapScan, BitmapAction) {
        match hit {
            Some(hit) => (
                BitmapScan { count: (self.count + 1) as i64 },
                BitmapAction::AddTuple { tid: hit.tid, recheck: false },
            ),
            None => (self, BitmapAction::ClaimSegment),
        }
    }

    /// The step after another segment was asked for.
    pub open spec fn next_claim(self, claimed: Option<SegmentId>) -> BitmapAction {
        match claimed {
            Some(segment_id) => BitmapAction::SearchSegment { segment_id },
            None => BitmapAction::Return { count: self.count },
        }
    }
}

/// The first step of a scan that gathers all rows into a bitmap: from the results at hand, or else
/// from another segment.
pub open spec fn bitmap_start(scan: ScanView) -> (BitmapScan, BitmapAction) {
    (
        BitmapScan { count: 0 },
        if scan.opaque->0.results is Some {
            BitmapAction::FetchHit
        } else {
            BitmapAction::ClaimSegment
        },
    )
}

/// Begins to gather all rows of the scan into a bitmap.
pub fn amgetbitmap(scan: &IndexScanDesc) -> (begun: (BitmapScan, BitmapAction))
    requires
        scan@.opaque is Some,
    ensures
        begun == bitmap_start(scan@),
        begun.0.count == 0,
{
    let action = match &scan.opaque {
        Some(state) => if state.results.is_some() {
            BitmapAction::FetchHit
        } else {
            BitmapAction::ClaimSegment
        },
        None => BitmapAction::ClaimSegment,
    };
    (BitmapScan { count: 0 }, action)
}

/// Goes on with the next document, if there was one in the results.
pub fn amgetbitmap_hit(bitmap: &mut BitmapScan, hit: Option<SearchHit>) -> (action: BitmapAction)
    requires
        hit is Some ==> old(bitmap).count < i64::MAX,
    ensures
        (*final(bitmap), action) == old(bitmap).next_hit(hit),
        hit matches Some(found) ==> action == (BitmapAction::AddTuple {
            tid: found.tid,
            recheck: false,
        }) && final(bitmap).count == old(bitmap).count + 1,
        hit is None ==> action == BitmapAction::ClaimSegment && *final(bitmap) == *old(bitmap),
{
    match hit {
        Some(hit) => {
            bitmap.count = bitmap.count + 1;
            BitmapAction::AddTuple { tid: hit.tid, recheck: false }
        },
        None => BitmapAction::ClaimSegment,
    }
}

/// Goes on with another segment, if one was claimed.
pub fn amgetbitmap_claimed(
    bitmap: &BitmapScan,
    scan: &mut IndexScanDesc,
    claimed: Option<SegmentId>,
) -> (action: BitmapAction)
    requires
        old(scan)@.opaque is Some,
    ensures
        final(scan)@ == old(scan)@.next_segment(claimed),
        action == bitmap.next_claim(claimed),
        claimed matches Some(segment_id) ==> action == (BitmapAction::SearchSegment { segment_id })
            && final(scan).opaque->0.results == Some(SearchRequest::Segment { segment_id }),
        claimed is None ==> action == (BitmapAction::Return { count: bitmap.count }),
{
    match &mut scan.opaque {
        Some(state) => {
            search_next_segment(state, claimed);
        },
        None => {},
    }
    match claimed {
        Some(segment_id) => BitmapAction::SearchSegment { segment_id },
        None => BitmapAction::Return { count: bitmap.count },
    }
}

/// Values of the type can be returned from the index: they are passed by value, or are identifiers,
/// and no tokens are made of them.
pub open spec fn is_returnable_type(typid: Oid) -> bool {
    ||| typid == INT4OID
    ||| typid == INT8OID
    ||| typid == FLOAT4OID
    ||| typid == FLOAT8OID
    ||| typid == BOOLOID
    ||| typid == UUIDOID
}

/// Whether the column `attno` of an index with columns of the types `rd_att` can be returned from
/// the index: only the key can, which is the first column, and only where its type allows it.
pub fn amcanreturn(rd_att: &Vec<Oid>, attno: i32) -> (can: bool)
    requires
        attno == 1 ==> rd_att@.len() > 0,
    ensures
        can == (attno == 1 && is_returnable_type(rd_att@[0])),
        can <==> attno == 1 && (rd_att@[0] == 23 || rd_att@[0] == 20 || rd_att@[0] == 700
            || rd_att@[0] == 701 || rd_att@[0] == 16 || rd_att@[0] == 2950),
{
    if attno != 1 {
        return false;
    }
    let atttypid: Oid = rd_att[0];
    atttypid == INT4OID || atttypid == INT8OID || atttypid == FLOAT4OID || atttypid == FLOAT8OID
        || atttypid == BOOLOID || atttypid == UUIDOID
}

} // verus!
