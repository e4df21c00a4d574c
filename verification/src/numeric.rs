//! Rows made of fast fields alone, without a look at the table.

use crate::catalog::{AttrNumber, Datum, Oid, INVALID_OID, NULL_DATUM};
use crate::item_pointer::{
    item_pointer_get_block_number, BlockNumber, ItemPointerData, INVALID_BLOCK_NUMBER,
};
use crate::search::{SearchHit, SearchRequest};
use tantivy::index::SegmentId;
use tantivy::DocAddress;
use vstd::prelude::*;

verus! {

/// The slot holds no row.
pub const TTS_FLAG_EMPTY: u16 = 2;

/// The slot owns the memory of its row.
pub const TTS_FLAG_SHOULDFREE: u16 = 4;

/// A fast field that a column of the row is read from, by its number among the fields that the
/// caller keeps.
#[derive(Clone, Copy, Debug, PartialEq, Eq, Structural)]
pub struct WhichFastField {
    pub number: u64,
}

/// Where the executor gets a row from: its place, its columns, and which of them are null.
#[derive(Debug)]
pub struct TupleTableSlot {
    pub tts_flags: u16,
    /// How many columns have a value.
    pub tts_nvalid: AttrNumber,
    pub tts_tid: ItemPointerData,
    pub tts_table_oid: Oid,
    pub tts_values: Vec<Datum>,
    pub tts_isnull: Vec<bool>,
}

/// What a `TupleTableSlot` says.
pub ghost struct SlotView {
    pub tts_flags: u16,
    pub tts_nvalid: AttrNumber,
    pub tts_tid: ItemPointerData,
    pub tts_table_oid: Oid,
    pub tts_values: Seq<Datum>,
    pub tts_isnull: Seq<bool>,
}

impl View for TupleTableSlot {
    type V = SlotView;

    open spec fn view(&self) -> SlotView {
        SlotView {
            tts_flags: self.tts_flags,
            tts_nvalid: self.tts_nvalid,
            tts_tid: self.tts_tid,
            tts_table_oid: self.tts_table_oid,
            tts_values: self.tts_values@,
            tts_isnull: self.tts_isnull@,
        }
    }
}

/// What a scan over fast fields keeps between rows.
#[derive(Debug)]
pub struct FastFieldExecState {
    which_fast_fields: Vec<WhichFastField>,
    heaprel: Option<Oid>,
    tupdesc: Option<Vec<Oid>>,
    slot: TupleTableSlot,
    blockvis: (BlockNumber, bool),
    did_query: bool,
}

/// Returns rows that are made of numeric fast fields alone.
#[derive(Debug)]
pub struct NumericFastFieldExecState {
    inner: FastFieldExecState,
    search_results: Option<SearchRequest>,
}

/// What a `NumericFastFieldExecState` says.
pub ghost struct NumericView {
    /// The fast field of each column of a row.
    pub which_fast_fields: Seq<WhichFastField>,
    /// The table that the rows are of.
    pub heaprel: Option<Oid>,
    /// The types of the columns of a row.
    pub tupdesc: Option<Seq<Oid>>,
    /// The slot for the row to return.
    pub slot: SlotView,
    /// The block asked about last, and whether all its rows are visible.
    pub blockvis: (BlockNumber, bool),
    /// A search of the whole index was begun.
    pub did_query: bool,
    /// The search whose results are being returned.
    pub search_results: Option<SearchRequest>,
}

impl View for NumericFastFieldExecState {
    type V = NumericView;

    closed spec fn view(&self) -> NumericView {
        NumericView {
            which_fast_fields: self.inner.which_fast_fields@,
            heaprel: self.inner.heaprel,
            tupdesc: match self.inner.tupdesc {
                Some(tupdesc) => Some(tupdesc@),
                None => None,
            },
            slot: self.inner.slot@,
            blockvis: self.inner.blockvis,
            did_query: self.inner.did_query,
            search_results: self.search_results,
        }
    }
}

/// What decides which part of the index a scan searches next.
#[derive(Clone, Copy, Debug, PartialEq)]
pub enum QuerySource {
    /// The scan is shared, and this is the segment that the process got to search, if any was left.
    Parallel { claimed: Option<SegmentId> },
    /// The scan is not shared, and needs this many documents at most.
    Serial { limit: Option<usize> },
}

/// What became of a row.
#[derive(Clone, Copy, Debug, PartialEq)]
pub enum ExecState {
    /// There are no more.
    Eof,
    /// It is in the slot.
    Virtual,
    /// Its block may hold rows that are not visible, so the row itself has to be looked at.
    RequiresVisibilityCheck { ctid: u64, score: u32, doc_address: DocAddress },
}

/// A column of the row, the fast field to read it from and the type to read it as.
#[derive(Clone, Copy, Debug, PartialEq, Eq, Structural)]
pub struct ColumnRequest {
    pub field: WhichFastField,
    pub column: usize,
    pub atttypid: Oid,
}

/// What has to be done next for a row.
#[derive(Debug)]
pub enum NextAction {
    /// Take the next document from the results and go on with `internal_next_hit`.
    FetchHit,
    /// Find out whether all rows of the block are visible and go on with `internal_next_visible`.
    CheckVisibility { blockno: BlockNumber },
    /// Read the columns of the document and go on with `internal_next_columns`.
    FetchColumns { columns: Vec<ColumnRequest>, bm25: u32, doc_address: DocAddress },
    /// This is what became of the row.
    Return { state: ExecState },
}

/// What a `NextAction` says.
pub ghost enum NextActionView {
    FetchHit,
    CheckVisibility { blockno: BlockNumber },
    FetchColumns { columns: Seq<ColumnRequest>, bm25: u32, doc_address: DocAddress },
    Return { state: ExecState },
}

impl View for NextAction {
    type V = NextActionView;

    open spec fn view(&self) -> NextActionView {
        match *self {
            NextAction::FetchHit => NextActionView::FetchHit,
            NextAction::CheckVisibility { blockno } => NextActionView::CheckVisibility { blockno },
            NextAction::FetchColumns {
                columns,
                bm25,
                doc_address,
            } => NextActionView::FetchColumns { columns: columns@, bm25, doc_address },
            NextAction::Return { state } => NextActionView::Return { state },
        }
    }
}

/// A slot without columns that holds no row.
pub open spec fn empty_slot() -> SlotView {
    SlotView {
        tts_flags: TTS_FLAG_EMPTY,
        tts_nvalid: 0,
        tts_tid: ItemPointerData { bi_hi: 0xFFFF, bi_lo: 0xFFFF, ip_posid: 0 },
        tts_table_oid: INVALID_OID,
        tts_values: Seq::empty(),
        tts_isnull: Seq::empty(),
    }
}

/// The flags of a slot that a row is put into.
pub open spec fn filled_flags(flags: u16) -> u16 {
    (flags & !TTS_FLAG_EMPTY) | TTS_FLAG_SHOULDFREE
}

/// The value to put into a slot for a column, which is absent where it is null.
pub open spec fn datum_or_null(datum: Option<Datum>) -> Datum {
    match datum {
        Some(datum) => datum,
        None => NULL_DATUM,
    }
}

impl NumericView {
    /// The slot has room for a row, each of whose columns has a fast field.
    pub open spec fn can_fill(self) -> bool {
        &&& self.tupdesc is Some
        &&& self.tupdesc->0.len() <= self.which_fast_fields.len()
        &&& self.tupdesc->0.len() <= self.slot.tts_values.len()
        &&& self.slot.tts_isnull.len() == self.slot.tts_values.len()
    }

    /// The columns to read for a row.
    pub open spec fn columns(self) -> Seq<ColumnRequest> {
        Seq::new(
            self.tupdesc->0.len(),
            |i: int|
                ColumnRequest {
                    field: self.which_fast_fields[i],
                    column: i as usize,
                    atttypid: self.tupdesc->0[i],
                },
        )
    }

    /// The state after the search for more rows, and whether there is something to search.
    pub open spec fn query(self, source: QuerySource) -> (NumericView, bool) {
        match source {
            QuerySource::Parallel { claimed: Some(segment_id) } => (
                NumericView {
                    search_results: Some(SearchRequest::Segment { segment_id }),
                    ..self
                },
                true,
            ),
            QuerySource::Parallel { claimed: None } => (
                NumericView { search_results: None, ..self },
                false,
            ),
            QuerySource::Serial { limit } => if self.did_query {
                (self, false)
            } else {
                (
                    NumericView {
                        search_results: Some(SearchRequest::All { limit }),
                        did_query: true,
                        ..self
                    },
                    true,
                )
            },
        }
    }

    /// The first step to the next row.
    pub open spec fn next_row(self) -> NextActionView {
        if self.search_results is Some {
            NextActionView::FetchHit
        } else {
            NextActionView::Return { state: ExecState::Eof }
        }
    }

    /// The state with the place of the document in the slot.
    pub open spec fn at_hit(self, hit: SearchHit) -> NumericView {
        NumericView {
            slot: SlotView {
                tts_tid: hit.tid,
                tts_table_oid: self.heaprel->0,
                ..self.slot
            },
            ..self
        }
    }

    /// The step after it is known whether all rows of the block of `hit` are visible.
    pub open spec fn judged(self, hit: SearchHit, visible: bool) -> (NumericView, NextActionView) {
        let known = NumericView {
            blockvis: (hit.tid.block_number() as BlockNumber, visible),
            ..self
        };
        if visible {
            (
                NumericView {
                    slot: SlotView {
                        tts_flags: filled_flags(known.slot.tts_flags),
                        tts_nvalid: known.slot.tts_values.len() as AttrNumber,
                        ..known.slot
                    },
                    ..known
                },
                NextActionView::FetchColumns {
                    columns: known.columns(),
                    bm25: hit.bm25,
                    doc_address: hit.doc_address,
                },
            )
        } else {
            (
                known,
                NextActionView::Return {
                    state: ExecState::RequiresVisibilityCheck {
                        ctid: hit.ctid,
                        score: hit.bm25,
                        doc_address: hit.doc_address,
                    },
                },
            )
        }
    }

    /// The step after the next document was asked for. The block asked about last is not asked
    /// about again.
    pub open spec fn next_hit(self, hit: Option<SearchHit>) -> (NumericView, NextActionView) {
        match hit {
            None => (self, NextActionView::Return { state: ExecState::Eof }),
            Some(hit) => {
                let at = self.at_hit(hit);
                if hit.tid.block_number() == self.blockvis.0 {
                    at.judged(hit, self.blockvis.1)
                } else {
                    (
                        at,
                        NextActionView::CheckVisibility {
                            blockno: hit.tid.block_number() as BlockNumber,
                        },
                    )
                }
            },
        }
    }

    /// The state with the columns in the slot.
    pub open spec fn with_columns(self, columns: Seq<Option<Datum>>) -> NumericView {
        let slot = self.slot;
        NumericView {
            slot: SlotView {
                tts_values: Seq::new(
                    slot.tts_values.len(),
                    |i: int|
                        if i < columns.len() {
                            datum_or_null(columns[i])
                        } else {
                            slot.tts_values[i]
                        },
                ),
                tts_isnull: Seq::new(
                    slot.tts_isnull.len(),
                    |i: int|
                        if i < columns.len() {
                            columns[i] is None
                        } else {
                            slot.tts_isnull[i]
                        },
                ),
                ..slot
            },
            ..self
        }
    }

    /// The state of a scan that starts over.
    pub open spec fn reset(self) -> NumericView {
        NumericView {
            blockvis: (INVALID_BLOCK_NUMBER, false),
            did_query: false,
            search_results: None,
            ..self
        }
    }
}

impl FastFieldExecState {
    /// The state of a scan that has not begun.
    fn new(which_fast_fields: Vec<WhichFastField>) -> (state: FastFieldExecState)
        ensures
            state.which_fast_fields@ == which_fast_fields@,
            state.heaprel is None,
            state.tupdesc is None,
            state.slot@ == empty_slot(),
            state.blockvis == (INVALID_BLOCK_NUMBER, false),
            !state.did_query,
    {
        FastFieldExecState {
            which_fast_fields,
            heaprel: None,
            tupdesc: None,
            slot: TupleTableSlot {
                tts_flags: TTS_FLAG_EMPTY,
                tts_nvalid: 0,
                tts_tid: ItemPointerData { bi_hi: 0xFFFF, bi_lo: 0xFFFF, ip_posid: 0 },
                tts_table_oid: INVALID_OID,
                tts_values: Vec::new(),
                tts_isnull: Vec::new(),
            },
            blockvis: (INVALID_BLOCK_NUMBER, false),
            did_query: false,
        }
    }

    /// Tells the scan its table, the columns of its rows and the slot for them.
    fn init(&mut self, heaprel: Oid, tupdesc: Vec<Oid>, slot: TupleTableSlot)
        ensures
            *final(self) == (FastFieldExecState {
                heaprel: Some(heaprel),
                tupdesc: Some(tupdesc),
                slot,
                ..*old(self)
            }),
    {
        self.heaprel = Some(heaprel);
        self.tupdesc = Some(tupdesc);
        self.slot = slot;
    }

    /// Lets the scan start over.
    fn reset(&mut self)
        ensures
            *final(self) == (FastFieldExecState {
                blockvis: (INVALID_BLOCK_NUMBER, false),
                did_query: false,
                ..*old(self)
            }),
    {
        self.did_query = false;
        self.blockvis = (INVALID_BLOCK_NUMBER, false);
    }
}

impl NumericFastFieldExecState {
    /// A scan over `which_fast_fields` that has not begun.
    pub fn new(which_fast_fields: Vec<WhichFastField>) -> (state: NumericFastFieldExecState)
        ensures
            state@ == (NumericView {
                which_fast_fields: which_fast_fields@,
                heaprel: None,
                tupdesc: None,
                slot: empty_slot(),
                blockvis: (INVALID_BLOCK_NUMBER, false),
                did_query: false,
                search_results: None,
            }),
    {
        NumericFastFieldExecState {
            inner: FastFieldExecState::new(which_fast_fields),
            search_results: None,
        }
    }

    /// Tells the scan its table, the types of the columns of its rows and the slot for them.
    pub fn init(&mut self, heaprel: Oid, tupdesc: Vec<Oid>, slot: TupleTableSlot)
        ensures
            final(self)@ == (NumericView {
                heaprel: Some(heaprel),
                tupdesc: Some(tupdesc@),
                slot: slot@,
                ..old(self)@
            }),
    {
        self.inner.init(heaprel, tupdesc, slot);
    }

    /// Decides what to search next. Returns whether there is anything; if so, `search_request`
    /// says what.
    pub fn query(&mut self, source: QuerySource) -> (more: bool)
        ensures
            (final(self)@, more) == old(self)@.query(source),
            source matches QuerySource::Parallel { claimed } ==> final(self)@.search_results
                == match claimed {
                Some(segment_id) => Some(SearchRequest::Segment { segment_id }),
                None => None,
            } && more == (claimed is Some),
            source matches QuerySource::Serial { limit } ==> more == !old(self)@.did_query && (more
                ==> final(self)@.search_results == Some(SearchRequest::All { limit })),
    {
        match source {
            QuerySource::Parallel { claimed } => {
                if let Some(segment_id) = claimed {
                    self.search_results = Some(SearchRequest::Segment { segment_id });
                    return true;
                }
                self.search_results = None;
                false
            },
            QuerySource::Serial { limit } => {
                if self.inner.did_query {
                    false
                } else {
                    self.search_results = Some(SearchRequest::All { limit });
                    self.inner.did_query = true;
                    true
                }
            },
        }
    }

    /// The search whose results are being returned.
    pub fn search_request(&self) -> (request: Option<SearchRequest>)
        ensures
            request == self@.search_results,
    {
        self.search_results
    }

    /// Begins to look for the next row.
    pub fn internal_next(&self) -> (action: NextAction)
        ensures
            action@ == self@.next_row(),
    {
        if self.search_results.is_some() {
            NextAction::FetchHit
        } else {
            NextAction::Return { state: ExecState::Eof }
        }
    }

    /// Whether it is known, without asking again, that all rows of the block of `tid` are visible.
    pub fn knows_visible(&self, tid: ItemPointerData) -> (known: bool)
        requires
            tid.is_valid(),
        ensures
            known == (self@.blockvis == (tid.block_number() as BlockNumber, true)),
    {
        item_pointer_get_block_number(tid) == self.inner.blockvis.0 && self.inner.blockvis.1
    }

    /// Whether the slot has room for a row, each of whose columns has a fast field.
    pub fn can_fill(&self) -> (can: bool)
        ensures
            can == self@.can_fill(),
    {
        match &self.inner.tupdesc {
            Some(tupdesc) => tupdesc.len() <= self.inner.which_fast_fields.len() && tupdesc.len()
                <= self.inner.slot.tts_values.len() && self.inner.slot.tts_isnull.len()
                == self.inner.slot.tts_values.len(),
            None => false,
        }
    }

    /// Goes on with the next document, if there was one in the results.
    pub fn internal_next_hit(&mut self, hit: Option<SearchHit>) -> (action: NextAction)
        requires
            hit is Some ==> old(self)@.heaprel is Some && hit->0.tid.is_valid(),
            hit is Some && old(self)@.blockvis == (hit->0.tid.block_number() as BlockNumber, true)
                ==> old(self)@.can_fill(),
        ensures
            (final(self)@, action@) == old(self)@.next_hit(hit),
            hit matches Some(found) ==> final(self)@.slot.tts_tid == found.tid && final(self)@.slot.tts_table_oid == old(self)@.heaprel->0,
    {
        match hit {
            None => NextAction::Return { state: ExecState::Eof },
            Some(hit) => {
                let blockno = item_pointer_get_block_number(hit.tid);
                let heaprel: Oid = self.inner.heaprel.unwrap();
                self.inner.slot.tts_tid = hit.tid;
                self.inner.slot.tts_table_oid = heaprel;
                if blockno == self.inner.blockvis.0 {
                    let visible = self.inner.blockvis.1;
                    self.internal_next_visible(hit, visible)
                } else {
                    NextAction::CheckVisibility { blockno }
                }
            },
        }
    }

    /// Goes on with the document `hit` once it is known whether all rows of its block are visible.
    pub fn internal_next_visible(&mut self, hit: SearchHit, visible: bool) -> (action: NextAction)
        requires
            hit.tid.is_valid(),
            visible ==> old(self)@.can_fill(),
        ensures
            (final(self)@, action@) == old(self)@.judged(hit, visible),
    {
        let blockno = item_pointer_get_block_number(hit.tid);
        self.inner.blockvis = (blockno, visible);
        if visible {
            let natts: usize = self.inner.slot.tts_values.len();
            self.inner.slot.tts_flags = self.inner.slot.tts_flags & !TTS_FLAG_EMPTY;
            self.inner.slot.tts_flags = self.inner.slot.tts_flags | TTS_FLAG_SHOULDFREE;
            self.inner.slot.tts_nvalid = #[verifier::truncate] (natts as AttrNumber);
            let columns = self.column_requests();
            NextAction::FetchColumns { columns, bm25: hit.bm25, doc_address: hit.doc_address }
        } else {
            NextAction::Return {
                state: ExecState::RequiresVisibilityCheck {
                    ctid: hit.ctid,
                    score: hit.bm25,
                    doc_address: hit.doc_address,
                },
            }
        }
    }

    fn column_requests(&self) -> (columns: Vec<ColumnRequest>)
        requires
            self@.can_fill(),
        ensures
            columns@ == self@.columns(),
    {
        let mut columns: Vec<ColumnRequest> = Vec::new();
        if let Some(tupdesc) = &self.inner.tupdesc {
            let mut i: usize = 0;
            while i < tupdesc.len()
                invariant
                    i <= tupdesc.len(),
                    tupdesc@.len() <= self.inner.which_fast_fields@.len(),
                    self@.tupdesc == Some(tupdesc@),
                    self@.which_fast_fields == self.inner.which_fast_fields@,
                    columns@ == self@.columns().take(i as int),
                decreases tupdesc.len() - i,
            {
                let request = ColumnRequest {
                    field: self.inner.which_fast_fields[i],
                    column: i,
                    atttypid: tupdesc[i],
                };
                columns.push(request);
                assert(self@.columns().take(i + 1) == self@.columns().take(i as int).push(request));
                i += 1;
            }
            assert(self@.columns().take(tupdesc@.len() as int) == self@.columns());
        }
        columns
    }

    /// Puts the columns of the row into the slot; those that are absent are null.
    pub fn internal_next_columns(&mut self, columns: Vec<Option<Datum>>) -> (action: NextAction)
        requires
            old(self)@.can_fill(),
            columns@.len() == old(self)@.tupdesc->0.len(),
        ensures
            final(self)@ == old(self)@.with_columns(columns@),
            forall|c: int|
                0 <= c < columns@.len() ==> match #[trigger] columns@[c] {
                    Some(datum) => final(self)@.slot.tts_values[c] == datum && !final(self)@.slot.tts_isnull[c],
                    None => final(self)@.slot.tts_values[c] == 0 && final(self)@.slot.tts_isnull[c],
                },
            action@ == (NextActionView::Return { state: ExecState::Virtual }),
    {
        let ghost before = self@;
        let mut i: usize = 0;
        proof {
            let begun = before.with_columns(columns@.take(0));
            assert(begun.slot.tts_values == before.slot.tts_values);
            assert(begun.slot.tts_isnull == before.slot.tts_isnull);
        }
        while i < columns.len()
            invariant
                i <= columns.len(),
                columns@.len() <= before.slot.tts_values.len(),
                before.slot.tts_isnull.len() == before.slot.tts_values.len(),
                self@ == before.with_columns(columns@.take(i as int)),
            decreases columns.len() - i,
        {
            match columns[i] {
                None => {
                    self.inner.slot.tts_values[i] = NULL_DATUM;
                    self.inner.slot.tts_isnull[i] = true;
                },
                Some(datum) => {
                    self.inner.slot.tts_values[i] = datum;
                    self.inner.slot.tts_isnull[i] = false;
                },
            }
            proof {
                let after = before.with_columns(columns@.take(i + 1));
                assert(self@.slot.tts_values == after.slot.tts_values);
                assert(self@.slot.tts_isnull == after.slot.tts_isnull);
            }
            i += 1;
        }
        assert(columns@.take(columns@.len() as int) == columns@);
        NextAction::Return { state: ExecState::Virtual }
    }

    /// The slot with the row that was returned last.
    pub fn slot(&self) -> (slot: &TupleTableSlot)
        ensures
            slot@ == self@.slot,
            slot.tts_flags == self@.slot.tts_flags,
            slot.tts_nvalid == self@.slot.tts_nvalid,
            slot.tts_tid == self@.slot.tts_tid,
            slot.tts_table_oid == self@.slot.tts_table_oid,
            slot.tts_values@ == self@.slot.tts_values,
            slot.tts_isnull@ == self@.slot.tts_isnull,
    {
        &self.inner.slot
    }

    /// Lets the scan start over.
    pub fn reset(&mut self)
        ensures
            final(self)@ == old(self)@.reset(),
    {
        self.inner.reset();
        self.search_results = None;
    }
}

} // verus!
