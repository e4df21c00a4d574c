use pg_search_scan::item_pointer::{item_pointer_get_block_number, ItemPointerData};
use pg_search_scan::numeric::{
    ColumnRequest, ExecState, NextAction, NumericFastFieldExecState, QuerySource, TupleTableSlot,
    WhichFastField, TTS_FLAG_EMPTY, TTS_FLAG_SHOULDFREE,
};
use pg_search_scan::search::{SearchHit, SearchRequest};
use tantivy::index::SegmentId;
use tantivy::DocAddress;

fn segment(n: u32) -> SegmentId {
    SegmentId::from_uuid_string(&format!("{:032x}", n)).unwrap()
}

fn hit(block: u32, line: u16) -> SearchHit {
    SearchHit {
        ctid: ((block as u64) << 16) | line as u64,
        tid: ItemPointerData {
            bi_hi: (block >> 16) as u16,
            bi_lo: (block & 0xffff) as u16,
            ip_posid: line,
        },
        bm25: 1.5f32.to_bits(),
        doc_address: DocAddress::new(2, block),
    }
}

fn slot(natts: usize) -> TupleTableSlot {
    TupleTableSlot {
        tts_flags: TTS_FLAG_EMPTY | 16,
        tts_nvalid: 0,
        tts_tid: ItemPointerData { bi_hi: 0, bi_lo: 0, ip_posid: 0 },
        tts_table_oid: 0,
        tts_values: vec![99; natts],
        tts_isnull: vec![false; natts],
    }
}

fn begun() -> NumericFastFieldExecState {
    let fields = vec![WhichFastField { number: 7 }, WhichFastField { number: 8 }];
    let mut state = NumericFastFieldExecState::new(fields);
    state.init(4242, vec![20, 23], slot(3));
    assert!(state.query(QuerySource::Serial { limit: None }));
    state
}

fn returned(action: NextAction) -> ExecState {
    match action {
        NextAction::Return { state } => state,
        _ => panic!("more is to be done"),
    }
}

fn asks_about(action: &NextAction) -> Option<u32> {
    match action {
        NextAction::CheckVisibility { blockno } => Some(*blockno),
        _ => None,
    }
}

fn fetches_columns(action: &NextAction) -> bool {
    matches!(action, NextAction::FetchColumns { .. })
}

#[test]
fn a_new_scan_has_no_rows() {
    let state = NumericFastFieldExecState::new(vec![]);
    assert_eq!(state.search_request(), None);
    assert_eq!(returned(state.internal_next()), ExecState::Eof);
    assert!(state.slot().tts_values.is_empty());
}

#[test]
fn a_scan_of_its_own_searches_once() {
    let mut state = NumericFastFieldExecState::new(vec![]);
    assert!(state.query(QuerySource::Serial { limit: Some(10) }));
    assert_eq!(state.search_request(), Some(SearchRequest::All { limit: Some(10) }));
    assert!(!state.query(QuerySource::Serial { limit: Some(20) }));
    assert_eq!(state.search_request(), Some(SearchRequest::All { limit: Some(10) }));
    assert!(matches!(state.internal_next(), NextAction::FetchHit));
}

#[test]
fn a_scan_that_starts_over_searches_again() {
    let mut state = begun();
    state.reset();
    assert_eq!(state.search_request(), None);
    assert_eq!(returned(state.internal_next()), ExecState::Eof);
    assert!(state.query(QuerySource::Serial { limit: None }));
    assert_eq!(state.search_request(), Some(SearchRequest::All { limit: None }));
}

#[test]
fn a_shared_scan_searches_segment_by_segment() {
    let mut state = NumericFastFieldExecState::new(vec![]);
    for n in 1..4 {
        assert!(state.query(QuerySource::Parallel { claimed: Some(segment(n)) }));
        assert_eq!(
            state.search_request(),
            Some(SearchRequest::Segment { segment_id: segment(n) })
        );
    }
    assert!(!state.query(QuerySource::Parallel { claimed: None }));
    assert_eq!(state.search_request(), None);
    assert_eq!(returned(state.internal_next()), ExecState::Eof);
    assert!(state.query(QuerySource::Serial { limit: None }));
}

#[test]
fn results_at_their_end_are_the_end() {
    let mut state = begun();
    assert_eq!(returned(state.internal_next_hit(None)), ExecState::Eof);
}

#[test]
fn a_row_of_a_visible_block_is_put_into_the_slot() {
    let mut state = begun();
    let found = hit(0x0001_0002, 5);
    assert_eq!(asks_about(&state.internal_next_hit(Some(found))), Some(0x0001_0002));
    match state.internal_next_visible(found, true) {
        NextAction::FetchColumns { columns, bm25, doc_address } => {
            assert_eq!(
                columns,
                vec![
                    ColumnRequest { field: WhichFastField { number: 7 }, column: 0, atttypid: 20 },
                    ColumnRequest { field: WhichFastField { number: 8 }, column: 1, atttypid: 23 },
                ]
            );
            assert_eq!(bm25, 1.5f32.to_bits());
            assert_eq!(doc_address, found.doc_address);
        }
        _ => panic!("the columns are not read"),
    }
    assert_eq!(
        returned(state.internal_next_columns(vec![Some(31), None])),
        ExecState::Virtual
    );
    let slot = state.slot();
    assert_eq!(slot.tts_values, vec![31, 0, 99]);
    assert_eq!(slot.tts_isnull, vec![false, true, false]);
    assert_eq!(slot.tts_tid, found.tid);
    assert_eq!(slot.tts_table_oid, 4242);
    assert_eq!(slot.tts_nvalid, 3);
    assert_eq!(slot.tts_flags, TTS_FLAG_SHOULDFREE | 16);
}

#[test]
fn a_null_column_becomes_a_value_again() {
    let mut state = begun();
    state.internal_next_hit(Some(hit(1, 1)));
    state.internal_next_visible(hit(1, 1), true);
    state.internal_next_columns(vec![None, Some(2)]);
    assert!(fetches_columns(&state.internal_next_hit(Some(hit(1, 2)))));
    state.internal_next_columns(vec![Some(3), None]);
    assert_eq!(state.slot().tts_values, vec![3, 0, 99]);
    assert_eq!(state.slot().tts_isnull, vec![false, true, false]);
    assert_eq!(state.slot().tts_tid, hit(1, 2).tid);
}

#[test]
fn a_row_of_a_block_with_hidden_rows_has_to_be_looked_at() {
    let mut state = begun();
    let found = hit(3, 4);
    state.internal_next_hit(Some(found));
    assert_eq!(
        returned(state.internal_next_visible(found, false)),
        ExecState::RequiresVisibilityCheck {
            ctid: (3 << 16) | 4,
            score: 1.5f32.to_bits(),
            doc_address: found.doc_address,
        }
    );
    assert_eq!(state.slot().tts_flags, TTS_FLAG_EMPTY | 16);
    assert_eq!(state.slot().tts_nvalid, 0);
    assert_eq!(state.slot().tts_tid, found.tid);
    assert_eq!(state.slot().tts_table_oid, 4242);
}

#[test]
fn a_block_is_asked_about_once_in_a_row() {
    let mut state = begun();
    assert_eq!(asks_about(&state.internal_next_hit(Some(hit(3, 1)))), Some(3));
    assert!(fetches_columns(&state.internal_next_visible(hit(3, 1), true)));
    assert!(fetches_columns(&state.internal_next_hit(Some(hit(3, 2)))));
    assert_eq!(asks_about(&state.internal_next_hit(Some(hit(4, 1)))), Some(4));
    returned(state.internal_next_visible(hit(4, 1), false));
    assert!(matches!(
        returned(state.internal_next_hit(Some(hit(4, 2)))),
        ExecState::RequiresVisibilityCheck { .. }
    ));
    assert_eq!(asks_about(&state.internal_next_hit(Some(hit(3, 3)))), Some(3));
}

#[test]
fn a_scan_that_starts_over_asks_again() {
    let mut state = begun();
    state.internal_next_hit(Some(hit(3, 1)));
    state.internal_next_visible(hit(3, 1), true);
    state.reset();
    assert_eq!(asks_about(&state.internal_next_hit(Some(hit(3, 1)))), Some(3));
}

#[test]
fn a_block_number_has_two_halves() {
    let tid = |bi_hi, bi_lo| ItemPointerData { bi_hi, bi_lo, ip_posid: 1 };
    assert_eq!(item_pointer_get_block_number(tid(0, 0)), 0);
    assert_eq!(item_pointer_get_block_number(tid(0, 0xffff)), 0xffff);
    assert_eq!(item_pointer_get_block_number(tid(1, 0)), 0x1_0000);
    assert_eq!(item_pointer_get_block_number(tid(0x1234, 0x5678)), 0x1234_5678);
    assert_eq!(item_pointer_get_block_number(tid(0xffff, 0xffff)), u32::MAX);
}

#[test]
fn rows_in_between_do_not_let_a_scan_search_again() {
    let mut state = begun();
    state.internal_next_hit(Some(hit(1, 1)));
    state.internal_next_visible(hit(1, 1), true);
    state.internal_next_columns(vec![None, Some(2)]);
    state.internal_next_hit(Some(hit(2, 1)));
    state.internal_next_visible(hit(2, 1), false);
    returned(state.internal_next_hit(None));
    for _ in 0..3 {
        assert!(!state.query(QuerySource::Serial { limit: Some(1) }));
        assert_eq!(state.search_request(), Some(SearchRequest::All { limit: None }));
    }
}

#[test]
fn only_the_block_seen_visible_last_is_known_to_be() {
    let mut state = begun();
    assert!(!state.knows_visible(hit(3, 1).tid));
    state.internal_next_hit(Some(hit(3, 1)));
    assert!(!state.knows_visible(hit(3, 1).tid));
    state.internal_next_visible(hit(3, 1), true);
    assert!(state.knows_visible(hit(3, 9).tid));
    assert!(!state.knows_visible(hit(4, 1).tid));
    state.internal_next_hit(Some(hit(4, 1)));
    state.internal_next_visible(hit(4, 1), false);
    assert!(!state.knows_visible(hit(3, 1).tid));
    assert!(!state.knows_visible(hit(4, 1).tid));
}

#[test]
fn a_row_needs_room_and_fields() {
    let fields = |n: usize| vec![WhichFastField { number: 0 }; n];
    let mut state = NumericFastFieldExecState::new(fields(2));
    assert!(!state.can_fill());
    state.init(1, vec![20, 23], slot(2));
    assert!(state.can_fill());
    state.init(1, vec![20, 23], slot(1));
    assert!(!state.can_fill());
    state.init(1, vec![20, 23, 23], slot(3));
    assert!(!state.can_fill());
    let mut uneven = slot(2);
    uneven.tts_isnull.pop();
    state.init(1, vec![20, 23], uneven);
    assert!(!state.can_fill());
}

/// Makes one request for a row, as the executor would, of the documents in `left`, each with whether
/// all rows of its block are visible.
fn next(state: &mut NumericFastFieldExecState, left: &mut Vec<(SearchHit, bool)>) -> ExecState {
    let mut current = None;
    let mut action = state.internal_next();
    loop {
        action = match action {
            NextAction::FetchHit => {
                current = if left.is_empty() { None } else { Some(left.remove(0)) };
                state.internal_next_hit(current.map(|(found, _)| found))
            }
            NextAction::CheckVisibility { .. } => {
                let (found, visible) = current.unwrap();
                state.internal_next_visible(found, visible)
            }
            NextAction::FetchColumns { doc_address, .. } => {
                state.internal_next_columns(vec![Some(doc_address.doc_id as u64), None])
            }
            NextAction::Return { state } => return state,
        };
    }
}

#[test]
fn every_document_comes_once_and_in_order() {
    let mut state = begun();
    let found = [(hit(3, 1), true), (hit(4, 1), false), (hit(4, 2), false), (hit(3, 2), true)];
    let mut left = found.to_vec();
    for (n, (document, visible)) in found.into_iter().enumerate() {
        let expected = if visible {
            ExecState::Virtual
        } else {
            ExecState::RequiresVisibilityCheck {
                ctid: document.ctid,
                score: document.bm25,
                doc_address: document.doc_address,
            }
        };
        assert_eq!(next(&mut state, &mut left), expected);
        assert_eq!(left.len(), 3 - n);
        assert_eq!(state.slot().tts_tid, document.tid);
        if visible {
            assert_eq!(state.slot().tts_values, vec![3, 0, 99]);
        }
    }
    for _ in 0..3 {
        assert_eq!(next(&mut state, &mut left), ExecState::Eof);
        assert_eq!(state.slot().tts_tid, hit(3, 2).tid);
        assert_eq!(state.slot().tts_values, vec![3, 0, 99]);
    }
}
