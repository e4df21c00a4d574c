use pg_search_scan::item_pointer::ItemPointerData;
use pg_search_scan::scan::{
    ambeginscan, amcanreturn, amendscan, amgetbitmap, amgetbitmap_claimed, amgetbitmap_hit,
    amgettuple, amgettuple_claimed, amgettuple_hit, amgettuple_key, amrescan, amrescan_opened,
    is_parallel_worker, rescan_needs, search_next_segment, BitmapAction, BitmapScan, IndexScanDesc,
    KeyField, MvccSatisfies, ReaderRequest, RescanNeeds, ScanAction, TupleStore,
};
use pg_search_scan::search::{ScanKey, SearchHit, SearchQueryInput, SearchRequest};
use tantivy::index::SegmentId;
use tantivy::DocAddress;

fn segment(n: u32) -> SegmentId {
    SegmentId::from_uuid_string(&format!("{:032x}", n)).unwrap()
}

fn hit(n: u16) -> SearchHit {
    SearchHit {
        ctid: n as u64,
        tid: ItemPointerData { bi_hi: 0, bi_lo: n, ip_posid: 1 },
        bm25: 0,
        doc_address: DocAddress::new(0, n as u32),
    }
}

fn fresh(xs_want_itup: bool, parallel_scan: bool) -> IndexScanDesc {
    let blank = IndexScanDesc {
        xs_want_itup,
        xs_recheck: true,
        xs_heaptid: ItemPointerData { bi_hi: 9, bi_lo: 9, ip_posid: 9 },
        xs_hitup: false,
        xs_hitupdesc: vec![],
        parallel_scan,
        opaque: None,
    };
    ambeginscan(blank, vec![20, 25])
}

fn text(query: &str) -> ScanKey {
    ScanKey::TextQuery { text: Some(query.to_string()) }
}

fn stored(number: usize) -> ScanKey {
    ScanKey::SearchQueryInput { query: Some(SearchQueryInput::Stored { number }) }
}

fn request() -> ReaderRequest {
    ReaderRequest {
        query: SearchQueryInput::Stored { number: 0 },
        need_scores: false,
        mvcc: MvccSatisfies::Snapshot,
    }
}

fn key_field() -> Option<KeyField> {
    Some(KeyField { name: "id".to_string(), field_type: 4 })
}

fn opened(xs_want_itup: bool, parallel_scan: bool, claimed: Option<SegmentId>) -> IndexScanDesc {
    let mut scan = fresh(xs_want_itup, parallel_scan);
    let key_field = if xs_want_itup { key_field() } else { None };
    amrescan_opened(&mut scan, request(), claimed, key_field);
    scan
}

/// Runs a scan to its end as the server would, and returns the places of its rows.
fn rows(scan: &mut IndexScanDesc, first: &[u16], segments: &[&[u16]]) -> Vec<u16> {
    let mut current: Vec<u16> = first.to_vec();
    let mut next_segment = 0;
    let mut found_rows = vec![];
    loop {
        let mut action = amgettuple(scan);
        let found = loop {
            action = match action {
                ScanAction::FetchHit | ScanAction::SearchSegment { .. } => {
                    let next = if current.is_empty() { None } else { Some(hit(current.remove(0))) };
                    amgettuple_hit(scan, next)
                }
                ScanAction::FetchKey { doc_address, .. } => {
                    amgettuple_key(scan, Some(doc_address.doc_id as u64 + 1000))
                }
                ScanAction::ClaimSegment => {
                    if next_segment < segments.len() {
                        current = segments[next_segment].to_vec();
                        next_segment += 1;
                        amgettuple_claimed(scan, Some(segment(next_segment as u32)))
                    } else {
                        amgettuple_claimed(scan, None)
                    }
                }
                ScanAction::Return { found, .. } => break found,
            };
        };
        if !found {
            return found_rows;
        }
        assert!(!scan.xs_recheck);
        if scan.xs_want_itup {
            let state = scan.opaque.as_ref().unwrap();
            assert_eq!(state.itup.0[0], scan.xs_heaptid.bi_lo as u64 + 1000);
            assert!(!state.itup.1[0]);
        }
        found_rows.push(scan.xs_heaptid.bi_lo);
    }
}

/// Gathers a scan into a bitmap as the server would.
fn bitmap(scan: &mut IndexScanDesc, first: &[u16], segments: &[&[u16]]) -> (Vec<u16>, i64) {
    let mut current: Vec<u16> = first.to_vec();
    let mut next_segment = 0;
    let mut added = vec![];
    let (mut progress, mut action) = amgetbitmap(scan);
    loop {
        if let BitmapAction::AddTuple { tid, recheck } = action {
            assert!(!recheck);
            added.push(tid.bi_lo);
        }
        action = match action {
            BitmapAction::FetchHit
            | BitmapAction::SearchSegment { .. }
            | BitmapAction::AddTuple { .. } => {
                let next = if current.is_empty() { None } else { Some(hit(current.remove(0))) };
                amgetbitmap_hit(&mut progress, next)
            }
            BitmapAction::ClaimSegment => {
                if next_segment < segments.len() {
                    current = segments[next_segment].to_vec();
                    next_segment += 1;
                    amgetbitmap_claimed(&progress, scan, Some(segment(next_segment as u32)))
                } else {
                    amgetbitmap_claimed(&progress, scan, None)
                }
            }
            BitmapAction::Return { count } => return (added, count),
        };
    }
}

#[test]
fn a_new_scan_has_the_columns_of_the_index() {
    let scan = fresh(true, false);
    assert_eq!(scan.xs_hitupdesc, vec![20, 25]);
    assert!(scan.xs_want_itup && scan.xs_recheck && !scan.xs_hitup && !scan.parallel_scan);
    assert_eq!(scan.xs_heaptid, ItemPointerData { bi_hi: 9, bi_lo: 9, ip_posid: 9 });
    assert!(scan.opaque.is_none());
}

#[test]
fn one_text_key_is_a_query_to_parse() {
    let scan = fresh(false, false);
    let request = amrescan(&scan, vec![text("shoes")], -1, None);
    match request.query {
        SearchQueryInput::Parse { query_string, lenient, conjunction_mode } => {
            assert_eq!(query_string, "shoes");
            assert_eq!(lenient, None);
            assert_eq!(conjunction_mode, None);
        }
        _ => panic!("not a query to parse"),
    }
    assert!(!request.need_scores);
    assert!(matches!(request.mvcc, MvccSatisfies::Snapshot));
}

#[test]
fn several_keys_all_have_to_match() {
    let scan = fresh(false, false);
    let request = amrescan(&scan, vec![stored(1), text("two"), stored(3)], -1, None);
    match request.query {
        SearchQueryInput::Boolean { must, should, must_not } => {
            assert!(should.is_empty() && must_not.is_empty());
            assert_eq!(must.len(), 2);
            assert!(matches!(must[1], SearchQueryInput::Stored { number: 3 }));
            match &must[0] {
                SearchQueryInput::Boolean { must, should, must_not } => {
                    assert!(should.is_empty() && must_not.is_empty());
                    assert_eq!(must.len(), 2);
                    assert!(matches!(must[0], SearchQueryInput::Stored { number: 1 }));
                    match &must[1] {
                        SearchQueryInput::Parse { query_string, .. } => {
                            assert_eq!(query_string, "two")
                        }
                        _ => panic!("the second key is not a query to parse"),
                    }
                }
                _ => panic!("the first two keys are not joined"),
            }
        }
        _ => panic!("the keys are not joined"),
    }
}

#[test]
fn only_a_worker_of_a_shared_scan_reads_the_leaders_segments() {
    assert!(!is_parallel_worker(&fresh(false, false), -1));
    assert!(!is_parallel_worker(&fresh(false, false), 0));
    assert!(!is_parallel_worker(&fresh(false, true), -1));
    assert!(is_parallel_worker(&fresh(false, true), 0));
    let ids = vec![segment(1), segment(2)];
    let request = amrescan(&fresh(false, true), vec![stored(0)], 3, Some(ids.clone()));
    match request.mvcc {
        MvccSatisfies::ParallelWorker { segment_ids } => assert_eq!(segment_ids, ids),
        MvccSatisfies::Snapshot => panic!("a worker reads by its snapshot"),
    }
    let request = amrescan(&fresh(false, true), vec![stored(0)], -1, Some(ids));
    assert!(matches!(request.mvcc, MvccSatisfies::Snapshot));
}

#[test]
fn a_scan_of_its_own_searches_everything() {
    let scan = opened(false, false, None);
    let state = scan.opaque.unwrap();
    assert_eq!(state.results, Some(SearchRequest::All { limit: None }));
    assert!(state.fast_fields.is_empty());
    assert!(state.itup.0.is_empty() && state.itup.1.is_empty());
    assert_eq!(state.key_field_oid, 0);
    let scan = opened(false, false, Some(segment(4)));
    assert_eq!(scan.opaque.unwrap().results, Some(SearchRequest::All { limit: None }));
}

#[test]
fn a_shared_scan_searches_the_segment_it_claimed() {
    let scan = opened(false, true, Some(segment(4)));
    assert_eq!(
        scan.opaque.unwrap().results,
        Some(SearchRequest::Segment { segment_id: segment(4) })
    );
    assert_eq!(opened(false, true, None).opaque.unwrap().results, None);
}

#[test]
fn an_index_only_scan_reads_the_key() {
    let scan = opened(true, false, None);
    let state = scan.opaque.unwrap();
    assert_eq!(state.fast_fields.len(), 1);
    assert_eq!(state.fast_fields[0].name, "id");
    assert_eq!(state.fast_fields[0].field_type, 4);
    assert_eq!(state.itup, (vec![0, 0], vec![true, true]));
    assert_eq!(state.key_field_oid, 20);
}

#[test]
fn rows_come_in_order_and_once() {
    let mut scan = opened(false, false, None);
    assert_eq!(rows(&mut scan, &[5, 3, 8], &[]), vec![5, 3, 8]);
    let mut scan = opened(false, true, Some(segment(9)));
    assert_eq!(rows(&mut scan, &[1], &[&[], &[2, 3], &[], &[4]]), vec![1, 2, 3, 4]);
    let mut scan = opened(false, true, None);
    assert_eq!(rows(&mut scan, &[], &[&[7]]), vec![7]);
    assert_eq!(rows(&mut scan, &[], &[]), Vec::<u16>::new());
}

#[test]
fn index_only_rows_come_with_their_keys() {
    let mut scan = opened(true, true, Some(segment(9)));
    assert_eq!(rows(&mut scan, &[1, 2], &[&[3]]), vec![1, 2, 3]);
    assert!(scan.xs_hitup);
}

#[test]
fn a_bitmap_holds_the_same_rows() {
    let mut scan = opened(false, false, None);
    assert_eq!(bitmap(&mut scan, &[5, 3, 8], &[]), (vec![5, 3, 8], 3));
    let mut scan = opened(false, true, Some(segment(9)));
    assert_eq!(bitmap(&mut scan, &[1], &[&[], &[2, 3], &[], &[4]]), (vec![1, 2, 3, 4], 4));
    let mut scan = opened(false, true, None);
    assert_eq!(bitmap(&mut scan, &[], &[]), (vec![], 0));
}

#[test]
fn a_bitmap_leaves_nothing_for_a_second_one() {
    let mut scan = opened(false, true, Some(segment(9)));
    assert_eq!(bitmap(&mut scan, &[1, 2], &[&[3]]), (vec![1, 2, 3], 3));
    assert_eq!(bitmap(&mut scan, &[], &[]), (vec![], 0));
    assert!(rows(&mut scan, &[], &[]).is_empty());
}

#[test]
fn a_bitmap_needs_no_key_field() {
    let mut scan = opened(false, false, None);
    scan.xs_want_itup = true;
    assert_eq!(bitmap(&mut scan, &[5, 3], &[]), (vec![5, 3], 2));
}

#[test]
fn a_scan_at_its_end_stays_there() {
    let mut scan = opened(true, false, None);
    assert_eq!(rows(&mut scan, &[4, 2], &[]), vec![4, 2]);
    for _ in 0..3 {
        assert_eq!(amgettuple(&mut scan), ScanAction::FetchHit);
        assert_eq!(amgettuple_hit(&mut scan, None), ScanAction::ClaimSegment);
        assert_eq!(
            amgettuple_claimed(&mut scan, None),
            ScanAction::Return { found: false, store: TupleStore::Nothing }
        );
    }
    assert!(scan.xs_hitup);
}

#[test]
fn only_a_shared_scan_claims_a_segment_when_it_starts() {
    for (xs_want_itup, parallel_scan) in
        [(false, false), (false, true), (true, false), (true, true)]
    {
        assert_eq!(
            rescan_needs(&fresh(xs_want_itup, parallel_scan)),
            RescanNeeds { claimed: parallel_scan, key_field: xs_want_itup }
        );
    }
}

#[test]
fn a_row_is_formed_once_and_refilled_later() {
    let mut scan = opened(true, false, None);
    assert_eq!(amgettuple(&mut scan), ScanAction::FetchHit);
    assert_eq!(
        amgettuple_hit(&mut scan, Some(hit(6))),
        ScanAction::FetchKey { doc_address: DocAddress::new(0, 6), key_field_oid: 20 }
    );
    assert_eq!(
        amgettuple_key(&mut scan, Some(42)),
        ScanAction::Return { found: true, store: TupleStore::Form }
    );
    assert_eq!(scan.opaque.as_ref().unwrap().itup, (vec![42, 0], vec![false, true]));
    amgettuple(&mut scan);
    amgettuple_hit(&mut scan, Some(hit(7)));
    assert_eq!(
        amgettuple_key(&mut scan, None),
        ScanAction::Return { found: true, store: TupleStore::Refill }
    );
    assert_eq!(scan.opaque.as_ref().unwrap().itup, (vec![0, 0], vec![true, true]));
    amrescan_opened(&mut scan, request(), None, key_field());
    assert!(scan.xs_hitup);
}

#[test]
fn a_row_from_the_table_needs_no_key() {
    let mut scan = opened(false, false, None);
    amgettuple(&mut scan);
    assert_eq!(
        amgettuple_hit(&mut scan, Some(hit(6))),
        ScanAction::Return { found: true, store: TupleStore::Nothing }
    );
    assert_eq!(scan.xs_heaptid, hit(6).tid);
    assert!(!scan.xs_hitup && !scan.xs_recheck);
    assert_eq!(amgettuple_hit(&mut scan, None), ScanAction::ClaimSegment);
    assert_eq!(
        amgettuple_claimed(&mut scan, None),
        ScanAction::Return { found: false, store: TupleStore::Nothing }
    );
}

#[test]
fn a_claimed_segment_takes_the_place_of_the_results() {
    let mut scan = opened(false, true, None);
    let mut state = scan.opaque.take().unwrap();
    assert!(!search_next_segment(&mut state, None));
    assert_eq!(state.results, None);
    assert!(search_next_segment(&mut state, Some(segment(3))));
    assert_eq!(state.results, Some(SearchRequest::Segment { segment_id: segment(3) }));
}

#[test]
fn the_bitmap_count_goes_up_by_one() {
    let mut progress = BitmapScan { count: 41 };
    assert_eq!(
        amgetbitmap_hit(&mut progress, Some(hit(2))),
        BitmapAction::AddTuple { tid: hit(2).tid, recheck: false }
    );
    assert_eq!(progress.count, 42);
    assert_eq!(amgetbitmap_hit(&mut progress, None), BitmapAction::ClaimSegment);
    assert_eq!(progress.count, 42);
}

#[test]
fn an_ended_scan_keeps_nothing() {
    let mut scan = opened(false, false, None);
    amendscan(&mut scan);
    assert!(scan.opaque.is_none());
    amendscan(&mut scan);
    assert!(scan.opaque.is_none());
    assert_eq!(scan.xs_hitupdesc, vec![20, 25]);
}

#[test]
fn only_the_key_can_be_returned() {
    for typid in [23, 20, 700, 701, 16, 2950] {
        assert!(amcanreturn(&vec![typid, 23], 1));
    }
    for typid in [0, 21, 25, 1043, 1700, 1184] {
        assert!(!amcanreturn(&vec![typid, 23], 1));
    }
    assert!(!amcanreturn(&vec![23, 23], 2));
    assert!(!amcanreturn(&vec![23, 23], 0));
    assert!(!amcanreturn(&vec![], -1));
}
