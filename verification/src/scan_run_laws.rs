//! What the server gets of a scan of the index, from what the index holds.
#![allow(unused_imports)]

use crate::catalog::{Datum, Oid};
use crate::item_pointer::ItemPointerData;
use crate::scan::{
    bitmap_start, BitmapAction, BitmapScan, KeyFieldView, ReaderView, ScanAction, ScanStateView,
    ScanView, TupleStore,
};
use crate::scan_laws::{bitmap_rank, rank};
use crate::search::{SearchHit, SearchRequest};
use tantivy::index::SegmentId;
use tantivy::DocAddress;
use vstd::prelude::*;

verus! {

/// What an open reader of the index finds.
pub ghost struct Index {
    /// The documents found in all segments, in order.
    pub everywhere: Seq<SearchHit>,
    /// The documents found in one segment, in order.
    pub in_segment: spec_fn(SegmentId) -> Seq<SearchHit>,
    /// The key of a document as a value of a type, absent where it is null.
    pub key: spec_fn(DocAddress, Oid) -> Option<Datum>,
}

impl Index {
    /// The documents that a search gives, one by one.
    pub open spec fn found(self, request: SearchRequest) -> Seq<SearchHit> {
        match request {
            SearchRequest::All { limit: None } => self.everywhere,
            SearchRequest::All { limit: Some(limit) } => if limit < self.everywhere.len() {
                self.everywhere.take(limit as int)
            } else {
                self.everywhere
            },
            SearchRequest::Segment { segment_id } => (self.in_segment)(segment_id),
        }
    }

    /// The documents found in the segments `claims`, segment by segment.
    pub open spec fn in_segments(self, claims: Seq<SegmentId>) -> Seq<SearchHit>
        decreases claims.len(),
    {
        if claims.len() == 0 {
            Seq::empty()
        } else {
            (self.in_segment)(claims[0]) + self.in_segments(claims.drop_first())
        }
    }
}

/// A scan in the middle of its run: what is left of the results of its last search, and the segments
/// that it will yet get to claim.
pub ghost struct Run {
    pub scan: ScanView,
    pub results: Seq<SearchHit>,
    pub claims: Seq<SegmentId>,
}

impl Run {
    /// The documents that the scan has yet to return.
    pub open spec fn left(self, index: Index) -> Seq<SearchHit> {
        self.results + index.in_segments(self.claims)
    }

    /// The next of the results.
    pub open spec fn next(self) -> Option<SearchHit> {
        if self.results.len() > 0 {
            Some(self.results[0])
        } else {
            None
        }
    }

    /// The results without the next.
    pub open spec fn rest(self) -> Seq<SearchHit> {
        if self.results.len() > 0 {
            self.results.drop_first()
        } else {
            self.results
        }
    }

    /// The next segment that the scan gets to claim.
    pub open spec fn claim(self) -> Option<SegmentId> {
        if self.claims.len() > 0 {
            Some(self.claims[0])
        } else {
            None
        }
    }

    /// The segments to claim without the next.
    pub open spec fn later_claims(self) -> Seq<SegmentId> {
        if self.claims.len() > 0 {
            self.claims.drop_first()
        } else {
            self.claims
        }
    }
}

/// The run of a scan that was just opened, over what its first search finds.
pub open spec fn begin(index: Index, scan: ScanView, claims: Seq<SegmentId>) -> Run {
    Run {
        scan,
        results: match scan.opaque->0.results {
            Some(request) => index.found(request),
            None => Seq::empty(),
        },
        claims,
    }
}

/// The answer to a request for a row, and the run as it is then.
pub ghost struct Answer {
    pub found: bool,
    pub store: TupleStore,
    pub run: Run,
}

/// Does what `action` says, and what the steps after it say, until there is an answer. A segment
/// is searched by the name that the action gives, and a key is read of the document and as the type
/// that the action gives.
pub open spec fn perform(index: Index, run: Run, action: ScanAction) -> Answer
    decreases run.claims.len(), rank(action),
{
    match action {
        ScanAction::FetchHit => {
            let (scan, next) = run.scan.next_hit(run.next());
            perform(index, Run { scan, results: run.rest(), ..run }, next)
        },
        ScanAction::SearchSegment { segment_id } => {
            let begun = Run { results: (index.in_segment)(segment_id), ..run };
            let (scan, next) = begun.scan.next_hit(begun.next());
            perform(index, Run { scan, results: begun.rest(), ..begun }, next)
        },
        ScanAction::FetchKey { doc_address, key_field_oid } => {
            let (scan, next) = run.scan.next_key((index.key)(doc_address, key_field_oid));
            perform(index, Run { scan, ..run }, next)
        },
        ScanAction::ClaimSegment => {
            let (scan, next) = run.scan.next_claim(run.claim());
            perform(index, Run { scan, claims: run.later_claims(), ..run }, next)
        },
        ScanAction::Return { found, store } => Answer { found, store, run },
    }
}

/// One request for a row.
pub open spec fn request(index: Index, run: Run) -> Answer {
    let (scan, action) = run.scan.next_row();
    perform(index, Run { scan, ..run }, action)
}

/// The answers to `n` requests for a row.
pub open spec fn requests(index: Index, run: Run, n: nat) -> Seq<Answer>
    decreases n,
{
    if n == 0 {
        Seq::empty()
    } else {
        let first = request(index, run);
        seq![first] + requests(index, first.run, (n - 1) as nat)
    }
}

/// The run is in order: the scan has begun, only a search has results, and with rows from the index
/// there is a field to read and a row, of which all columns but the first are null, and the key is
/// of the type `key_oid`.
pub open spec fn in_order(run: Run, key_oid: Oid) -> bool {
    let state = run.scan.opaque->0;
    &&& run.scan.opaque is Some
    &&& state.results is None ==> run.results.len() == 0
    &&& run.scan.xs_want_itup ==> {
        &&& state.key_field_oid == key_oid
        &&& state.fast_fields.len() > 0
        &&& state.values.len() > 0
        &&& state.nulls.len() == state.values.len()
        &&& forall|c: int| 1 <= c < state.values.len() ==> #[trigger] state.values[c] == 0
        &&& forall|c: int| 1 <= c < state.nulls.len() ==> #[trigger] state.nulls[c]
    }
}

/// The scan answers with the document `hit`: with its place, for certain, and with rows from the
/// index with its key in the first column and nulls in the others.
pub open spec fn shows(index: Index, scan: ScanView, hit: SearchHit, key_oid: Oid) -> bool {
    let state = scan.opaque->0;
    &&& scan.xs_heaptid == hit.tid
    &&& !scan.xs_recheck
    &&& scan.xs_want_itup ==> {
        &&& (index.key)(hit.doc_address, key_oid) matches Some(datum) ==> state.values[0] == datum
            && !state.nulls[0]
        &&& (index.key)(hit.doc_address, key_oid) is None ==> state.values[0] == 0
            && state.nulls[0]
        &&& forall|c: int| 1 <= c < state.values.len() ==> #[trigger] state.values[c] == 0
        &&& forall|c: int| 1 <= c < state.nulls.len() ==> #[trigger] state.nulls[c]
    }
}

/// What becomes of the memory of a row that is returned from the index: formed for the first
/// document found, written over for all later ones.
pub open spec fn memory(want: bool, formed: bool, found: bool) -> TupleStore {
    if !want || !found {
        TupleStore::Nothing
    } else if formed {
        TupleStore::Refill
    } else {
        TupleStore::Form
    }
}

proof fn lemma_perform(index: Index, run: Run, action: ScanAction, key_oid: Oid)
    requires
        run.scan.opaque is Some,
        !run.scan.xs_recheck,
        action is FetchHit || action is SearchSegment || action is ClaimSegment,
        action is FetchHit ==> in_order(run, key_oid) && run.scan.opaque->0.results is Some,
        action is ClaimSegment ==> in_order(run, key_oid) && run.results.len() == 0,
        action is SearchSegment ==> run.scan.opaque->0.results is Some && run.results.len() == 0
            && in_order(run, key_oid),
    ensures
        ({
            let answer = perform(index, run, action);
            let left = match action {
                ScanAction::SearchSegment { segment_id } => (index.in_segment)(segment_id)
                    + index.in_segments(run.claims),
                _ => run.left(index),
            };
            let after = answer.run.scan;
            &&& in_order(answer.run, key_oid)
            &&& answer.found == (left.len() > 0)
            &&& answer.found ==> shows(index, after, left[0], key_oid) && answer.run.left(index)
                == left.drop_first()
            &&& !answer.found ==> answer.run.left(index).len() == 0
            &&& !after.xs_recheck
            &&& after.xs_want_itup == run.scan.xs_want_itup
            &&& after.xs_hitup == (run.scan.xs_hitup || (run.scan.xs_want_itup && answer.found))
            &&& answer.store == memory(run.scan.xs_want_itup, run.scan.xs_hitup, answer.found)
        }),
    decreases run.claims.len(), rank(action),
{
    match action {
        ScanAction::ClaimSegment => {
            let (scan, next) = run.scan.next_claim(run.claim());
            let claimed = Run { scan, claims: run.later_claims(), ..run };
            if run.claims.len() > 0 {
                assert(run.left(index) == index.in_segments(run.claims));
                lemma_perform(index, claimed, next, key_oid);
            } else {
                assert(perform(index, claimed, next) == (Answer {
                    found: false,
                    store: TupleStore::Nothing,
                    run: claimed,
                }));
            }
        },
        _ => {
            let begun = match action {
                ScanAction::SearchSegment { segment_id } => Run {
                    results: (index.in_segment)(segment_id),
                    ..run
                },
                _ => run,
            };
            let (scan, next) = begun.scan.next_hit(begun.next());
            let taken = Run { scan, results: begun.rest(), ..begun };
            assert(perform(index, run, action) == perform(index, taken, next));
            if begun.results.len() > 0 {
                let hit = begun.results[0];
                assert(taken.left(index) == begun.left(index).drop_first());
                if run.scan.xs_want_itup {
                    let key = (index.key)(hit.doc_address, key_oid);
                    let (filled, last) = scan.next_key(key);
                    let done = Run { scan: filled, ..taken };
                    assert(perform(index, taken, next) == perform(index, done, last));
                    assert(perform(index, done, last) == (Answer {
                        found: true,
                        store: memory(true, run.scan.xs_hitup, true),
                        run: done,
                    }));
                } else {
                    assert(perform(index, taken, next) == (Answer {
                        found: true,
                        store: TupleStore::Nothing,
                        run: taken,
                    }));
                }
            } else {
                assert(begun.left(index) == index.in_segments(run.claims));
                assert(taken.left(index) == index.in_segments(run.claims));
                lemma_perform(index, taken, next, key_oid);
            }
        },
    }
}

proof fn lemma_requests(index: Index, run: Run, n: nat, key_oid: Oid)
    requires
        in_order(run, key_oid),
    ensures
        requests(index, run, n).len() == n,
        forall|i: int|
            #![trigger requests(index, run, n)[i]]
            0 <= i < n ==> {
                let answer = requests(index, run, n)[i];
                let left = run.left(index);
                let want = run.scan.xs_want_itup;
                &&& answer.found == (i < left.len())
                &&& answer.found ==> shows(index, answer.run.scan, left[i], key_oid)
                &&& answer.run.scan.xs_want_itup == want
                &&& answer.store == memory(want, run.scan.xs_hitup || i > 0, answer.found)
            },
    decreases n,
{
    if n > 0 {
        let (scan, action) = run.scan.next_row();
        let asked = Run { scan, ..run };
        assert(asked.left(index) == run.left(index));
        lemma_perform(index, asked, action, key_oid);
        let first = request(index, run);
        let rest = requests(index, first.run, (n - 1) as nat);
        lemma_requests(index, first.run, (n - 1) as nat, key_oid);
        assert forall|i: int|
            #![trigger requests(index, run, n)[i]]
            0 < i < n implies requests(index, run, n)[i] == rest[i - 1] && (first.found && i
            < run.left(index).len() ==> run.left(index)[i] == first.run.left(index)[i - 1]) by {}
    }
}

/// The documents that a scan is to return: all that are found, for a scan that is not shared; for a
/// shared one those of the segment claimed at its start and of each one claimed later.
pub open spec fn due(
    index: Index,
    parallel_scan: bool,
    claimed: Option<SegmentId>,
    claims: Seq<SegmentId>,
) -> Seq<SearchHit> {
    if !parallel_scan {
        index.everywhere
    } else {
        match claimed {
            Some(segment_id) => (index.in_segment)(segment_id) + index.in_segments(claims),
            None => index.in_segments(claims),
        }
    }
}

/// From its start on, a scan returns the documents that are due, in order, each once and none but
/// them, and after them nothing, however often it is asked. With rows from the index, a row has the
/// key of its document in the first column, read as the type of that column, and nulls in the
/// others; the first row is formed, and every later one written over it.
pub proof fn law_scan_returns_what_is_due(
    scan: ScanView,
    reader: ReaderView,
    claimed: Option<SegmentId>,
    key_field: Option<KeyFieldView>,
    index: Index,
    claims: Seq<SegmentId>,
    n: nat,
    i: int,
)
    requires
        scan.xs_want_itup ==> key_field is Some && scan.xs_hitupdesc.len() > 0,
        !scan.parallel_scan ==> claims.len() == 0,
        0 <= i < n,
    ensures
        ({
            let run = begin(index, scan.opened(reader, claimed, key_field), claims);
            let answer = requests(index, run, n)[i];
            let rows = due(index, scan.parallel_scan, claimed, claims);
            &&& answer.found == (i < rows.len())
            &&& answer.run.scan.xs_want_itup == scan.xs_want_itup
            &&& answer.found ==> shows(index, answer.run.scan, rows[i], scan.xs_hitupdesc[0])
            &&& answer.store == memory(
                scan.xs_want_itup,
                scan.xs_hitup || i > 0,
                i < rows.len(),
            )
        }),
{
    let run = begin(index, scan.opened(reader, claimed, key_field), claims);
    let key_oid = scan.xs_hitupdesc[0];
    assert(run.left(index) == due(index, scan.parallel_scan, claimed, claims));
    lemma_requests(index, run, n, key_oid);
}

/// The answer to a request for a bitmap, and the run as it is then.
pub ghost struct Gathered {
    pub places: Seq<(ItemPointerData, bool)>,
    pub count: i64,
    pub run: Run,
}

/// Does what `action` says for a bitmap, and what the steps after it say, until it is complete. A
/// segment is searched by the name that the action gives.
pub open spec fn complete(
    index: Index,
    run: Run,
    bitmap: BitmapScan,
    action: BitmapAction,
) -> Gathered
    decreases
            run.claims.len(),
            if action is SearchSegment {
                1nat
            } else {
                0nat
            },
            run.results.len(),
            bitmap_rank(action),
{
    match action {
        BitmapAction::FetchHit => {
            let (after, next) = bitmap.next_hit(run.next());
            complete(index, Run { results: run.rest(), ..run }, after, next)
        },
        BitmapAction::SearchSegment { segment_id } => {
            let begun = Run { results: (index.in_segment)(segment_id), ..run };
            let (after, next) = bitmap.next_hit(begun.next());
            complete(index, Run { results: begun.rest(), ..begun }, after, next)
        },
        BitmapAction::AddTuple { tid, recheck } => {
            let (after, next) = bitmap.next_hit(run.next());
            let rest = complete(index, Run { results: run.rest(), ..run }, after, next);
            Gathered { places: seq![(tid, recheck)] + rest.places, ..rest }
        },
        BitmapAction::ClaimSegment => {
            let scan = run.scan.next_segment(run.claim());
            let next = bitmap.next_claim(run.claim());
            complete(index, Run { scan, claims: run.later_claims(), ..run }, bitmap, next)
        },
        BitmapAction::Return { count } => Gathered { places: Seq::empty(), count, run },
    }
}

/// One request for a bitmap.
pub open spec fn request_bitmap(index: Index, run: Run) -> Gathered {
    let (bitmap, action) = bitmap_start(run.scan);
    complete(index, run, bitmap, action)
}

/// `places` are those of `hits`, in order, and none of them needs to be checked again.
pub open spec fn are_places_of(
    places: Seq<(ItemPointerData, bool)>,
    hits: Seq<SearchHit>,
) -> bool {
    &&& places.len() == hits.len()
    &&& forall|i: int|
        0 <= i < hits.len() ==> (#[trigger] places[i]).0 == hits[i].tid && !places[i].1
}

proof fn lemma_complete(index: Index, run: Run, bitmap: BitmapScan, action: BitmapAction)
    requires
        !(action is Return),
        action is ClaimSegment ==> run.results.len() == 0,
        action is SearchSegment ==> run.results.len() == 0,
    ensures
        ({
            let answer = complete(index, run, bitmap, action);
            let left = match action {
                BitmapAction::SearchSegment { segment_id } => (index.in_segment)(segment_id)
                    + index.in_segments(run.claims),
                _ => run.left(index),
            };
            let places = match action {
                BitmapAction::AddTuple { .. } => answer.places.drop_first(),
                _ => answer.places,
            };
            &&& action matches BitmapAction::AddTuple { tid, recheck } ==> answer.places.len() > 0
                && answer.places[0] == (tid, recheck)
            &&& are_places_of(places, left)
            &&& 0 <= bitmap.count && bitmap.count + left.len() <= i64::MAX ==> answer.count
                == bitmap.count + left.len()
            &&& answer.run.left(index).len() == 0
        }),
    decreases
            run.claims.len(),
            if action is SearchSegment {
                1nat
            } else {
                0nat
            },
            run.results.len(),
            bitmap_rank(action),
{
    match action {
        BitmapAction::ClaimSegment => {
            let scan = run.scan.next_segment(run.claim());
            let next = bitmap.next_claim(run.claim());
            let claimed = Run { scan, claims: run.later_claims(), ..run };
            if run.claims.len() > 0 {
                assert(run.left(index) == index.in_segments(run.claims));
                lemma_complete(index, claimed, bitmap, next);
            } else {
                assert(complete(index, claimed, bitmap, next) == (Gathered {
                    places: Seq::empty(),
                    count: bitmap.count,
                    run: claimed,
                }));
            }
        },
        _ => {
            let begun = match action {
                BitmapAction::SearchSegment { segment_id } => Run {
                    results: (index.in_segment)(segment_id),
                    ..run
                },
                _ => run,
            };
            let (after, next) = bitmap.next_hit(begun.next());
            let taken = Run { results: begun.rest(), ..begun };
            lemma_complete(index, taken, after, next);
            let rest = complete(index, taken, after, next);
            let left = begun.left(index);
            if begun.results.len() > 0 {
                assert(taken.left(index) == left.drop_first());
                let later = rest.places.drop_first();
                assert forall|i: int| 0 <= i < left.len() implies (#[trigger] rest.places[i]).0
                    == left[i].tid && !rest.places[i].1 by {
                    if i > 0 {
                        assert(rest.places[i] == later[i - 1]);
                    }
                }
                assert(are_places_of(rest.places, left));
            } else {
                assert(taken.left(index) == left);
            }
            if action is AddTuple {
                assert(complete(index, run, bitmap, action).places.drop_first() == rest.places);
            }
        },
    }
}

/// From its start on, a scan gives a bitmap the places of the documents that are due, in order, each
/// once and none but them, for certain, and returns how many there are. A bitmap asked for again
/// gets nothing more.
pub proof fn law_bitmap_gets_what_is_due(
    scan: ScanView,
    reader: ReaderView,
    claimed: Option<SegmentId>,
    key_field: Option<KeyFieldView>,
    index: Index,
    claims: Seq<SegmentId>,
)
    requires
        !scan.parallel_scan ==> claims.len() == 0,
    ensures
        ({
            let run = begin(index, scan.opened(reader, claimed, key_field), claims);
            let answer = request_bitmap(index, run);
            let rows = due(index, scan.parallel_scan, claimed, claims);
            &&& are_places_of(answer.places, rows)
            &&& rows.len() <= i64::MAX ==> answer.count == rows.len()
            &&& request_bitmap(index, answer.run).places.len() == 0
            &&& request_bitmap(index, answer.run).count == 0
        }),
{
    let run = begin(index, scan.opened(reader, claimed, key_field), claims);
    assert(run.left(index) == due(index, scan.parallel_scan, claimed, claims));
    let (bitmap, action) = bitmap_start(run.scan);
    lemma_complete(index, run, bitmap, action);
    let answer = request_bitmap(index, run);
    assert(answer.run.results.len() == 0);
    let (again, first) = bitmap_start(answer.run.scan);
    lemma_complete(index, answer.run, again, first);
}

} // verus!
