//! What holds of scans of the index from their start to their end.
#![allow(unused_imports)]

use crate::catalog::{Datum, NULL_DATUM};
use crate::item_pointer::ItemPointerData;
use crate::scan::{
    bitmap_start, BitmapAction, BitmapScan, KeyFieldView, ReaderView, ScanAction, ScanStateView,
    ScanView, TupleStore,
};
use crate::search::SearchHit;
use tantivy::index::SegmentId;
use tantivy::DocAddress;
use vstd::prelude::*;

verus! {

/// The documents that the search of one segment finds.
pub ghost struct SegmentHits {
    pub segment_id: SegmentId,
    pub hits: Seq<SearchHit>,
}

/// What a scan has still to read: the documents left in the results at hand, and the segments that
/// it will yet get to claim, one after the other.
pub ghost struct Source {
    pub current: Seq<SearchHit>,
    pub segments: Seq<SegmentHits>,
}

/// The documents in `segments`, segment by segment.
pub open spec fn hits_in(segments: Seq<SegmentHits>) -> Seq<SearchHit>
    decreases segments.len(),
{
    if segments.len() == 0 {
        Seq::empty()
    } else {
        segments[0].hits + hits_in(segments.drop_first())
    }
}

impl Source {
    /// All documents that are left.
    pub open spec fn rows(self) -> Seq<SearchHit> {
        self.current + hits_in(self.segments)
    }

    /// The next document of the results at hand.
    pub open spec fn next(self) -> Option<SearchHit> {
        if self.current.len() > 0 {
            Some(self.current[0])
        } else {
            None
        }
    }

    /// What is left once the next document of the results at hand is taken.
    pub open spec fn taken(self) -> Source {
        if self.current.len() > 0 {
            Source { current: self.current.drop_first(), ..self }
        } else {
            self
        }
    }

    /// The next segment to claim.
    pub open spec fn claim(self) -> Option<SegmentId> {
        if self.segments.len() > 0 {
            Some(self.segments[0].segment_id)
        } else {
            None
        }
    }

    /// What is left once the next segment is claimed and its search has begun.
    pub open spec fn claimed(self) -> Source {
        if self.segments.len() > 0 {
            Source { current: self.segments[0].hits, segments: self.segments.drop_first() }
        } else {
            self
        }
    }
}

/// The places of the rows of `hits`.
pub open spec fn tids(hits: Seq<SearchHit>) -> Seq<ItemPointerData> {
    hits.map_values(|hit: SearchHit| hit.tid)
}

/// How many steps a row can still take before another segment is claimed.
pub open spec fn rank(action: ScanAction) -> nat {
    match action {
        ScanAction::SearchSegment { .. } => 3,
        ScanAction::FetchHit => 3,
        ScanAction::FetchKey { .. } => 2,
        ScanAction::ClaimSegment => 1,
        ScanAction::Return { .. } => 0,
    }
}

/// The answer to a request for a row: whether one was found and what becomes of the memory of a row
/// returned from the index, with the scan as it is then and what it has still to read.
pub ghost struct RowAnswer {
    pub found: bool,
    pub store: TupleStore,
    pub scan: ScanView,
    pub left: Source,
}

/// Carries out `action` and all that follow from it until the server gets its answer. `keys` says
/// what key a document has.
pub open spec fn carry_out(
    scan: ScanView,
    action: ScanAction,
    source: Source,
    keys: spec_fn(DocAddress) -> Option<Datum>,
) -> RowAnswer
    decreases source.segments.len(), rank(action),
{
    match action {
        ScanAction::FetchHit => {
            let (after, next) = scan.next_hit(source.next());
            carry_out(after, next, source.taken(), keys)
        },
        ScanAction::SearchSegment { .. } => {
            let (after, next) = scan.next_hit(source.next());
            carry_out(after, next, source.taken(), keys)
        },
        ScanAction::FetchKey { doc_address, .. } => {
            let (after, next) = scan.next_key(keys(doc_address));
            carry_out(after, next, source, keys)
        },
        ScanAction::ClaimSegment => {
            let (after, next) = scan.next_claim(source.claim());
            carry_out(after, next, source.claimed(), keys)
        },
        ScanAction::Return { found, store } => RowAnswer { found, store, scan, left: source },
    }
}

/// One request of the server for a row, from its beginning to its answer.
pub open spec fn get_tuple(
    scan: ScanView,
    source: Source,
    keys: spec_fn(DocAddress) -> Option<Datum>,
) -> RowAnswer {
    let (after, action) = scan.next_row();
    carry_out(after, action, source, keys)
}

/// The scan has begun and fits its source: without results at hand there is nothing left in them.
pub open spec fn has_begun(scan: ScanView, source: Source) -> bool {
    &&& scan.opaque is Some
    &&& scan.opaque->0.results is None ==> source.current.len() == 0
}

/// The scan has begun, and rows can be returned from the index if they are to be.
pub open spec fn is_running(scan: ScanView, source: Source) -> bool {
    &&& has_begun(scan, source)
    &&& scan.xs_want_itup ==> scan.can_return_rows()
}

/// The row to return from the index has the key `key` in its first column.
pub open spec fn holds_key(scan: ScanView, key: Option<Datum>) -> bool {
    let state = scan.opaque->0;
    match key {
        Some(datum) => state.values[0] == datum && !state.nulls[0],
        None => state.values[0] == NULL_DATUM && state.nulls[0],
    }
}

/// What becomes of the memory of a row returned from the index: the first document's row is formed,
/// and every later one overwrites it.
pub open spec fn stored(scan: ScanView, found: bool) -> TupleStore {
    if !found || !scan.xs_want_itup {
        TupleStore::Nothing
    } else if scan.xs_hitup {
        TupleStore::Refill
    } else {
        TupleStore::Form
    }
}

/// A request for a row is answered with the next of the documents that are left, in the results at
/// hand or else in the segments yet to claim, without a need to check the row again; and it takes
/// that document and no other. It is answered with none exactly if no document is left.
pub proof fn law_rows_come_in_order(
    scan: ScanView,
    source: Source,
    keys: spec_fn(DocAddress) -> Option<Datum>,
)
    requires
        is_running(scan, source),
    ensures
        ({
            let RowAnswer { found, scan: after, left, .. } = get_tuple(scan, source, keys);
            &&& is_running(after, left)
            &&& !after.xs_recheck
            &&& found == (source.rows().len() > 0)
            &&& found ==> after.xs_heaptid == source.rows()[0].tid && left.rows()
                == source.rows().drop_first()
            &&& found && scan.xs_want_itup ==> holds_key(
                after,
                keys(source.rows()[0].doc_address),
            )
            &&& !found ==> left.rows() == source.rows()
        }),
{
    let (begun, action) = scan.next_row();
    lemma_carry_out(begun, action, source, keys);
}

/// What `carry_out` comes to when it starts at a document or at a segment to claim.
proof fn lemma_carry_out(
    scan: ScanView,
    action: ScanAction,
    source: Source,
    keys: spec_fn(DocAddress) -> Option<Datum>,
)
    requires
        scan.opaque is Some,
        scan.xs_want_itup ==> scan.can_return_rows(),
        !scan.xs_recheck,
        action is FetchHit || action is SearchSegment || action is ClaimSegment,
        action is ClaimSegment ==> source.current.len() == 0,
        scan.opaque->0.results is None ==> action is ClaimSegment,
    ensures
        ({
            let RowAnswer { found, store, scan: after, left } = carry_out(
                scan,
                action,
                source,
                keys,
            );
            &&& is_running(after, left)
            &&& !after.xs_recheck
            &&& after.xs_want_itup == scan.xs_want_itup
            &&& after.xs_hitup == (scan.xs_hitup || (scan.xs_want_itup && found))
            &&& store == stored(scan, found)
            &&& found == (source.rows().len() > 0)
            &&& found ==> after.xs_heaptid == source.rows()[0].tid && left.rows()
                == source.rows().drop_first()
            &&& found && scan.xs_want_itup ==> holds_key(
                after,
                keys(source.rows()[0].doc_address),
            )
            &&& !found ==> left.rows() == source.rows()
        }),
    decreases source.segments.len(), rank(action),
{
    match action {
        ScanAction::ClaimSegment => {
            let (after, next) = scan.next_claim(source.claim());
            if source.segments.len() > 0 {
                assert(source.rows() == source.claimed().rows());
                lemma_carry_out(after, next, source.claimed(), keys);
            } else {
                assert(carry_out(after, next, source, keys) == (RowAnswer {
                    found: false,
                    store: TupleStore::Nothing,
                    scan: after,
                    left: source,
                }));
            }
        },
        _ => {
            let (after, next) = scan.next_hit(source.next());
            if source.current.len() > 0 {
                assert(source.taken().rows() == source.rows().drop_first());
                if scan.xs_want_itup {
                    let key = keys(source.current[0].doc_address);
                    let (filled, last) = after.next_key(key);
                    assert(carry_out(after, next, source.taken(), keys) == carry_out(
                        filled,
                        last,
                        source.taken(),
                        keys,
                    ));
                    assert(carry_out(filled, last, source.taken(), keys) == (RowAnswer {
                        found: true,
                        store: stored(scan, true),
                        scan: filled,
                        left: source.taken(),
                    }));
                } else {
                    assert(carry_out(after, next, source.taken(), keys) == (RowAnswer {
                        found: true,
                        store: TupleStore::Nothing,
                        scan: after,
                        left: source.taken(),
                    }));
                }
            } else {
                lemma_carry_out(after, next, source, keys);
            }
        },
    }
}

/// The places of all rows that a scan returns when the server asks until there are no more, `limit`
/// times at most.
pub open spec fn all_rows(
    scan: ScanView,
    source: Source,
    keys: spec_fn(DocAddress) -> Option<Datum>,
    limit: nat,
) -> Seq<ItemPointerData>
    decreases limit,
{
    if limit == 0 {
        Seq::empty()
    } else {
        let RowAnswer { found, scan: after, left, .. } = get_tuple(scan, source, keys);
        if found {
            seq![after.xs_heaptid] + all_rows(after, left, keys, (limit - 1) as nat)
        } else {
            Seq::empty()
        }
    }
}

/// A scan returns each document once, and it returns all of them: those in the results at hand,
/// then those of each segment that it claims.
pub proof fn law_every_row_comes_once(
    scan: ScanView,
    source: Source,
    keys: spec_fn(DocAddress) -> Option<Datum>,
    limit: nat,
)
    requires
        is_running(scan, source),
        limit >= source.rows().len(),
    ensures
        all_rows(scan, source, keys, limit) == tids(source.rows()),
    decreases limit,
{
    law_rows_come_in_order(scan, source, keys);
    if limit > 0 {
        let RowAnswer { found, scan: after, left, .. } = get_tuple(scan, source, keys);
        if found {
            law_every_row_comes_once(after, left, keys, (limit - 1) as nat);
            assert(tids(source.rows()) == seq![source.rows()[0].tid] + tids(left.rows()));
        }
    }
}

/// The answers to `n` requests for a row, one after the other, whether or not a row was found.
pub open spec fn answers(
    scan: ScanView,
    source: Source,
    keys: spec_fn(DocAddress) -> Option<Datum>,
    n: nat,
) -> Seq<RowAnswer>
    decreases n,
{
    if n == 0 {
        Seq::empty()
    } else {
        let first = get_tuple(scan, source, keys);
        seq![first] + answers(first.scan, first.left, keys, (n - 1) as nat)
    }
}

/// The request number `i` of a scan is answered with the document number `i`, and with none once
/// they have all been returned, however often the server asks again. A row to return from the index
/// is formed for the first document, and its memory is used again for every later one.
pub proof fn law_answers_follow_the_rows(
    scan: ScanView,
    source: Source,
    keys: spec_fn(DocAddress) -> Option<Datum>,
    n: nat,
)
    requires
        is_running(scan, source),
    ensures
        answers(scan, source, keys, n).len() == n,
        forall|i: int|
            #![trigger answers(scan, source, keys, n)[i]]
            0 <= i < n ==> {
                let answer = answers(scan, source, keys, n)[i];
                &&& answer.found == (i < source.rows().len())
                &&& answer.found ==> answer.scan.xs_heaptid == source.rows()[i].tid
                &&& answer.found && scan.xs_want_itup ==> holds_key(
                    answer.scan,
                    keys(source.rows()[i].doc_address),
                )
                &&& !answer.scan.xs_recheck
                &&& answer.store == if !answer.found || !scan.xs_want_itup {
                    TupleStore::Nothing
                } else if i == 0 && !scan.xs_hitup {
                    TupleStore::Form
                } else {
                    TupleStore::Refill
                }
            },
    decreases n,
{
    if n > 0 {
        let (begun, action) = scan.next_row();
        lemma_carry_out(begun, action, source, keys);
        let first = get_tuple(scan, source, keys);
        let rest = answers(first.scan, first.left, keys, (n - 1) as nat);
        law_answers_follow_the_rows(first.scan, first.left, keys, (n - 1) as nat);
        assert forall|i: int|
            #![trigger answers(scan, source, keys, n)[i]]
            0 < i < n implies answers(scan, source, keys, n)[i] == rest[i - 1] && (first.found
            && i < source.rows().len() ==> source.rows()[i] == first.left.rows()[i - 1]) by {}
    }
}

/// The answer to a request for a bitmap: the places added to it with whether they need to be checked
/// again, and the number returned, with the scan as it is then and what it has still to read.
pub ghost struct BitmapAnswer {
    pub added: Seq<(ItemPointerData, bool)>,
    pub count: i64,
    pub scan: ScanView,
    pub left: Source,
}

/// Carries out `action` and all that follow from it until the server gets its answer.
pub open spec fn gather(
    scan: ScanView,
    bitmap: BitmapScan,
    action: BitmapAction,
    source: Source,
) -> BitmapAnswer
    decreases source.segments.len(), source.current.len(), bitmap_rank(action),
{
    match action {
        BitmapAction::FetchHit => {
            let (after, next) = bitmap.next_hit(source.next());
            gather(scan, after, next, source.taken())
        },
        BitmapAction::SearchSegment { .. } => {
            let (after, next) = bitmap.next_hit(source.next());
            gather(scan, after, next, source.taken())
        },
        BitmapAction::AddTuple { tid, recheck } => {
            let (after, next) = bitmap.next_hit(source.next());
            let answer = gather(scan, after, next, source.taken());
            BitmapAnswer { added: seq![(tid, recheck)] + answer.added, ..answer }
        },
        BitmapAction::ClaimSegment => gather(
            scan.next_segment(source.claim()),
            bitmap,
            bitmap.next_claim(source.claim()),
            source.claimed(),
        ),
        BitmapAction::Return { count } => BitmapAnswer {
            added: Seq::empty(),
            count,
            scan,
            left: source,
        },
    }
}

/// How many steps the bitmap can still take before another document is taken.
pub open spec fn bitmap_rank(action: BitmapAction) -> nat {
    match action {
        BitmapAction::ClaimSegment => 1,
        BitmapAction::Return { .. } => 0,
        _ => 2,
    }
}

/// One request of the server for a bitmap, from its beginning to its answer.
pub open spec fn get_bitmap(scan: ScanView, source: Source) -> BitmapAnswer {
    let (bitmap, action) = bitmap_start(scan);
    gather(scan, bitmap, action, source)
}

/// The places of the rows of `hits`, none of which needs to be checked again.
pub open spec fn certain(hits: Seq<SearchHit>) -> Seq<(ItemPointerData, bool)> {
    hits.map_values(|hit: SearchHit| (hit.tid, false))
}

/// A bitmap gets the place of each document once, in order, and of all of them: nothing is left for a
/// later request, which adds nothing and returns 0. The number returned is how many documents there
/// were, as far as it can hold that many.
pub proof fn law_bitmap_holds_every_row(scan: ScanView, source: Source)
    requires
        has_begun(scan, source),
    ensures
        ({
            let answer = get_bitmap(scan, source);
            let later = get_bitmap(answer.scan, answer.left);
            &&& answer.added == certain(source.rows())
            &&& source.rows().len() <= i64::MAX ==> answer.count == source.rows().len()
            &&& has_begun(answer.scan, answer.left)
            &&& answer.left.rows() == Seq::<SearchHit>::empty()
            &&& later.added == Seq::<(ItemPointerData, bool)>::empty()
            &&& later.count == 0
            &&& later.left.rows() == Seq::<SearchHit>::empty()
        }),
{
    let (bitmap, action) = bitmap_start(scan);
    lemma_gather(scan, bitmap, action, source);
    let answer = get_bitmap(scan, source);
    let (again, first) = bitmap_start(answer.scan);
    lemma_gather(answer.scan, again, first, answer.left);
}

/// A bitmap holds the places that row by row requests would return, in the same order.
pub proof fn law_bitmap_agrees_with_rows(
    scan: ScanView,
    source: Source,
    keys: spec_fn(DocAddress) -> Option<Datum>,
)
    requires
        is_running(scan, source),
    ensures
        all_rows(scan, source, keys, source.rows().len()) == get_bitmap(
            scan,
            source,
        ).added.map_values(|added: (ItemPointerData, bool)| added.0),
{
    law_bitmap_holds_every_row(scan, source);
    law_every_row_comes_once(scan, source, keys, source.rows().len());
    assert(tids(source.rows()) == certain(source.rows()).map_values(
        |added: (ItemPointerData, bool)| added.0,
    ));
}

/// What `gather` comes to when it starts at a document or at a segment to claim.
proof fn lemma_gather(scan: ScanView, bitmap: BitmapScan, action: BitmapAction, source: Source)
    requires
        scan.opaque is Some,
        action !is Return,
        action is ClaimSegment ==> source.current.len() == 0,
    ensures
        ({
            let answer = gather(scan, bitmap, action, source);
            &&& answer.added == match action {
                BitmapAction::AddTuple { tid, recheck } => seq![(tid, recheck)] + certain(
                    source.rows(),
                ),
                _ => certain(source.rows()),
            }
            &&& 0 <= bitmap.count && bitmap.count + source.rows().len() <= i64::MAX
                ==> answer.count == bitmap.count + source.rows().len()
            &&& answer.scan.opaque is Some
            &&& answer.left.current.len() == 0
            &&& answer.left.segments.len() == 0
        }),
    decreases source.segments.len(), source.current.len(), bitmap_rank(action),
{
    match action {
        BitmapAction::ClaimSegment => {
            let after = scan.next_segment(source.claim());
            let next = bitmap.next_claim(source.claim());
            if source.segments.len() > 0 {
                assert(source.rows() == source.claimed().rows());
                lemma_gather(after, bitmap, next, source.claimed());
            } else {
                assert(gather(after, bitmap, next, source) == (BitmapAnswer {
                    added: Seq::empty(),
                    count: bitmap.count,
                    scan: after,
                    left: source,
                }));
            }
        },
        _ => {
            let (after, next) = bitmap.next_hit(source.next());
            if source.current.len() > 0 {
                let first = source.rows()[0];
                assert(source.taken().rows() == source.rows().drop_first());
                assert(source.rows() == seq![first] + source.taken().rows());
                assert(certain(source.rows()) == seq![(first.tid, false)] + certain(
                    source.taken().rows(),
                ));
            }
            lemma_gather(scan, after, next, source.taken());
        },
    }
}

/// A scan that starts, or starts over, is running: a scan that is not shared on what the search of
/// all segments finds, a shared one on the segment claimed, if there was one.
pub proof fn law_opened_scan_is_running(
    scan: ScanView,
    reader: ReaderView,
    claimed: Option<SegmentId>,
    key_field: Option<KeyFieldView>,
    source: Source,
)
    requires
        scan.xs_want_itup ==> key_field is Some && scan.xs_hitupdesc.len() > 0,
        scan.parallel_scan && claimed is None ==> source.current.len() == 0,
    ensures
        is_running(scan.opened(reader, claimed, key_field), source),
{
}

/// Nothing is left of an earlier run of a scan that starts over.
pub proof fn law_rescan_starts_over(
    scan: ScanView,
    earlier: Option<ScanStateView>,
    reader: ReaderView,
    claimed: Option<SegmentId>,
    key_field: Option<KeyFieldView>,
)
    ensures
        (ScanView { opaque: earlier, ..scan }).opened(reader, claimed, key_field) == scan.opened(
            reader,
            claimed,
            key_field,
        ),
{
}

} // verus!
