//! What holds of rows made of fast fields from row to row.
#![allow(unused_imports)]

use crate::catalog::{AttrNumber, Datum};
use crate::numeric::{
    datum_or_null, filled_flags, ExecState, NextActionView, NumericView, QuerySource,
    TTS_FLAG_EMPTY, TTS_FLAG_SHOULDFREE,
};
use crate::search::{SearchHit, SearchRequest};
use vstd::prelude::*;

verus! {

/// A scan that starts over can search again, whatever it did before.
pub proof fn law_reset_scan_searches_again(state: NumericView, limit: Option<usize>)
    ensures
        state.reset().query(QuerySource::Serial { limit }).1,
        state.reset().query(QuerySource::Serial { limit }).0.search_results == Some(
            SearchRequest::All { limit },
        ),
        state.reset().next_row() == (NextActionView::Return { state: ExecState::Eof }),
        state.reset().reset() == state.reset(),
{
}

/// Once no segment is left, a shared scan returns no more rows.
pub proof fn law_shared_scan_ends(state: NumericView)
    ensures
        ({
            let (done, more) = state.query(QuerySource::Parallel { claimed: None });
            &&& !more
            &&& done.next_row() == (NextActionView::Return { state: ExecState::Eof })
        }),
{
}

/// A slot that a row is put into is not empty and owns its row; its other flags stay.
pub proof fn law_filled_flags(flags: u16)
    ensures
        filled_flags(flags) & TTS_FLAG_EMPTY == 0,
        filled_flags(flags) & TTS_FLAG_SHOULDFREE == TTS_FLAG_SHOULDFREE,
        filled_flags(flags) & !(TTS_FLAG_EMPTY | TTS_FLAG_SHOULDFREE) == flags & !(TTS_FLAG_EMPTY
            | TTS_FLAG_SHOULDFREE),
{
    assert(((flags & !2u16) | 4u16) & 2u16 == 0) by (bit_vector);
    assert(((flags & !2u16) | 4u16) & 4u16 == 4u16) by (bit_vector);
    assert(((flags & !2u16) | 4u16) & !(2u16 | 4u16) == flags & !(2u16 | 4u16)) by (bit_vector);
}

/// Whether all rows of a block are visible is asked once for a run of documents in that block: the
/// answer is used again for the next of them.
pub proof fn law_block_is_asked_about_once(
    state: NumericView,
    first: SearchHit,
    visible: bool,
    second: SearchHit,
)
    requires
        first.tid.block_number() == second.tid.block_number(),
    ensures
        ({
            let known = state.judged(first, visible).0;
            known.next_hit(Some(second)) == known.at_hit(second).judged(second, visible)
        }),
{
}

/// A document that was found, whether all rows of its block are visible if that is asked, and its
/// columns if they are.
pub ghost struct Visit {
    pub hit: SearchHit,
    pub answer: bool,
    pub columns: Seq<Option<Datum>>,
}

impl Visit {
    /// The block of the document.
    pub open spec fn block(self) -> int {
        self.hit.tid.block_number()
    }
}

/// Whether the block of the document has to be asked about.
pub open spec fn asks(state: NumericView, visit: Visit) -> bool {
    state.next_hit(Some(visit.hit)).1 is CheckVisibility
}

/// The step at which it is known whether all rows of the document's block are visible.
pub open spec fn settled(state: NumericView, visit: Visit) -> (NumericView, NextActionView) {
    let (at, action) = state.next_hit(Some(visit.hit));
    if action is CheckVisibility {
        at.judged(visit.hit, visit.answer)
    } else {
        (at, action)
    }
}

/// The document's row is returned without a look at the table.
pub open spec fn returns_row(state: NumericView, visit: Visit) -> bool {
    settled(state, visit).1 is FetchColumns
}

/// The state once it is known what became of the document's row.
pub open spec fn finished(state: NumericView, visit: Visit) -> NumericView {
    if returns_row(state, visit) {
        settled(state, visit).0.with_columns(visit.columns)
    } else {
        settled(state, visit).0
    }
}

/// The state after the documents `visits`, one after the other.
pub open spec fn after_visits(state: NumericView, visits: Seq<Visit>) -> NumericView
    decreases visits.len(),
{
    if visits.len() == 0 {
        state
    } else {
        finished(after_visits(state, visits.drop_last()), visits.last())
    }
}

/// What becomes of documents does not change what was searched.
proof fn lemma_visits_keep_the_search(state: NumericView, visits: Seq<Visit>)
    ensures
        after_visits(state, visits).did_query == state.did_query,
        after_visits(state, visits).search_results == state.search_results,
    decreases visits.len(),
{
    if visits.len() > 0 {
        lemma_visits_keep_the_search(state, visits.drop_last());
    }
}

/// A scan that is not shared searches the index once. Whatever documents come after that search,
/// every later one until the scan starts over finds nothing to do and changes nothing.
pub proof fn law_serial_scan_searches_once(
    state: NumericView,
    first: Option<usize>,
    visits: Seq<Visit>,
    later: Option<usize>,
)
    ensures
        state.did_query ==> state.query(QuerySource::Serial { limit: first }) == (state, false),
        !state.did_query ==> ({
            let (searching, more) = state.query(QuerySource::Serial { limit: first });
            &&& more
            &&& searching.did_query
            &&& searching.search_results == Some(SearchRequest::All { limit: first })
        }),
        ({
            let searching = state.query(QuerySource::Serial { limit: first }).0;
            let then = after_visits(searching, visits);
            &&& then.search_results == searching.search_results
            &&& then.next_hit(None).0 == then
            &&& then.query(QuerySource::Serial { limit: later }) == (then, false)
        }),
{
    lemma_visits_keep_the_search(state.query(QuerySource::Serial { limit: first }).0, visits);
}

/// At `j`, the block was asked about and all its rows were visible; and all documents from there
/// to before `n` lie in the block `block`.
pub open spec fn seen_visible(
    state: NumericView,
    visits: Seq<Visit>,
    j: int,
    n: int,
    block: int,
) -> bool {
    &&& 0 <= j < n
    &&& asks(after_visits(state, visits.take(j)), visits[j])
    &&& visits[j].answer
    &&& forall|i: int| j <= i < n ==> (#[trigger] visits[i]).block() == block
}

/// A row is returned without a look at the table only if its block was asked about since the scan
/// started over, all rows of the block were visible then, and no document of another block came in
/// between.
pub proof fn law_rows_returned_are_visible(state: NumericView, visits: Seq<Visit>, k: int)
    requires
        !state.blockvis.1,
        0 <= k < visits.len(),
        returns_row(after_visits(state, visits.take(k)), visits[k]),
    ensures
        exists|j: int| #[trigger] seen_visible(state, visits, j, k + 1, visits[k].block()),
{
    lemma_known_visible(state, visits, k);
    let before = after_visits(state, visits.take(k));
    if asks(before, visits[k]) {
        assert(seen_visible(state, visits, k, k + 1, visits[k].block()));
    } else {
        let block = before.blockvis.0 as int;
        let j = choose|j: int| #[trigger] seen_visible(state, visits, j, k, block);
        assert(seen_visible(state, visits, j, k + 1, visits[k].block()));
    }
}

proof fn lemma_known_visible(state: NumericView, visits: Seq<Visit>, n: int)
    requires
        !state.blockvis.1,
        0 <= n <= visits.len(),
    ensures
        ({
            let known = after_visits(state, visits.take(n)).blockvis;
            known.1 ==> exists|j: int| #[trigger] seen_visible(state, visits, j, n, known.0 as int)
        }),
    decreases n,
{
    if n > 0 {
        lemma_known_visible(state, visits, n - 1);
        let visit = visits[n - 1];
        assert(visits.take(n).drop_last() == visits.take(n - 1));
        assert(visits.take(n).last() == visit);
        let before = after_visits(state, visits.take(n - 1));
        let known = after_visits(state, visits.take(n)).blockvis;
        if known.1 {
            assert(known.0 == visit.block());
            if asks(before, visit) {
                assert(seen_visible(state, visits, n - 1, n, known.0 as int));
            } else {
                let m = n - 1;
                let block = before.blockvis.0 as int;
                let j = choose|j: int| #[trigger] seen_visible(state, visits, j, m, block);
                assert(seen_visible(state, visits, j, n, known.0 as int));
            }
        }
    }
}

/// A document in a block all of whose rows are visible ends up in the slot: its place, its table,
/// and its columns with their nulls; whether the block was asked about just now or before.
pub proof fn law_visible_row_is_in_the_slot(
    state: NumericView,
    visit: Visit,
    i: int,
)
    requires
        state.can_fill(),
        visit.columns.len() == state.tupdesc->0.len(),
        returns_row(state, visit),
        0 <= i < visit.columns.len(),
    ensures
        ({
            let slot = finished(state, visit).slot;
            &&& settled(state, visit).1 == (NextActionView::FetchColumns {
                columns: state.columns(),
                bm25: visit.hit.bm25,
                doc_address: visit.hit.doc_address,
            })
            &&& finished(state, visit).can_fill()
            &&& slot.tts_tid == visit.hit.tid
            &&& slot.tts_table_oid == state.heaprel->0
            &&& slot.tts_flags == filled_flags(state.slot.tts_flags)
            &&& slot.tts_nvalid == state.slot.tts_values.len() as AttrNumber
            &&& slot.tts_values[i] == datum_or_null(visit.columns[i])
            &&& slot.tts_isnull[i] == (visit.columns[i] is None)
        }),
{
}

/// The answer to a request for a row, with the state as it is then and the documents that are left.
pub ghost struct RowAnswer {
    pub result: ExecState,
    pub state: NumericView,
    pub left: Seq<Visit>,
}

/// How many steps a row can still take.
pub open spec fn rank(action: NextActionView) -> nat {
    match action {
        NextActionView::FetchHit => 3,
        NextActionView::CheckVisibility { .. } => 2,
        NextActionView::FetchColumns { .. } => 1,
        NextActionView::Return { .. } => 0,
    }
}

/// Carries out `action` and all that follow from it until there is an answer. `at` is the document
/// that was taken last, and `left` are those after it.
pub open spec fn carry_out(
    state: NumericView,
    action: NextActionView,
    at: Option<Visit>,
    left: Seq<Visit>,
) -> RowAnswer
    decreases rank(action),
{
    match action {
        NextActionView::FetchHit => if left.len() > 0 {
            let (after, next) = state.next_hit(Some(left[0].hit));
            carry_out(after, next, Some(left[0]), left.drop_first())
        } else {
            let (after, next) = state.next_hit(None);
            carry_out(after, next, None, left)
        },
        NextActionView::CheckVisibility { .. } => {
            let (after, next) = state.judged(at->0.hit, at->0.answer);
            carry_out(after, next, at, left)
        },
        NextActionView::FetchColumns { .. } => RowAnswer {
            result: ExecState::Virtual,
            state: state.with_columns(at->0.columns),
            left,
        },
        NextActionView::Return { state: result } => RowAnswer { result, state, left },
    }
}

/// One request for a row, from its beginning to its answer.
pub open spec fn next_answer(state: NumericView, left: Seq<Visit>) -> RowAnswer {
    carry_out(state, state.next_row(), None, left)
}

/// What a request that takes the document is answered: that its row is in the slot, or else that
/// the table has to be looked at for its row.
pub open spec fn outcome(state: NumericView, visit: Visit) -> ExecState {
    if returns_row(state, visit) {
        ExecState::Virtual
    } else {
        ExecState::RequiresVisibilityCheck {
            ctid: visit.hit.ctid,
            score: visit.hit.bm25,
            doc_address: visit.hit.doc_address,
        }
    }
}

/// A request for a row takes the next document and no other, and is answered with what became of
/// it. With no document left it is answered with the end of the rows and changes nothing.
pub proof fn law_next_document_is_answered(state: NumericView, left: Seq<Visit>)
    requires
        state.search_results is Some,
    ensures
        left.len() > 0 ==> next_answer(state, left) == (RowAnswer {
            result: outcome(state, left[0]),
            state: finished(state, left[0]),
            left: left.drop_first(),
        }),
        left.len() == 0 ==> next_answer(state, left) == (RowAnswer {
            result: ExecState::Eof,
            state,
            left,
        }),
{
    reveal_with_fuel(carry_out, 4);
}

/// The answers to `n` requests for a row, one after the other.
pub open spec fn answers(state: NumericView, left: Seq<Visit>, n: nat) -> Seq<RowAnswer>
    decreases n,
{
    if n == 0 {
        Seq::empty()
    } else {
        let first = next_answer(state, left);
        seq![first] + answers(first.state, first.left, (n - 1) as nat)
    }
}

/// A search returns each document that it found once, in order, and all of them: the request number
/// `i` is answered with what became of the document number `i`, whose place is then in the slot.
/// From then on every request is answered with the end of the rows and changes nothing.
pub proof fn law_every_document_comes_once(state: NumericView, visits: Seq<Visit>, n: nat)
    requires
        state.search_results is Some,
    ensures
        answers(state, visits, n).len() == n,
        forall|i: int|
            #![trigger answers(state, visits, n)[i]]
            0 <= i < n && i < visits.len() ==> {
                let answer = answers(state, visits, n)[i];
                &&& answer.result == outcome(after_visits(state, visits.take(i)), visits[i])
                &&& answer.state == after_visits(state, visits.take(i + 1))
                &&& answer.state.slot.tts_tid == visits[i].hit.tid
                &&& answer.left == visits.skip(i + 1)
            },
        forall|i: int|
            #![trigger answers(state, visits, n)[i]]
            visits.len() <= i < n ==> answers(state, visits, n)[i] == (RowAnswer {
                result: ExecState::Eof,
                state: after_visits(state, visits),
                left: Seq::empty(),
            }),
    decreases n,
{
    if n > 0 {
        law_next_document_is_answered(state, visits);
        let first = next_answer(state, visits);
        let rest = answers(first.state, first.left, (n - 1) as nat);
        law_every_document_comes_once(first.state, first.left, (n - 1) as nat);
        assert forall|i: int|
            #![trigger answers(state, visits, n)[i]]
            0 < i < n implies answers(state, visits, n)[i] == rest[i - 1] by {}
        if visits.len() > 0 {
            assert(visits.take(0).len() == 0);
            assert(visits.take(1).drop_last() == visits.take(0));
            assert(visits.skip(1) == first.left);
            lemma_first_visit(state, visits);
            assert forall|i: int|
                #![trigger answers(state, visits, n)[i]]
                0 < i < n && i < visits.len() implies after_visits(state, visits.take(i))
                == after_visits(first.state, first.left.take(i - 1)) && after_visits(
                state,
                visits.take(i + 1),
            ) == after_visits(first.state, first.left.take(i)) && visits.skip(i + 1)
                == first.left.skip(i) by {
                lemma_first_visit(state, visits.take(i));
                lemma_first_visit(state, visits.take(i + 1));
                assert(visits.take(i).drop_first() == first.left.take(i - 1));
                assert(visits.take(i + 1).drop_first() == first.left.take(i));
                assert(visits.skip(i + 1) == first.left.skip(i));
            }
        } else {
            assert(visits == Seq::<Visit>::empty());
        }
    }
}

/// The state after some documents is the state after all but the first of them, from the state
/// after the first.
proof fn lemma_first_visit(state: NumericView, visits: Seq<Visit>)
    requires
        visits.len() > 0,
    ensures
        after_visits(state, visits) == after_visits(
            finished(state, visits[0]),
            visits.drop_first(),
        ),
    decreases visits.len(),
{
    if visits.len() == 1 {
        assert(visits.drop_last().len() == 0);
        assert(visits.drop_first().len() == 0);
    } else {
        lemma_first_visit(state, visits.drop_last());
        assert(visits.drop_last().drop_first() == visits.drop_first().drop_last());
    }
}

/// Whenever a request is answered with the row in the slot, the slot holds the document of that
/// request: its place, its table, and its columns with their nulls, whatever it held before.
pub proof fn law_every_row_in_the_slot_is_its_documents(
    state: NumericView,
    visits: Seq<Visit>,
    n: nat,
    i: int,
    column: int,
)
    requires
        state.search_results is Some,
        state.can_fill(),
        forall|k: int|
            0 <= k < visits.len() ==> (#[trigger] visits[k]).columns.len()
                == state.tupdesc->0.len(),
        0 <= i < n,
        i < visits.len(),
        0 <= column < state.tupdesc->0.len(),
    ensures
        answers(state, visits, n)[i].result is Virtual ==> {
            let slot = answers(state, visits, n)[i].state.slot;
            &&& slot.tts_tid == visits[i].hit.tid
            &&& slot.tts_table_oid == state.heaprel->0
            &&& slot.tts_values[column] == datum_or_null(visits[i].columns[column])
            &&& slot.tts_isnull[column] == (visits[i].columns[column] is None)
        },
{
    law_every_document_comes_once(state, visits, n);
    assert(answers(state, visits, n)[i].state == after_visits(state, visits.take(i + 1)));
    lemma_visits_keep_the_room(state, visits.take(i));
    let before = after_visits(state, visits.take(i));
    assert(visits.take(i + 1).drop_last() == visits.take(i));
    assert(visits.take(i + 1).last() == visits[i]);
    if returns_row(before, visits[i]) {
        law_visible_row_is_in_the_slot(before, visits[i], column);
    }
}

/// What becomes of documents does not change the table, nor the columns of a row and the room for
/// them.
proof fn lemma_visits_keep_the_room(state: NumericView, visits: Seq<Visit>)
    requires
        state.can_fill(),
    ensures
        after_visits(state, visits).can_fill(),
        after_visits(state, visits).tupdesc == state.tupdesc,
        after_visits(state, visits).heaprel == state.heaprel,
    decreases visits.len(),
{
    if visits.len() > 0 {
        lemma_visits_keep_the_room(state, visits.drop_last());
    }
}

} // verus!
