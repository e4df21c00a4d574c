//! What the executor gets of a scan over fast fields, from what the index and the table hold.
#![allow(unused_imports)]

use crate::catalog::{AttrNumber, Datum, Oid};
use crate::item_pointer::{BlockNumber, ItemPointerData};
use crate::numeric::{
    ColumnRequest, ExecState, NextActionView, NumericView, QuerySource, SlotView, WhichFastField,
};
use crate::numeric_laws::rank;
use crate::numeric_step_laws::{
    law_block_is_its_two_halves, law_columns_hold_what_was_read, law_visible_rows_are_read,
};
use crate::search::{SearchHit, SearchRequest};
use tantivy::DocAddress;
use vstd::prelude::*;

verus! {

/// What can be found out about a table and its indexed documents.
pub ghost struct Table {
    /// Whether all rows of a block are visible.
    pub all_visible: spec_fn(BlockNumber) -> bool,
    /// The value of a column: of a fast field, in the column of that number, as a value of a type,
    /// for a score and a document; absent where it is null.
    pub value: spec_fn(WhichFastField, usize, Oid, u32, DocAddress) -> Option<Datum>,
}

/// The block that a document's row is in.
pub open spec fn block_of(hit: SearchHit) -> BlockNumber {
    (65536 * hit.tid.bi_hi + hit.tid.bi_lo) as BlockNumber
}

/// The answer to a request for a row, with the state as it is then and the documents that are left.
pub ghost struct Answer {
    pub result: ExecState,
    pub state: NumericView,
    pub left: Seq<SearchHit>,
}

/// Does what `action` says, and what the steps after it say, until there is an answer. A block is
/// looked up by the number that the action gives, and each column is read as the action asks for
/// it. `at` is the document that was taken last.
pub open spec fn perform(
    table: Table,
    state: NumericView,
    action: NextActionView,
    at: Option<SearchHit>,
    left: Seq<SearchHit>,
) -> Answer
    decreases rank(action),
{
    match action {
        NextActionView::FetchHit => if left.len() > 0 {
            let (after, next) = state.next_hit(Some(left[0]));
            perform(table, after, next, Some(left[0]), left.drop_first())
        } else {
            let (after, next) = state.next_hit(None);
            perform(table, after, next, None, left)
        },
        NextActionView::CheckVisibility { blockno } => {
            let (after, next) = state.judged(at->0, (table.all_visible)(blockno));
            perform(table, after, next, at, left)
        },
        NextActionView::FetchColumns { columns, bm25, doc_address } => Answer {
            result: ExecState::Virtual,
            state: state.with_columns(read(table, columns, bm25, doc_address)),
            left,
        },
        NextActionView::Return { state: result } => Answer { result, state, left },
    }
}

/// The values of the columns `columns` of a document.
pub open spec fn read(
    table: Table,
    columns: Seq<ColumnRequest>,
    bm25: u32,
    doc_address: DocAddress,
) -> Seq<Option<Datum>> {
    columns.map_values(
        |column: ColumnRequest|
            (table.value)(column.field, column.column, column.atttypid, bm25, doc_address),
    )
}

/// One request for a row.
pub open spec fn request(table: Table, state: NumericView, left: Seq<SearchHit>) -> Answer {
    perform(table, state, state.next_row(), None, left)
}

/// The answers to `n` requests for a row.
pub open spec fn requests(
    table: Table,
    state: NumericView,
    left: Seq<SearchHit>,
    n: nat,
) -> Seq<Answer>
    decreases n,
{
    if n == 0 {
        Seq::empty()
    } else {
        let first = request(table, state, left);
        seq![first] + requests(table, first.state, first.left, (n - 1) as nat)
    }
}

/// The scan is searching, has room for its rows, and what it knows of a block is true of it.
pub open spec fn in_order(table: Table, state: NumericView) -> bool {
    &&& state.search_results is Some
    &&& state.heaprel is Some
    &&& state.tupdesc is Some
    &&& state.tupdesc->0.len() <= usize::MAX
    &&& state.tupdesc->0.len() <= state.which_fast_fields.len()
    &&& state.tupdesc->0.len() <= state.slot.tts_values.len()
    &&& state.slot.tts_isnull.len() == state.slot.tts_values.len()
    &&& state.blockvis.0 == u32::MAX ==> !state.blockvis.1
    &&& state.blockvis.0 != u32::MAX ==> state.blockvis.1 == (table.all_visible)(state.blockvis.0)
}

/// The slot is marked as full and holds the row of the document `hit`: its place, its table, and in
/// each column the value of that column's field as a value of that column's type, or a null.
pub open spec fn holds_row(
    table: Table,
    slot: SlotView,
    hit: SearchHit,
    fields: Seq<WhichFastField>,
    types: Seq<Oid>,
) -> bool {
    &&& slot.tts_flags & 2 == 0
    &&& slot.tts_flags & 4 == 4
    &&& slot.tts_values.len() <= i16::MAX ==> slot.tts_nvalid == slot.tts_values.len()
    &&& forall|c: int|
        #![trigger slot.tts_values[c]]
        #![trigger slot.tts_isnull[c]]
        0 <= c < types.len() ==> {
            let value = (table.value)(
                fields[c],
                c as usize,
                types[c],
                hit.bm25,
                hit.doc_address,
            );
            &&& value matches Some(datum) ==> slot.tts_values[c] == datum && !slot.tts_isnull[c]
            &&& value is None ==> slot.tts_values[c] == 0 && slot.tts_isnull[c]
        }
}

/// The answer `answer` is the one that a request has to give that takes the document `hit`, where
/// the state was `before`: its row, if all rows of its block are visible, and else what is
/// needed to look at the row itself.
pub open spec fn answers_for(
    table: Table,
    before: NumericView,
    hit: SearchHit,
    answer: Answer,
) -> bool {
    let slot = answer.state.slot;
    &&& slot.tts_tid == hit.tid
    &&& slot.tts_table_oid == before.heaprel->0
    &&& (table.all_visible)(block_of(hit)) ==> answer.result == ExecState::Virtual && holds_row(
        table,
        slot,
        hit,
        before.which_fast_fields,
        before.tupdesc->0,
    )
    &&& !(table.all_visible)(block_of(hit)) ==> answer.result == (
    ExecState::RequiresVisibilityCheck {
        ctid: hit.ctid,
        score: hit.bm25,
        doc_address: hit.doc_address,
    })
}

proof fn lemma_request(table: Table, state: NumericView, left: Seq<SearchHit>)
    requires
        in_order(table, state),
        left.len() > 0 ==> block_of(left[0]) != u32::MAX,
    ensures
        ({
            let answer = request(table, state, left);
            &&& left.len() == 0 ==> answer == (Answer { result: ExecState::Eof, state, left })
            &&& left.len() > 0 ==> answers_for(table, state, left[0], answer) && answer.left
                == left.drop_first()
            &&& in_order(table, answer.state)
            &&& answer.state.which_fast_fields == state.which_fast_fields
            &&& answer.state.tupdesc == state.tupdesc
            &&& answer.state.heaprel == state.heaprel
            &&& answer.state.search_results == state.search_results
        }),
{
    reveal_with_fuel(perform, 4);
    if left.len() > 0 {
        let hit = left[0];
        law_block_is_its_two_halves(hit.tid, hit.tid);
        let at = state.at_hit(hit);
        law_visible_rows_are_read(at, hit);
        let visible = (table.all_visible)(block_of(hit));
        let (after, action) = at.judged(hit, visible);
        if let NextActionView::FetchColumns { columns, bm25, doc_address } = action {
            let values = read(table, columns, bm25, doc_address);
            let done = after.with_columns(values);
            assert forall|c: int| 0 <= c < state.tupdesc->0.len() implies {
                let value = (table.value)(
                    state.which_fast_fields[c],
                    c as usize,
                    state.tupdesc->0[c],
                    hit.bm25,
                    hit.doc_address,
                );
                &&& value matches Some(datum) ==> #[trigger] done.slot.tts_values[c] == datum
                    && !done.slot.tts_isnull[c]
                &&& value is None ==> done.slot.tts_values[c] == 0 && done.slot.tts_isnull[c]
            } by {
                law_columns_hold_what_was_read(after, values, c);
                assert(columns[c].column == c);
            }
            assert(request(table, state, left).state == done);
        }
    }
}

/// A search over fast fields is answered with the documents that it found, in order, each once and
/// none but them: with the row itself if all rows of its block are visible, and else with what is
/// needed to look at it. After them it is answered with the end, however often it is asked.
pub proof fn law_search_returns_its_documents(
    table: Table,
    state: NumericView,
    documents: Seq<SearchHit>,
    n: nat,
)
    requires
        in_order(table, state),
        forall|i: int|
            0 <= i < documents.len() ==> block_of(#[trigger] documents[i]) != u32::MAX,
    ensures
        requests(table, state, documents, n).len() == n,
        forall|i: int|
            #![trigger requests(table, state, documents, n)[i]]
            0 <= i < n && i < documents.len() ==> answers_for(
                table,
                state,
                documents[i],
                requests(table, state, documents, n)[i],
            ),
        forall|i: int|
            #![trigger requests(table, state, documents, n)[i]]
            documents.len() <= i < n ==> requests(table, state, documents, n)[i].result
                == ExecState::Eof,
    decreases n,
{
    if n > 0 {
        lemma_request(table, state, documents);
        let first = request(table, state, documents);
        let rest = requests(table, first.state, first.left, (n - 1) as nat);
        if documents.len() > 0 {
            assert forall|i: int| 0 <= i < first.left.len() implies block_of(
                #[trigger] first.left[i],
            ) != u32::MAX by {
                assert(first.left[i] == documents[i + 1]);
            }
        }
        law_search_returns_its_documents(table, first.state, first.left, (n - 1) as nat);
        assert forall|i: int|
            #![trigger requests(table, state, documents, n)[i]]
            0 < i < n implies requests(table, state, documents, n)[i] == rest[i - 1] && (i
            < documents.len() ==> documents[i] == first.left[i - 1]) by {}
    }
}

/// A scan that starts, or starts over, can return its rows once it searches: nothing that it knew
/// of blocks before is taken for true. A scan that goes on to another segment can, too.
pub proof fn law_each_search_starts_in_order(
    table: Table,
    state: NumericView,
    source: QuerySource,
    going_on: bool,
)
    requires
        state.heaprel is Some,
        state.can_fill(),
        state.tupdesc->0.len() <= usize::MAX,
        going_on ==> in_order(table, state),
        ({
            let start = if going_on {
                state
            } else {
                state.reset()
            };
            start.query(source).1
        }),
    ensures
        in_order(
            table,
            (if going_on {
                state
            } else {
                state.reset()
            }).query(source).0,
        ),
{
}

} // verus!
