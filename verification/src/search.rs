//! Searches: what is looked for, where, and what comes back.

use crate::item_pointer::ItemPointerData;
use tantivy::index::SegmentId;
use tantivy::DocAddress;
use vstd::prelude::*;

verus! {

/// `tantivy::DocAddress`: names a document by its segment and its number in it. Nothing is said
/// of a value of it; it is only carried through.
#[verifier::external_type_specification]
#[verifier::external_body]
pub struct ExDocAddress(DocAddress);

/// `tantivy::index::SegmentId`: names a segment of an index. Nothing is said of a value of it; it
/// is only carried through.
#[verifier::external_type_specification]
#[verifier::external_body]
pub struct ExSegmentId(SegmentId);

/// A document that a search found.
#[derive(Clone, Copy, Debug, PartialEq)]
pub struct SearchHit {
    /// The place of the document's row as the index stores it.
    pub ctid: u64,
    /// The same place as the server writes it.
    pub tid: ItemPointerData,
    /// The bits of the document's score.
    pub bm25: u32,
    pub doc_address: DocAddress,
}

/// Which part of the index is searched.
#[derive(Clone, Copy, Debug, PartialEq)]
pub enum SearchRequest {
    /// All segments, for the given number of documents at most.
    All { limit: Option<usize> },
    /// One segment.
    Segment { segment_id: SegmentId },
}

/// What is looked for.
#[derive(Debug)]
pub enum SearchQueryInput {
    /// A query in the query language, yet to be parsed.
    Parse { query_string: String, lenient: Option<bool>, conjunction_mode: Option<bool> },
    /// Queries combined.
    Boolean {
        must: Vec<SearchQueryInput>,
        should: Vec<SearchQueryInput>,
        must_not: Vec<SearchQueryInput>,
    },
    /// A query of any other form, by its number among the queries that the caller keeps.
    Stored { number: usize },
}

/// The shape of a query.
pub ghost enum QueryTree {
    Parse { query_string: Seq<char>, lenient: Option<bool>, conjunction_mode: Option<bool> },
    Boolean { must: Seq<QueryTree>, should: Seq<QueryTree>, must_not: Seq<QueryTree> },
    Stored { number: usize },
}

impl View for SearchQueryInput {
    type V = QueryTree;

    open spec fn view(&self) -> QueryTree {
        query_tree(*self)
    }
}

/// The shape of `query`.
pub open spec fn query_tree(query: SearchQueryInput) -> QueryTree
    decreases query,
{
    match query {
        SearchQueryInput::Parse { query_string, lenient, conjunction_mode } => QueryTree::Parse {
            query_string: query_string@,
            lenient,
            conjunction_mode,
        },
        SearchQueryInput::Boolean { must, should, must_not } => QueryTree::Boolean {
            must: query_trees(must@),
            should: query_trees(should@),
            must_not: query_trees(must_not@),
        },
        SearchQueryInput::Stored { number } => QueryTree::Stored { number },
    }
}

/// The shapes of `queries`, one by one.
pub open spec fn query_trees(queries: Seq<SearchQueryInput>) -> Seq<QueryTree>
    decreases queries,
{
    if queries.len() == 0 {
        Seq::empty()
    } else {
        query_trees(queries.drop_last()).push(query_tree(queries.last()))
    }
}

/// A condition of an index scan, by the strategy that it came under, with its argument, which is
/// absent where it is null.
#[derive(Debug)]
pub enum ScanKey {
    TextQuery { text: Option<String> },
    SearchQueryInput { query: Option<SearchQueryInput> },
}

impl ScanKey {
    /// The condition has an argument.
    pub open spec fn has_argument(self) -> bool {
        match self {
            ScanKey::TextQuery { text } => text is Some,
            ScanKey::SearchQueryInput { query } => query is Some,
        }
    }

    /// The query that the condition stands for. A text is a query in the query language.
    pub open spec fn query(self) -> QueryTree {
        match self {
            ScanKey::TextQuery { text } => QueryTree::Parse {
                query_string: text->0@,
                lenient: None,
                conjunction_mode: None,
            },
            ScanKey::SearchQueryInput { query } => query->0@,
        }
    }
}

/// The query that the condition `key` stands for.
pub fn key_to_search_query_input(key: ScanKey) -> (query: SearchQueryInput)
    requires
        key.has_argument(),
    ensures
        query@ == key.query(),
{
    match key {
        ScanKey::TextQuery { text } => SearchQueryInput::Parse {
            query_string: text.unwrap(),
            lenient: None,
            conjunction_mode: None,
        },
        ScanKey::SearchQueryInput { query } => query.unwrap(),
    }
}

/// The queries `a` and `b` both have to match.
pub open spec fn both(a: QueryTree, b: QueryTree) -> QueryTree {
    QueryTree::Boolean { must: seq![a, b], should: Seq::empty(), must_not: Seq::empty() }
}

/// The queries joined pair by pair, from the first on.
pub open spec fn conjunction(queries: Seq<QueryTree>) -> QueryTree
    recommends
        queries.len() > 0,
    decreases queries.len(),
{
    if queries.len() <= 1 {
        queries[0]
    } else {
        both(conjunction(queries.drop_last()), queries.last())
    }
}

/// The queries that the conditions `keys` stand for.
pub open spec fn queries_of(keys: Seq<ScanKey>) -> Seq<QueryTree> {
    keys.map_values(|key: ScanKey| key.query())
}

/// The query that the conditions of a scan make up together.
pub fn keys_to_search_query_input(keys: Vec<ScanKey>) -> (query: SearchQueryInput)
    requires
        keys@.len() > 0,
        forall|i: int| 0 <= i < keys@.len() ==> (#[trigger] keys@[i]).has_argument(),
    ensures
        query@ == conjunction(queries_of(keys@)),
{
    let ghost all = keys@;
    let ghost queries = queries_of(keys@);
    let mut rest = keys;
    let mut query = key_to_search_query_input(rest.remove(0));
    let ghost mut done: int = 1;
    while rest.len() > 0
        invariant
            1 <= done <= all.len(),
            rest@ == all.skip(done),
            forall|i: int| 0 <= i < all.len() ==> (#[trigger] all[i]).has_argument(),
            queries == queries_of(all),
            query@ == conjunction(queries.take(done)),
        decreases rest.len(),
    {
        assert(rest@[0] == all[done]);
        let key = key_to_search_query_input(rest.remove(0));
        let ghost pair = seq![query, key];
        query =
        SearchQueryInput::Boolean {
            must: vec![query, key],
            should: Vec::new(),
            must_not: Vec::new(),
        };
        proof {
            assert(queries.take(done + 1).drop_last() == queries.take(done));
            assert(pair.drop_last().drop_last() == Seq::<SearchQueryInput>::empty());
            reveal_with_fuel(query_trees, 3);
            assert(query_trees(pair) == seq![query_tree(pair[0]), query_tree(pair[1])]);
            done = done + 1;
        }
    }
    assert(queries.take(all.len() as int) == queries);
    query
}

/// `matches` takes two queries that both have to match for what they are.
pub open spec fn respects_both(matches: spec_fn(QueryTree) -> bool) -> bool {
    forall|a: QueryTree, b: QueryTree|
        matches(#[trigger] both(a, b)) <==> matches(a) && matches(b)
}

/// The query that the conditions of a scan make up matches exactly what each of them matches.
pub proof fn law_all_keys_have_to_match(keys: Seq<ScanKey>, matches: spec_fn(QueryTree) -> bool)
    requires
        keys.len() > 0,
        respects_both(matches),
    ensures
        matches(conjunction(queries_of(keys))) <==> forall|i: int|
            0 <= i < keys.len() ==> matches((#[trigger] keys[i]).query()),
    decreases keys.len(),
{
    let queries = queries_of(keys);
    if keys.len() == 1 {
        assert(queries[0] == keys[0].query());
    } else {
        let before = keys.drop_last();
        assert(queries.drop_last() == queries_of(before));
        assert(queries.last() == keys.last().query());
        law_all_keys_have_to_match(before, matches);
        assert(matches(both(conjunction(queries_of(before)), keys.last().query()))
            <==> matches(conjunction(queries_of(before))) && matches(keys.last().query()));
        if matches(conjunction(queries)) {
            assert forall|i: int| 0 <= i < keys.len() implies matches(
                (#[trigger] keys[i]).query(),
            ) by {
                if i < before.len() {
                    assert(before[i] == keys[i]);
                }
            }
        }
        if forall|i: int| 0 <= i < keys.len() ==> matches((#[trigger] keys[i]).query()) {
            assert forall|i: int| 0 <= i < before.len() implies matches(
                (#[trigger] before[i]).query(),
            ) by {
                assert(before[i] == keys[i]);
            }
        }
    }
}

/// The `n` queries that `query` joins pair by pair.
pub open spec fn conjuncts(query: QueryTree, n: nat) -> Seq<QueryTree>
    decreases n,
{
    if n <= 1 {
        seq![query]
    } else {
        let must = query->must;
        conjuncts(must[0], (n - 1) as nat).push(must[1])
    }
}

/// No condition of a scan is lost in the query that they make up, and they keep their order.
pub proof fn law_keys_keep_their_order(queries: Seq<QueryTree>)
    requires
        queries.len() > 0,
    ensures
        conjuncts(conjunction(queries), queries.len()) == queries,
    decreases queries.len(),
{
    if queries.len() > 1 {
        law_keys_keep_their_order(queries.drop_last());
    }
}

} // verus!
