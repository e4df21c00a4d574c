//! What holds of the query that the conditions of a scan make up.
#![allow(unused_imports)]

use crate::search::{
    conjunction, queries_of, query_tree, query_trees, QueryTree, ScanKey, SearchQueryInput,
};
use vstd::prelude::*;

verus! {

/// `query` is what the condition `key` asks for: a text is to be parsed, with nothing said of how,
/// and a query is taken as it is.
pub open spec fn is_query_of(key: ScanKey, query: QueryTree) -> bool {
    match key {
        ScanKey::TextQuery { text } => query == (QueryTree::Parse {
            query_string: text->0@,
            lenient: None,
            conjunction_mode: None,
        }),
        ScanKey::SearchQueryInput { query: asked } => query == query_tree(asked->0),
    }
}

/// A condition has an argument exactly if it is not null.
pub proof fn law_null_is_no_argument(text: Option<String>, query: Option<SearchQueryInput>)
    ensures
        (ScanKey::TextQuery { text }).has_argument() <==> text is Some,
        (ScanKey::SearchQueryInput { query }).has_argument() <==> query is Some,
{
}

/// One condition alone is the query. One more condition makes a query of two parts that both have
/// to match, what the conditions before it make up and the condition itself, and of nothing else.
pub proof fn law_each_key_has_to_match_too(keys: Seq<ScanKey>)
    requires
        keys.len() > 0,
    ensures
        keys.len() == 1 ==> is_query_of(keys[0], conjunction(queries_of(keys))),
        keys.len() > 1 ==> {
            &&& conjunction(queries_of(keys)) matches QueryTree::Boolean { must, should, must_not }
            &&& must.len() == 2
            &&& must[0] == conjunction(queries_of(keys.drop_last()))
            &&& is_query_of(keys.last(), must[1])
            &&& should.len() == 0
            &&& must_not.len() == 0
        },
{
    if keys.len() > 1 {
        assert(queries_of(keys).drop_last() == queries_of(keys.drop_last()));
    }
}

/// `matches` takes a query of several parts for what it is: the parts that must match do, those
/// that must not do not, and those that should need not.
pub open spec fn respects_parts(matches: spec_fn(QueryTree) -> bool) -> bool {
    forall|must: Seq<QueryTree>, should: Seq<QueryTree>, must_not: Seq<QueryTree>|
        must.len() > 0 ==> (#[trigger] matches(QueryTree::Boolean { must, should, must_not }) <==> {
            &&& forall|i: int| 0 <= i < must.len() ==> matches(#[trigger] must[i])
            &&& forall|i: int| 0 <= i < must_not.len() ==> !matches(#[trigger] must_not[i])
        })
}

/// `matches` holds of what the condition `key` asks for.
pub open spec fn meets(matches: spec_fn(QueryTree) -> bool, key: ScanKey) -> bool {
    match key {
        ScanKey::TextQuery { text } => matches(
            QueryTree::Parse { query_string: text->0@, lenient: None, conjunction_mode: None },
        ),
        ScanKey::SearchQueryInput { query } => matches(query_tree(query->0)),
    }
}

/// A document is found exactly if it meets each condition of the scan.
pub proof fn law_found_is_what_meets_all_keys(
    keys: Seq<ScanKey>,
    matches: spec_fn(QueryTree) -> bool,
)
    requires
        keys.len() > 0,
        respects_parts(matches),
    ensures
        matches(conjunction(queries_of(keys))) <==> forall|i: int|
            0 <= i < keys.len() ==> meets(matches, #[trigger] keys[i]),
    decreases keys.len(),
{
    law_each_key_has_to_match_too(keys);
    if keys.len() > 1 {
        let before = keys.drop_last();
        law_found_is_what_meets_all_keys(before, matches);
        let query = conjunction(queries_of(keys));
        let must = query->must;
        let (should, must_not) = (query->should, query->must_not);
        assert(query == QueryTree::Boolean { must, should, must_not });
        assert(matches(QueryTree::Boolean { must, should, must_not }) <==> matches(must[0])
            && matches(must[1]));
        assert forall|i: int| 0 <= i < before.len() implies #[trigger] keys[i] == before[i] by {}
        if forall|i: int| 0 <= i < keys.len() ==> meets(matches, #[trigger] keys[i]) {
            assert forall|i: int| 0 <= i < before.len() implies meets(
                matches,
                #[trigger] before[i],
            ) by {
                assert(keys[i] == before[i]);
            }
            assert(meets(matches, keys[keys.len() - 1]));
        }
        if matches(query) {
            assert forall|i: int| 0 <= i < keys.len() implies meets(
                matches,
                #[trigger] keys[i],
            ) by {
                if i < before.len() {
                    assert(before[i] == keys[i]);
                }
            }
        }
    }
}

/// What is said of a query is what it holds, part by part.
pub proof fn law_query_is_seen_as_it_is(query: SearchQueryInput, all: Seq<SearchQueryInput>)
    ensures
        query matches SearchQueryInput::Parse { query_string, lenient, conjunction_mode }
            ==> query_tree(query) == (QueryTree::Parse {
            query_string: query_string@,
            lenient,
            conjunction_mode,
        }),
        query matches SearchQueryInput::Boolean { must, should, must_not } ==> query_tree(query)
            == (QueryTree::Boolean {
            must: query_trees(must@),
            should: query_trees(should@),
            must_not: query_trees(must_not@),
        }),
        query matches SearchQueryInput::Stored { number } ==> query_tree(query) == (
        QueryTree::Stored { number }),
        query_trees(all).len() == all.len(),
        forall|i: int| 0 <= i < all.len() ==> #[trigger] query_trees(all)[i] == query_tree(all[i]),
    decreases all.len(),
{
    if all.len() > 0 {
        let before = all.drop_last();
        law_query_is_seen_as_it_is(query, before);
        assert forall|i: int| 0 <= i < all.len() implies #[trigger] query_trees(all)[i]
            == query_tree(all[i]) by {
            if i < before.len() {
                assert(query_trees(all)[i] == query_trees(before)[i]);
            }
        }
    }
}

} // verus!
