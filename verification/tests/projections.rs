use pg_search_scan::node::{Column, Node, NodeTag, Var};
use pg_search_scan::projections::{
    maybe_needs_const_projections, needs_placeholder, placeholder_support, pullout_funcexprs,
    PlaceHolderVar, PlannerRoot, SupportRequest,
};

const SCORE: u32 = 9001;
const SNIPPET: u32 = 9002;
const POSITIONS: u32 = 9003;
const LOWER: u32 = 870;

fn var(id: u64, varno: i32, varattno: i16) -> Var {
    Var { id, varno, varattno, varlevelsup: 0, varnullingrels: None }
}

fn null() -> Node {
    Node { id: 0, tag: NodeTag::Null, children: vec![], var: None, column: None }
}

fn column(id: u64, varno: i32, varattno: i16, name: &str) -> Node {
    let v = var(id, varno, varattno);
    Node {
        id,
        tag: NodeTag::Other,
        children: vec![],
        var: Some(v),
        column: Some(Column { var: v, fieldname: name.to_string() }),
    }
}

fn call(id: u64, funcid: u32, children: Vec<Node>) -> Node {
    Node { id, tag: NodeTag::FuncExpr { funcid }, children, var: None, column: None }
}

fn list(id: u64, children: Vec<Node>) -> Node {
    Node { id, tag: NodeTag::Other, children, var: None, column: None }
}

fn pulled(node: &Node, funcids: &[u32], rti: i32) -> Vec<(u64, u64, String)> {
    pullout_funcexprs(node, funcids, rti)
        .into_iter()
        .map(|m| (m.funcexpr, m.var.id, m.fieldname))
        .collect()
}

#[test]
fn no_node_needs_no_projections() {
    assert!(!maybe_needs_const_projections(&null(), SCORE, SNIPPET, POSITIONS));
}

#[test]
fn each_projected_function_is_found() {
    for funcid in [SCORE, SNIPPET, POSITIONS] {
        let tree = list(1, vec![null(), call(2, LOWER, vec![call(3, funcid, vec![])])]);
        assert!(maybe_needs_const_projections(&tree, SCORE, SNIPPET, POSITIONS));
    }
}

#[test]
fn other_functions_are_not_found() {
    let tree = list(1, vec![call(2, LOWER, vec![column(3, 1, 1, "a")]), column(4, 1, 2, "b")]);
    assert!(!maybe_needs_const_projections(&tree, SCORE, SNIPPET, POSITIONS));
}

#[test]
fn children_of_a_null_place_are_not_looked_at() {
    let mut nowhere = null();
    nowhere.children.push(call(5, SCORE, vec![]));
    assert!(!maybe_needs_const_projections(&nowhere, SCORE, SNIPPET, POSITIONS));
    assert!(pulled(&nowhere, &[SCORE], 1).is_empty());
}

#[test]
fn calls_are_pulled_out_in_order() {
    let tree = list(
        1,
        vec![
            call(2, SNIPPET, vec![column(3, 1, 4, "body")]),
            null(),
            call(4, LOWER, vec![call(5, SCORE, vec![column(6, 1, 1, "id")])]),
        ],
    );
    assert_eq!(
        pulled(&tree, &[SCORE, SNIPPET], 1),
        vec![(2, 3, "body".to_string()), (5, 6, "id".to_string())]
    );
}

#[test]
fn columns_of_other_relations_do_not_match() {
    let tree = list(
        1,
        vec![
            call(2, SCORE, vec![column(3, 2, 1, "id")]),
            call(4, SCORE, vec![column(5, 1, 1, "id")]),
        ],
    );
    assert_eq!(pulled(&tree, &[SCORE], 1), vec![(4, 5, "id".to_string())]);
    assert_eq!(pulled(&tree, &[SCORE], 2), vec![(2, 3, "id".to_string())]);
    assert!(pulled(&tree, &[SCORE], 3).is_empty());
}

#[test]
fn a_call_is_returned_for_each_argument_that_matches() {
    let tree = call(
        1,
        SNIPPET,
        vec![column(2, 1, 1, "a"), list(3, vec![]), column(4, 7, 1, "x"), column(5, 1, 2, "b")],
    );
    assert_eq!(
        pulled(&tree, &[SNIPPET], 1),
        vec![(1, 2, "a".to_string()), (1, 5, "b".to_string())]
    );
}

#[test]
fn calls_below_a_wanted_call_are_found() {
    let tree = call(1, SNIPPET, vec![call(2, SCORE, vec![column(3, 1, 1, "id")])]);
    assert_eq!(pulled(&tree, &[SNIPPET, SCORE], 1), vec![(2, 3, "id".to_string())]);
    assert_eq!(pulled(&tree, &[SCORE], 1), vec![(2, 3, "id".to_string())]);
    assert!(pulled(&tree, &[SNIPPET], 1).is_empty());
}

#[test]
fn a_call_comes_before_those_below_it() {
    let mut inner = call(4, SCORE, vec![column(5, 1, 1, "id"), column(6, 2, 1, "x")]);
    inner.column = Some(Column { var: var(5, 1, 1), fieldname: "id".to_string() });
    let tree = list(
        1,
        vec![
            call(2, SNIPPET, vec![column(3, 1, 2, "body"), inner, column(7, 1, 3, "title")]),
            call(8, SCORE, vec![column(9, 1, 1, "id")]),
        ],
    );
    assert_eq!(
        pulled(&tree, &[SNIPPET, SCORE], 1),
        vec![
            (2, 3, "body".to_string()),
            (2, 5, "id".to_string()),
            (2, 7, "title".to_string()),
            (4, 5, "id".to_string()),
            (8, 9, "id".to_string()),
        ]
    );
}

#[test]
fn no_wanted_functions_no_matches() {
    let tree = call(1, SCORE, vec![column(2, 1, 1, "id")]);
    assert!(pulled(&tree, &[], 1).is_empty());
}

#[test]
fn what_can_be_pulled_out_needs_projections() {
    let tree = list(1, vec![call(2, POSITIONS, vec![column(3, 1, 1, "a")])]);
    assert_eq!(pulled(&tree, &[POSITIONS], 1).len(), 1);
    assert!(maybe_needs_const_projections(&tree, SCORE, SNIPPET, POSITIONS));
}

#[test]
fn a_join_gets_a_placeholder() {
    let request =
        SupportRequest::Simplify { root: Some(PlannerRoot { has_join_rtes: true }), fcall: 77 };
    let v = Var { id: 5, varno: 3, varattno: 1, varlevelsup: 2, varnullingrels: Some(12) };
    assert!(needs_placeholder(&request));
    assert_eq!(
        placeholder_support(&request, &vec![v]),
        Some(PlaceHolderVar { phexpr: 77, phrels: 3, phlevelsup: 2, phnullingrels: Some(12) })
    );
}

#[test]
fn a_server_without_nulling_joins_sets_none() {
    let request =
        SupportRequest::Simplify { root: Some(PlannerRoot { has_join_rtes: true }), fcall: 1 };
    assert_eq!(
        placeholder_support(&request, &vec![var(5, 1, 1)]),
        Some(PlaceHolderVar { phexpr: 1, phrels: 1, phlevelsup: 0, phnullingrels: None })
    );
}

#[test]
fn without_a_join_there_is_no_placeholder() {
    let request =
        SupportRequest::Simplify { root: Some(PlannerRoot { has_join_rtes: false }), fcall: 77 };
    assert!(!needs_placeholder(&request));
    assert_eq!(placeholder_support(&request, &vec![]), None);
    assert_eq!(placeholder_support(&request, &vec![var(5, 1, 1)]), None);
}

#[test]
fn without_a_query_there_is_no_placeholder() {
    let request = SupportRequest::Simplify { root: None, fcall: 77 };
    assert!(!needs_placeholder(&request));
    assert_eq!(placeholder_support(&request, &vec![]), None);
}

#[test]
fn other_requests_get_no_placeholder() {
    assert!(!needs_placeholder(&SupportRequest::Other));
    assert_eq!(placeholder_support(&SupportRequest::Other, &vec![]), None);
}
