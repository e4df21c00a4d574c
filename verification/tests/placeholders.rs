use pg_search_scan::attname::AttnameLookup;
use pg_search_scan::node::{Node, NodeTag, Var};
use pg_search_scan::placeholders::{
    inject_placeholders, Const, ConstRef, InjectedPlaceholders, Projected, SnippetType,
};

const SCORE: u32 = 9001;
const SNIPPET: u32 = 9002;
const POSITIONS: u32 = 9003;
const LOWER: u32 = 870;
const TEXTOID: u32 = 25;
const INT4ARRAYOID: u32 = 1007;

fn leaf(id: u64) -> Node {
    Node { id, tag: NodeTag::Other, children: vec![], var: None, column: None }
}

fn null() -> Node {
    Node { id: 0, tag: NodeTag::Null, children: vec![], var: None, column: None }
}

fn column(id: u64, varno: i32, varattno: i16) -> Node {
    let mut node = leaf(id);
    node.var = Some(Var { id, varno, varattno, varlevelsup: 0, varnullingrels: None });
    node
}

fn call(id: u64, funcid: u32, children: Vec<Node>) -> Node {
    Node { id, tag: NodeTag::FuncExpr { funcid }, children, var: None, column: None }
}

fn list(id: u64, children: Vec<Node>) -> Node {
    Node { id, tag: NodeTag::Other, children, var: None, column: None }
}

fn lookup() -> AttnameLookup {
    let mut lookup = AttnameLookup::new();
    lookup.insert(1, 1, "title".to_string());
    lookup.insert(1, 2, "body".to_string());
    lookup.insert(2, 3, "other".to_string());
    lookup
}

fn snippet_type(field: &str, funcoid: u32, nodeoid: u32) -> SnippetType {
    SnippetType { field: field.to_string(), funcoid, nodeoid }
}

fn types() -> Vec<SnippetType> {
    vec![
        snippet_type("body", POSITIONS, INT4ARRAYOID),
        snippet_type("title", SNIPPET, TEXTOID),
        snippet_type("body", SNIPPET, TEXTOID),
        snippet_type("body", SNIPPET, TEXTOID),
    ]
}

fn inject(tree: &Node, rti: u32, types: &Vec<SnippetType>) -> InjectedPlaceholders {
    inject_placeholders(tree, rti, SCORE, SNIPPET, POSITIONS, &lookup(), types)
}

fn show(projected: &Projected) -> String {
    match projected {
        Projected::Null => "-".to_string(),
        Projected::Const(ConstRef::Score) => "score".to_string(),
        Projected::Const(ConstRef::Snippet(n)) => format!("snippet{}", n),
        Projected::Kept { id, children, .. } => {
            let below: Vec<String> = children.iter().map(show).collect();
            format!("{}({})", id, below.join(" "))
        }
    }
}

fn groups(injected: &InjectedPlaceholders) -> Vec<(usize, Vec<usize>)> {
    let mut all: Vec<(usize, Vec<usize>)> =
        injected.const_snippet_nodes.iter().map(|(k, v)| (*k, v.clone())).collect();
    all.sort();
    all
}

#[test]
fn an_empty_place_stays_empty() {
    let injected = inject(&null(), 1, &types());
    assert_eq!(show(&injected.targetlist), "-");
    assert!(injected.snippet_nodes.is_empty());
    assert!(injected.const_snippet_nodes.is_empty());
}

#[test]
fn the_score_constant_is_a_null_float4() {
    let injected = inject(&leaf(1), 1, &types());
    assert_eq!(
        injected.const_score_node,
        Const {
            consttype: 700,
            consttypmod: -1,
            constcollid: 0,
            constlen: 4,
            constvalue: 0,
            constisnull: true,
            constbyval: true,
        }
    );
}

#[test]
fn a_list_without_calls_stays_as_it_is() {
    let tree = list(1, vec![column(2, 1, 1), null(), call(3, LOWER, vec![column(4, 1, 2)])]);
    let injected = inject(&tree, 1, &types());
    assert_eq!(show(&injected.targetlist), "1(2() - 3(4()))");
    match injected.targetlist {
        Projected::Kept { children, .. } => match &children[2] {
            Projected::Kept { tag, .. } => assert_eq!(*tag, NodeTag::FuncExpr { funcid: LOWER }),
            _ => panic!("the call is gone"),
        },
        _ => panic!("the list is gone"),
    }
    assert!(injected.snippet_nodes.is_empty());
    assert!(injected.const_snippet_nodes.is_empty());
}

#[test]
fn score_calls_share_one_constant() {
    let tree = list(
        1,
        vec![
            call(2, SCORE, vec![column(3, 1, 1)]),
            call(4, LOWER, vec![call(5, SCORE, vec![])]),
        ],
    );
    let injected = inject(&tree, 1, &types());
    assert_eq!(show(&injected.targetlist), "1(score 4(score))");
    assert!(injected.snippet_nodes.is_empty());
}

#[test]
fn snippet_calls_get_constants_of_their_own() {
    let tree = list(
        1,
        vec![
            call(2, SNIPPET, vec![column(3, 1, 2)]),
            call(4, POSITIONS, vec![column(5, 1, 2)]),
            call(6, SCORE, vec![]),
            call(7, SNIPPET, vec![column(8, 1, 1)]),
            call(9, LOWER, vec![call(10, SNIPPET, vec![column(11, 1, 2)])]),
        ],
    );
    let injected = inject(&tree, 1, &types());
    assert_eq!(show(&injected.targetlist), "1(snippet0 snippet1 score snippet2 9(snippet3))");
    let oids: Vec<u32> = injected.snippet_nodes.iter().map(|c| c.consttype).collect();
    assert_eq!(oids, vec![TEXTOID, INT4ARRAYOID, TEXTOID, TEXTOID]);
    assert_eq!(
        injected.snippet_nodes[1],
        Const {
            consttype: INT4ARRAYOID,
            consttypmod: -1,
            constcollid: 100,
            constlen: -1,
            constvalue: 0,
            constisnull: true,
            constbyval: false,
        }
    );
    assert_eq!(groups(&injected), vec![(0, vec![1]), (1, vec![2]), (2, vec![0, 3])]);
}

#[test]
fn the_first_snippet_type_that_serves_is_taken() {
    let tree = call(2, SNIPPET, vec![column(3, 1, 2)]);
    let mut types = types();
    assert_eq!(groups(&inject(&tree, 1, &types)), vec![(2, vec![0])]);
    types.remove(2);
    assert_eq!(groups(&inject(&tree, 1, &types)), vec![(2, vec![0])]);
    types.remove(2);
    let injected = inject(&tree, 1, &types);
    assert_eq!(show(&injected.targetlist), "2(3())");
    assert!(groups(&injected).is_empty());
}

#[test]
fn a_snippet_call_without_arguments_stays() {
    let injected = inject(&call(2, SNIPPET, vec![]), 1, &types());
    assert_eq!(show(&injected.targetlist), "2()");
}

#[test]
fn a_snippet_call_on_no_column_stays_and_is_looked_into() {
    let tree = call(2, SNIPPET, vec![call(3, SCORE, vec![]), column(4, 1, 2)]);
    let injected = inject(&tree, 1, &types());
    assert_eq!(show(&injected.targetlist), "2(score 4())");
}

#[test]
fn a_snippet_call_on_an_unknown_column_stays() {
    let injected = inject(&call(2, SNIPPET, vec![column(3, 1, 9)]), 1, &types());
    assert_eq!(show(&injected.targetlist), "2(3())");
}

#[test]
fn the_column_is_looked_up_under_the_scanned_relation() {
    let tree = call(2, SNIPPET, vec![column(3, 7, 2)]);
    assert_eq!(show(&inject(&tree, 1, &types()).targetlist), "snippet0");
    assert_eq!(show(&inject(&tree, 7, &types()).targetlist), "2(3())");
}

#[test]
fn a_relation_number_out_of_range_wraps() {
    let mut lookup = AttnameLookup::new();
    lookup.insert(-1, 2, "body".to_string());
    let tree = call(2, SNIPPET, vec![column(3, 1, 2)]);
    let injected =
        inject_placeholders(&tree, u32::MAX, SCORE, SNIPPET, POSITIONS, &lookup, &types());
    assert_eq!(show(&injected.targetlist), "snippet0");
}

#[test]
fn a_score_call_wins_over_a_snippet_call() {
    let tree = call(2, SCORE, vec![column(3, 1, 2)]);
    let injected = inject_placeholders(&tree, 1, SCORE, SCORE, POSITIONS, &lookup(), &types());
    assert_eq!(show(&injected.targetlist), "score");
}

#[test]
fn a_later_name_replaces_an_earlier_one() {
    let mut lookup = lookup();
    assert_eq!(lookup.get(1, 2), Some(&"body".to_string()));
    lookup.insert(1, 2, "abstract".to_string());
    assert_eq!(lookup.get(1, 2), Some(&"abstract".to_string()));
    assert_eq!(lookup.get(1, 1), Some(&"title".to_string()));
    assert_eq!(lookup.get(2, 3), Some(&"other".to_string()));
    assert_eq!(lookup.get(2, 1), None);
    assert_eq!(AttnameLookup::new().get(1, 1), None);
}

#[test]
fn the_order_of_snippet_types_changes_no_place() {
    let tree = list(
        1,
        vec![
            call(2, SNIPPET, vec![column(3, 1, 2)]),
            call(4, POSITIONS, vec![column(5, 1, 1)]),
            call(6, POSITIONS, vec![column(7, 1, 2)]),
        ],
    );
    let mut reversed = types();
    reversed.reverse();
    let one = inject(&tree, 1, &types());
    let other = inject(&tree, 1, &reversed);
    assert_eq!(show(&one.targetlist), "1(snippet0 4(5()) snippet1)");
    assert_eq!(show(&other.targetlist), show(&one.targetlist));
    assert_eq!(groups(&one), vec![(0, vec![1]), (2, vec![0])]);
    assert_eq!(groups(&other), vec![(0, vec![0]), (3, vec![1])]);
}

#[test]
fn each_constant_is_listed_once() {
    let calls = (0..6u64).map(|i| {
        let attno = if i % 3 == 0 { 1 } else { 2 };
        call(10 + i, SNIPPET, vec![column(20 + i, 1, attno)])
    });
    let injected = inject(&list(1, calls.collect()), 1, &types());
    let mut listed: Vec<usize> = vec![];
    for (number, consts) in groups(&injected) {
        for c in consts {
            assert_eq!(injected.snippet_nodes[c].consttype, types()[number].nodeoid);
            listed.push(c);
        }
    }
    listed.sort();
    assert_eq!(listed, vec![0, 1, 2, 3, 4, 5]);
    assert_eq!(groups(&injected), vec![(1, vec![0, 3]), (2, vec![1, 2, 4, 5])]);
}
