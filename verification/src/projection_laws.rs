//! What holds of the rewriting of target lists as a whole.
#![allow(unused_imports)]

use crate::catalog::{Oid, Varno};
use crate::node::{contains_call, preorder, preorder_all, Node, NodeTag};
use crate::placeholders::{
    as_ints, first_serving, groups_positions, positions, serves, PlaceholderRules, ProjectedTree,
    SnippetType,
};
use crate::projections::{
    argument_matches, is_column_of, match_of, matches_in, matches_in_all, FuncExprMatchView,
};
use vstd::prelude::*;

verus! {

/// `m` comes from the node `call`: it calls one of `funcids`, and one of its arguments is the
/// column of `rti` that `m` names.
pub open spec fn is_match_of(
    m: FuncExprMatchView,
    call: Node,
    funcids: Seq<Oid>,
    rti: i32,
) -> bool {
    &&& call.calls_one_of(funcids)
    &&& exists|i: int|
        0 <= i < call.children@.len() && is_column_of(#[trigger] call.children@[i], rti) && m
            == match_of(call.id, call.children@[i])
}

/// Every match that is pulled out of a tree names a call in that tree of a wanted function, and
/// an argument of that call which is a column of the wanted relation.
pub proof fn law_matches_are_calls_on_columns(
    node: Node,
    funcids: Seq<Oid>,
    rti: i32,
    m: FuncExprMatchView,
)
    requires
        matches_in(node, funcids, rti).contains(m),
    ensures
        m.var.varno == rti,
        exists|i: int|
            0 <= i < preorder(node).len() && is_match_of(
                m,
                #[trigger] preorder(node)[i],
                funcids,
                rti,
            ),
    decreases node,
{
    let below = preorder_all(node.children@);
    let own = argument_matches(node.id, node.children@, rti);
    let at = matches_in(node, funcids, rti).index_of(m);
    if node.calls_one_of(funcids) && at < own.len() {
        let args = node.children@;
        let wanted = args.filter(|arg: Node| is_column_of(arg, rti));
        let arg = wanted[at];
        assert(own[at] == m);
        args.lemma_filter_contains_rev(|arg: Node| is_column_of(arg, rti), arg);
        let i = args.index_of(arg);
        assert(is_column_of(args[i], rti) && m == match_of(node.id, args[i]));
        assert(preorder(node)[0] == node);
        assert(is_match_of(m, preorder(node)[0], funcids, rti));
    } else {
        let rest = matches_in_all(node.children@, funcids, rti);
        if node.calls_one_of(funcids) {
            assert(rest[at - own.len()] == m);
        }
        lemma_matches_in_all(node.children@, funcids, rti, m);
        let i = choose|i: int|
            0 <= i < below.len() && is_match_of(m, #[trigger] below[i], funcids, rti);
        assert(preorder(node)[i + 1] == below[i]);
    }
}

proof fn lemma_matches_in_all(nodes: Seq<Node>, funcids: Seq<Oid>, rti: i32, m: FuncExprMatchView)
    requires
        matches_in_all(nodes, funcids, rti).contains(m),
    ensures
        m.var.varno == rti,
        exists|i: int|
            0 <= i < preorder_all(nodes).len() && is_match_of(
                m,
                #[trigger] preorder_all(nodes)[i],
                funcids,
                rti,
            ),
    decreases nodes,
{
    let before = matches_in_all(nodes.drop_last(), funcids, rti);
    let at = matches_in_all(nodes, funcids, rti).index_of(m);
    let walked = preorder_all(nodes.drop_last());
    if at < before.len() {
        assert(before[at] == m);
        lemma_matches_in_all(nodes.drop_last(), funcids, rti, m);
        let i = choose|i: int|
            0 <= i < walked.len() && is_match_of(m, #[trigger] walked[i], funcids, rti);
        assert(preorder_all(nodes)[i] == walked[i]);
    } else {
        let last = matches_in(nodes.last(), funcids, rti);
        assert(last[at - before.len()] == m);
        law_matches_are_calls_on_columns(nodes.last(), funcids, rti, m);
        let here = preorder(nodes.last());
        let i = choose|i: int|
            0 <= i < here.len() && is_match_of(m, #[trigger] here[i], funcids, rti);
        assert(preorder_all(nodes)[walked.len() + i] == here[i]);
    }
}

/// Where calls of some functions can be pulled out of a tree, the tree needs constants projected
/// for these functions.
pub proof fn law_matches_need_projections(
    node: Node,
    funcids: Seq<Oid>,
    rti: i32,
    projected: Seq<Oid>,
)
    requires
        forall|funcid: Oid| #[trigger] funcids.contains(funcid) ==> projected.contains(funcid),
        matches_in(node, funcids, rti).len() > 0,
    ensures
        contains_call(node, projected),
{
    let m = matches_in(node, funcids, rti)[0];
    assert(matches_in(node, funcids, rti).contains(m));
    law_matches_are_calls_on_columns(node, funcids, rti, m);
    let i = choose|i: int|
        0 <= i < preorder(node).len() && is_match_of(m, #[trigger] preorder(node)[i], funcids, rti);
    assert(preorder(node)[i].calls_one_of(projected));
}

/// Those of `nodes` that call one of `funcids`, in their order.
pub open spec fn wanted_calls(nodes: Seq<Node>, funcids: Seq<Oid>) -> Seq<Node> {
    nodes.filter(|n: Node| n.calls_one_of(funcids))
}

/// The matches of `calls`, call by call.
pub open spec fn matches_of_calls(calls: Seq<Node>, rti: i32) -> Seq<FuncExprMatchView>
    decreases calls.len(),
{
    if calls.len() == 0 {
        Seq::empty()
    } else {
        matches_of_calls(calls.drop_last(), rti) + argument_matches(
            calls.last().id,
            calls.last().children@,
            rti,
        )
    }
}

/// All calls of wanted functions in a tree are pulled out, also those below another, in the order
/// of a walk over the tree; none is passed over, and none is taken twice.
pub proof fn law_every_wanted_call_is_pulled_out(node: Node, funcids: Seq<Oid>, rti: i32)
    ensures
        matches_in(node, funcids, rti) == matches_of_calls(
            wanted_calls(preorder(node), funcids),
            rti,
        ),
    decreases node,
{
    reveal(Seq::filter);
    if node.tag !is Null {
        let below = preorder_all(node.children@);
        lemma_every_wanted_call_all(node.children@, funcids, rti);
        lemma_wanted_calls_add(seq![node], below, funcids);
        lemma_wanted_calls_one(node, funcids);
        lemma_matches_of_calls_add(
            wanted_calls(seq![node], funcids),
            wanted_calls(below, funcids),
            rti,
        );
        lemma_matches_of_one_call(node, rti);
    }
}

proof fn lemma_every_wanted_call_all(nodes: Seq<Node>, funcids: Seq<Oid>, rti: i32)
    ensures
        matches_in_all(nodes, funcids, rti) == matches_of_calls(
            wanted_calls(preorder_all(nodes), funcids),
            rti,
        ),
    decreases nodes,
{
    reveal(Seq::filter);
    if nodes.len() > 0 {
        let before = preorder_all(nodes.drop_last());
        let here = preorder(nodes.last());
        lemma_every_wanted_call_all(nodes.drop_last(), funcids, rti);
        law_every_wanted_call_is_pulled_out(nodes.last(), funcids, rti);
        lemma_wanted_calls_add(before, here, funcids);
        lemma_matches_of_calls_add(
            wanted_calls(before, funcids),
            wanted_calls(here, funcids),
            rti,
        );
    }
}

proof fn lemma_wanted_calls_add(a: Seq<Node>, b: Seq<Node>, funcids: Seq<Oid>)
    ensures
        wanted_calls(a + b, funcids) == wanted_calls(a, funcids) + wanted_calls(b, funcids),
    decreases b.len(),
{
    reveal(Seq::filter);
    if b.len() == 0 {
        assert(a + b == a);
    } else {
        assert((a + b).drop_last() == a + b.drop_last());
        lemma_wanted_calls_add(a, b.drop_last(), funcids);
    }
}

proof fn lemma_wanted_calls_one(node: Node, funcids: Seq<Oid>)
    ensures
        wanted_calls(seq![node], funcids) == if node.calls_one_of(funcids) {
            seq![node]
        } else {
            Seq::empty()
        },
{
    reveal_with_fuel(Seq::filter, 2);
    assert(seq![node].drop_last() == Seq::<Node>::empty());
}

proof fn lemma_matches_of_one_call(call: Node, rti: i32)
    ensures
        matches_of_calls(seq![call], rti) == argument_matches(call.id, call.children@, rti),
{
    reveal_with_fuel(matches_of_calls, 2);
    assert(seq![call].drop_last() == Seq::<Node>::empty());
}

proof fn lemma_matches_of_calls_add(a: Seq<Node>, b: Seq<Node>, rti: i32)
    ensures
        matches_of_calls(a + b, rti) == matches_of_calls(a, rti) + matches_of_calls(b, rti),
    decreases b.len(),
{
    if b.len() == 0 {
        assert(a + b == a);
    } else {
        assert((a + b).drop_last() == a + b.drop_last());
        lemma_matches_of_calls_add(a, b.drop_last(), rti);
    }
}

/// The matches of the wanted calls before and after the `k`th node of a walk, and its own.
proof fn lemma_matches_around(nodes: Seq<Node>, funcids: Seq<Oid>, rti: i32, k: int)
    requires
        0 <= k < nodes.len(),
        nodes[k].calls_one_of(funcids),
    ensures
        matches_of_calls(wanted_calls(nodes, funcids), rti) == matches_of_calls(
            wanted_calls(nodes.take(k), funcids),
            rti,
        ) + argument_matches(nodes[k].id, nodes[k].children@, rti) + matches_of_calls(
            wanted_calls(nodes.skip(k + 1), funcids),
            rti,
        ),
{
    let before = nodes.take(k);
    let call = nodes[k];
    let after = nodes.skip(k + 1);
    assert(nodes == before + seq![call] + after);
    lemma_wanted_calls_add(before + seq![call], after, funcids);
    lemma_wanted_calls_add(before, seq![call], funcids);
    lemma_wanted_calls_one(call, funcids);
    lemma_matches_of_calls_add(
        wanted_calls(before, funcids) + seq![call],
        wanted_calls(after, funcids),
        rti,
    );
    lemma_matches_of_calls_add(wanted_calls(before, funcids), seq![call], rti);
    lemma_matches_of_one_call(call, rti);
}

/// Every column of the wanted relation among the arguments of a wanted call is found, wherever in
/// the tree the call stands.
pub proof fn law_every_matching_argument_is_found(
    node: Node,
    funcids: Seq<Oid>,
    rti: i32,
    k: int,
    i: int,
)
    requires
        0 <= k < preorder(node).len(),
        preorder(node)[k].calls_one_of(funcids),
        0 <= i < preorder(node)[k].children@.len(),
        is_column_of(preorder(node)[k].children@[i], rti),
    ensures
        matches_in(node, funcids, rti).contains(
            match_of(preorder(node)[k].id, preorder(node)[k].children@[i]),
        ),
{
    let call = preorder(node)[k];
    let args = call.children@;
    law_every_wanted_call_is_pulled_out(node, funcids, rti);
    lemma_matches_around(preorder(node), funcids, rti, k);
    args.lemma_filter_contains(|arg: Node| is_column_of(arg, rti), i);
    let at = args.filter(|arg: Node| is_column_of(arg, rti)).index_of(args[i]);
    let own = argument_matches(call.id, args, rti);
    assert(own[at] == match_of(call.id, args[i]));
    let before = matches_of_calls(wanted_calls(preorder(node).take(k), funcids), rti);
    assert(matches_in(node, funcids, rti)[before.len() + at] == own[at]);
}

/// The matches among `matches` whose call is the node `id`.
pub open spec fn matches_at(matches: Seq<FuncExprMatchView>, id: u64) -> Seq<FuncExprMatchView> {
    matches.filter(|m: FuncExprMatchView| m.funcexpr == id)
}

/// A call with several arguments that match is returned once for each: in a tree with no other
/// node of the same name, the matches whose call is this one are one per matching argument.
pub proof fn law_one_match_per_argument(node: Node, funcids: Seq<Oid>, rti: i32, k: int)
    requires
        0 <= k < preorder(node).len(),
        preorder(node)[k].calls_one_of(funcids),
        forall|j: int|
            0 <= j < preorder(node).len() && j != k ==> (#[trigger] preorder(node)[j]).id
                != preorder(node)[k].id,
    ensures
        ({
            let call = preorder(node)[k];
            let own = matches_at(matches_in(node, funcids, rti), call.id);
            &&& own == argument_matches(call.id, call.children@, rti)
            &&& own.len() == call.children@.filter(|arg: Node| is_column_of(arg, rti)).len()
        }),
{
    let nodes = preorder(node);
    let call = nodes[k];
    let before = matches_of_calls(wanted_calls(nodes.take(k), funcids), rti);
    let own = argument_matches(call.id, call.children@, rti);
    let after = matches_of_calls(wanted_calls(nodes.skip(k + 1), funcids), rti);
    law_every_wanted_call_is_pulled_out(node, funcids, rti);
    lemma_matches_around(nodes, funcids, rti, k);
    assert forall|j: int| 0 <= j < nodes.take(k).len() implies (#[trigger] nodes.take(k)[j]).id
        != call.id by {
        assert(nodes[j].id != call.id);
    }
    assert forall|j: int| 0 <= j < nodes.skip(k + 1).len() implies (#[trigger] nodes.skip(
        k + 1,
    )[j]).id != call.id by {
        assert(nodes[k + 1 + j].id != call.id);
    }
    lemma_matches_elsewhere(nodes.take(k), funcids, rti, call.id);
    lemma_matches_elsewhere(nodes.skip(k + 1), funcids, rti, call.id);
    lemma_matches_at_add(before + own, after, call.id);
    lemma_matches_at_add(before, own, call.id);
    lemma_all_matches_at(own, call.id);
}

proof fn lemma_matches_at_add(a: Seq<FuncExprMatchView>, b: Seq<FuncExprMatchView>, id: u64)
    ensures
        matches_at(a + b, id) == matches_at(a, id) + matches_at(b, id),
    decreases b.len(),
{
    reveal(Seq::filter);
    if b.len() == 0 {
        assert(a + b == a);
    } else {
        assert((a + b).drop_last() == a + b.drop_last());
        lemma_matches_at_add(a, b.drop_last(), id);
    }
}

/// Matches that are all of one call are all kept for it, and none of them for another.
proof fn lemma_all_matches_at(matches: Seq<FuncExprMatchView>, id: u64)
    ensures
        (forall|i: int| 0 <= i < matches.len() ==> (#[trigger] matches[i]).funcexpr == id)
            ==> matches_at(matches, id) == matches,
        (forall|i: int| 0 <= i < matches.len() ==> (#[trigger] matches[i]).funcexpr != id)
            ==> matches_at(matches, id) == Seq::<FuncExprMatchView>::empty(),
    decreases matches.len(),
{
    reveal(Seq::filter);
    if matches.len() > 0 {
        let before = matches.drop_last();
        lemma_all_matches_at(before, id);
        assert forall|i: int| 0 <= i < before.len() implies #[trigger] before[i] == matches[i] by {}
        assert(matches == before.push(matches.last()));
    }
}

/// Nodes of other names give no match whose call is `id`.
proof fn lemma_matches_elsewhere(nodes: Seq<Node>, funcids: Seq<Oid>, rti: i32, id: u64)
    requires
        forall|j: int| 0 <= j < nodes.len() ==> (#[trigger] nodes[j]).id != id,
    ensures
        matches_at(matches_of_calls(wanted_calls(nodes, funcids), rti), id) == Seq::<
            FuncExprMatchView,
        >::empty(),
    decreases nodes.len(),
{
    reveal(Seq::filter);
    if nodes.len() > 0 {
        let before = nodes.drop_last();
        let last = nodes.last();
        lemma_matches_elsewhere(before, funcids, rti, id);
        assert(nodes == before + seq![last]);
        lemma_wanted_calls_add(before, seq![last], funcids);
        lemma_wanted_calls_one(last, funcids);
        if last.calls_one_of(funcids) {
            let sofar = matches_of_calls(wanted_calls(before, funcids), rti);
            let own = argument_matches(last.id, last.children@, rti);
            lemma_matches_of_calls_add(wanted_calls(before, funcids), seq![last], rti);
            lemma_matches_of_one_call(last, rti);
            lemma_matches_at_add(sofar, own, id);
            lemma_all_matches_at(own, id);
        } else {
            assert(wanted_calls(nodes, funcids) == wanted_calls(before, funcids));
        }
    }
}

/// The tree `node` as it is.
pub open spec fn unchanged(node: Node) -> ProjectedTree
    decreases node,
{
    if node.tag is Null {
        ProjectedTree::Null
    } else {
        ProjectedTree::Kept {
            id: node.id,
            tag: node.tag,
            children: unchanged_all(node.children@),
        }
    }
}

/// The trees `nodes` as they are.
pub open spec fn unchanged_all(nodes: Seq<Node>) -> Seq<ProjectedTree>
    decreases nodes,
{
    if nodes.len() == 0 {
        Seq::empty()
    } else {
        unchanged_all(nodes.drop_last()).push(unchanged(nodes.last()))
    }
}

/// The functions whose calls constants can take the place of.
pub open spec fn projected_functions(rules: PlaceholderRules) -> Seq<Oid> {
    seq![rules.score_funcoid, rules.snippet_funcoid, rules.snippet_positions_funcoid]
}

/// A target list that needs no constants projected stays as it is, and no constant is made.
pub proof fn law_nothing_needed_nothing_changed(rules: PlaceholderRules, node: Node, next: int)
    requires
        !contains_call(node, projected_functions(rules)),
    ensures
        rules.project(node, next) == unchanged(node),
        rules.made(node) == Seq::<int>::empty(),
    decreases node,
{
    if node.tag !is Null {
        let below = preorder_all(node.children@);
        assert(preorder(node)[0] == node);
        assert(!preorder(node)[0].calls_one_of(projected_functions(rules)));
        assert(projected_functions(rules)[0] == rules.score_funcoid);
        assert(projected_functions(rules)[1] == rules.snippet_funcoid);
        assert(projected_functions(rules)[2] == rules.snippet_positions_funcoid);
        assert(rules.replacement(node) is Keep);
        assert forall|i: int| 0 <= i < below.len() implies !(#[trigger] below[i]).calls_one_of(
            projected_functions(rules),
        ) by {
            assert(preorder(node)[i + 1] == below[i]);
        }
        lemma_nothing_changed_all(rules, node.children@, next);
    }
}

proof fn lemma_nothing_changed_all(rules: PlaceholderRules, nodes: Seq<Node>, next: int)
    requires
        forall|i: int|
            0 <= i < preorder_all(nodes).len() ==> !(#[trigger] preorder_all(
                nodes,
            )[i]).calls_one_of(projected_functions(rules)),
    ensures
        rules.project_all(nodes, next) == unchanged_all(nodes),
        rules.made_all(nodes) == Seq::<int>::empty(),
    decreases nodes,
{
    if nodes.len() > 0 {
        let walked = preorder_all(nodes.drop_last());
        let here = preorder(nodes.last());
        assert forall|i: int| 0 <= i < walked.len() implies !(#[trigger] walked[i]).calls_one_of(
            projected_functions(rules),
        ) by {
            assert(preorder_all(nodes)[i] == walked[i]);
        }
        assert forall|i: int| 0 <= i < here.len() implies !(#[trigger] here[i]).calls_one_of(
            projected_functions(rules),
        ) by {
            assert(preorder_all(nodes)[walked.len() + i] == here[i]);
        }
        lemma_nothing_changed_all(rules, nodes.drop_last(), next);
        law_nothing_needed_nothing_changed(rules, nodes.last(), next);
    }
}

/// The snippet constants in the tree `tree`, in the order of a walk.
pub open spec fn snippets_in(tree: ProjectedTree) -> Seq<int>
    decreases tree,
{
    match tree {
        ProjectedTree::Snippet(number) => seq![number],
        ProjectedTree::Kept { children, .. } => snippets_in_all(children),
        _ => Seq::empty(),
    }
}

/// The snippet constants in the trees `trees`, tree by tree.
pub open spec fn snippets_in_all(trees: Seq<ProjectedTree>) -> Seq<int>
    decreases trees,
{
    if trees.len() == 0 {
        Seq::empty()
    } else {
        snippets_in_all(trees.drop_last()) + snippets_in(trees.last())
    }
}

/// The `count` numbers from `first` on.
pub open spec fn numbers_from(first: int, count: nat) -> Seq<int> {
    Seq::new(count, |i: int| first + i)
}

/// Each snippet constant stands at one place of the rewritten target list, and they stand there
/// in the order in which they were made.
pub proof fn law_snippets_stand_in_order(rules: PlaceholderRules, node: Node, next: int)
    ensures
        snippets_in(rules.project(node, next)) == numbers_from(next, rules.made(node).len()),
    decreases node,
{
    if rules.replacement(node) is Keep && node.tag !is Null {
        lemma_snippets_stand_in_order_all(rules, node.children@, next);
    }
}

proof fn lemma_snippets_stand_in_order_all(rules: PlaceholderRules, nodes: Seq<Node>, next: int)
    ensures
        snippets_in_all(rules.project_all(nodes, next)) == numbers_from(
            next,
            rules.made_all(nodes).len(),
        ),
    decreases nodes,
{
    if nodes.len() > 0 {
        let before = nodes.drop_last();
        let made = rules.made_all(before).len();
        lemma_snippets_stand_in_order_all(rules, before, next);
        law_snippets_stand_in_order(rules, nodes.last(), next + made);
        assert(rules.project_all(nodes, next).drop_last() == rules.project_all(before, next));
    }
}

/// `tree` keeps a node under the name `id` with the tag `tag`.
pub open spec fn keeps(tree: ProjectedTree, id: u64, tag: NodeTag) -> bool
    decreases tree,
{
    match tree {
        ProjectedTree::Kept { id: kept, tag: kept_tag, children } => (kept == id && kept_tag == tag)
            || keeps_in_all(children, id, tag),
        _ => false,
    }
}

/// One of `trees` keeps a node under the name `id` with the tag `tag`.
pub open spec fn keeps_in_all(trees: Seq<ProjectedTree>, id: u64, tag: NodeTag) -> bool
    decreases trees,
{
    trees.len() > 0 && (keeps_in_all(trees.drop_last(), id, tag) || keeps(trees.last(), id, tag))
}

/// A node that is left in the rewritten target list is a node of the list as it was which no
/// constant can take the place of.
pub proof fn law_kept_nodes_are_not_replaced(
    rules: PlaceholderRules,
    node: Node,
    next: int,
    id: u64,
    tag: NodeTag,
)
    requires
        keeps(rules.project(node, next), id, tag),
    ensures
        exists|i: int|
            0 <= i < preorder(node).len() && (#[trigger] preorder(node)[i]).id == id && preorder(
                node,
            )[i].tag == tag && rules.replacement(preorder(node)[i]) is Keep,
    decreases node,
{
    if node.id == id && node.tag == tag {
        assert(preorder(node)[0] == node);
    } else {
        lemma_kept_nodes_all(rules, node.children@, next, id, tag);
        let below = preorder_all(node.children@);
        let i = choose|i: int|
            0 <= i < below.len() && (#[trigger] below[i]).id == id && below[i].tag == tag
                && rules.replacement(below[i]) is Keep;
        assert(preorder(node)[i + 1] == below[i]);
    }
}

proof fn lemma_kept_nodes_all(
    rules: PlaceholderRules,
    nodes: Seq<Node>,
    next: int,
    id: u64,
    tag: NodeTag,
)
    requires
        keeps_in_all(rules.project_all(nodes, next), id, tag),
    ensures
        exists|i: int|
            0 <= i < preorder_all(nodes).len() && (#[trigger] preorder_all(nodes)[i]).id == id
                && preorder_all(nodes)[i].tag == tag && rules.replacement(
                preorder_all(nodes)[i],
            ) is Keep,
    decreases nodes,
{
    if nodes.len() > 0 {
        let before = nodes.drop_last();
        let walked = preorder_all(before);
        let at = next + rules.made_all(before).len();
        assert(rules.project_all(nodes, next).drop_last() == rules.project_all(before, next));
        if keeps_in_all(rules.project_all(before, next), id, tag) {
            lemma_kept_nodes_all(rules, before, next, id, tag);
            let i = choose|i: int|
                0 <= i < walked.len() && (#[trigger] walked[i]).id == id && walked[i].tag == tag
                    && rules.replacement(walked[i]) is Keep;
            assert(preorder_all(nodes)[i] == walked[i]);
        } else {
            law_kept_nodes_are_not_replaced(rules, nodes.last(), at, id, tag);
            let here = preorder(nodes.last());
            let i = choose|i: int|
                0 <= i < here.len() && (#[trigger] here[i]).id == id && here[i].tag == tag
                    && rules.replacement(here[i]) is Keep;
            assert(preorder_all(nodes)[walked.len() + i] == here[i]);
        }
    }
}

/// No score call is left in the rewritten target list.
pub proof fn law_no_score_call_is_left(rules: PlaceholderRules, node: Node, next: int, id: u64)
    ensures
        !keeps(
            rules.project(node, next),
            id,
            NodeTag::FuncExpr { funcid: rules.score_funcoid },
        ),
{
    let tag = NodeTag::FuncExpr { funcid: rules.score_funcoid };
    if keeps(rules.project(node, next), id, tag) {
        law_kept_nodes_are_not_replaced(rules, node, next, id, tag);
    }
}

/// Each snippet constant is listed under the snippet type that it was made for, and under no
/// other.
pub proof fn law_snippets_are_listed_by_type(
    groups: Map<usize, Vec<usize>>,
    made: Seq<int>,
    constant: usize,
    number: usize,
)
    requires
        groups_positions(groups, made),
        constant < made.len(),
    ensures
        (groups.contains_key(number) && groups[number]@.contains(constant))
            <==> made[constant as int] == number,
{
    lemma_positions(made, number as int, constant as int);
    if made[constant as int] == number {
        assert(made.contains(number as int));
        assert(groups.contains_key(number));
        let listed = as_ints(groups[number]@);
        let i = listed.index_of(constant as int);
        assert(groups[number]@[i] == constant);
    }
    if groups.contains_key(number) && groups[number]@.contains(constant) {
        let i = groups[number]@.index_of(constant);
        assert(as_ints(groups[number]@)[i] == constant);
    }
}

/// A position is listed for a number exactly where the number stands at it.
proof fn lemma_positions(numbers: Seq<int>, number: int, position: int)
    ensures
        positions(numbers, number).contains(position) <==> 0 <= position < numbers.len()
            && numbers[position] == number,
    decreases numbers.len(),
{
    if numbers.len() > 0 {
        let before = positions(numbers.drop_last(), number);
        lemma_positions(numbers.drop_last(), number, position);
        if numbers.last() == number {
            let all = before.push(numbers.len() - 1);
            if before.contains(position) {
                assert(all[before.index_of(position)] == position);
            }
            if position == numbers.len() - 1 {
                assert(all[before.len() as int] == position);
            }
            if all.contains(position) && position != numbers.len() - 1 {
                assert(before[all.index_of(position)] == position);
            }
        }
    }
}

/// The two sets of rules differ at most in the order of the snippet types.
pub open spec fn differ_in_order(a: PlaceholderRules, b: PlaceholderRules) -> bool {
    &&& b == PlaceholderRules { snippet_types: b.snippet_types, ..a }
    &&& forall|t: SnippetType|
        #[trigger] a.snippet_types.contains(t) <==> b.snippet_types.contains(t)
}

/// In which order the snippet types are tried changes neither the rewritten target list nor how
/// many constants are made.
pub proof fn law_order_of_snippet_types_is_free(
    a: PlaceholderRules,
    b: PlaceholderRules,
    node: Node,
    next: int,
)
    requires
        differ_in_order(a, b),
    ensures
        a.project(node, next) == b.project(node, next),
        a.made(node).len() == b.made(node).len(),
    decreases node,
{
    if let NodeTag::FuncExpr { funcid } = node.tag {
        if node.children@.len() > 0 && node.children@[0].var is Some {
            let column = (a.rti as Varno, node.children@[0].var->0.varattno);
            lemma_order_of_types(a, b, a.attnames[column], funcid);
        }
    }
    if node.tag !is Null {
        lemma_order_is_free_all(a, b, node.children@, next);
    }
}

proof fn lemma_order_is_free_all(
    a: PlaceholderRules,
    b: PlaceholderRules,
    nodes: Seq<Node>,
    next: int,
)
    requires
        differ_in_order(a, b),
    ensures
        a.project_all(nodes, next) == b.project_all(nodes, next),
        a.made_all(nodes).len() == b.made_all(nodes).len(),
    decreases nodes,
{
    if nodes.len() > 0 {
        let before = nodes.drop_last();
        lemma_order_is_free_all(a, b, before, next);
        law_order_of_snippet_types_is_free(a, b, nodes.last(), next + a.made_all(before).len());
    }
}

proof fn lemma_order_of_types(
    a: PlaceholderRules,
    b: PlaceholderRules,
    field: Seq<char>,
    funcid: Oid,
)
    requires
        differ_in_order(a, b),
    ensures
        first_serving(a.snippet_types, field, funcid) is Some <==> first_serving(
            b.snippet_types,
            field,
            funcid,
        ) is Some,
{
    lemma_first_serving(a.snippet_types, field, funcid);
    lemma_first_serving(b.snippet_types, field, funcid);
    if first_serving(a.snippet_types, field, funcid) is Some {
        let t = a.snippet_types[first_serving(a.snippet_types, field, funcid)->0];
        assert(a.snippet_types.contains(t));
        let k = b.snippet_types.index_of(t);
        assert(serves(b.snippet_types[k], field, funcid));
    }
    if first_serving(b.snippet_types, field, funcid) is Some {
        let t = b.snippet_types[first_serving(b.snippet_types, field, funcid)->0];
        assert(b.snippet_types.contains(t));
        assert(a.snippet_types.contains(t));
        let k = a.snippet_types.index_of(t);
        assert(serves(a.snippet_types[k], field, funcid));
    }
}

/// A first serving snippet type serves, and there is one if any serves.
proof fn lemma_first_serving(snippet_types: Seq<SnippetType>, field: Seq<char>, funcid: Oid)
    ensures
        match first_serving(snippet_types, field, funcid) {
            Some(k) => 0 <= k < snippet_types.len() && serves(snippet_types[k], field, funcid),
            None => forall|j: int|
                0 <= j < snippet_types.len() ==> !serves(
                    #[trigger] snippet_types[j],
                    field,
                    funcid,
                ),
        },
    decreases snippet_types.len(),
{
    if snippet_types.len() > 0 {
        let before = snippet_types.drop_last();
        lemma_first_serving(before, field, funcid);
        assert forall|j: int| 0 <= j < before.len() implies #[trigger] snippet_types[j]
            == before[j] by {}
    }
}

} // verus!
