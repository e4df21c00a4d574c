//! What holds of target lists with constants in place of calls, place by place.
#![allow(unused_imports)]

use crate::catalog::{AttrNumber, Oid, Varno};
use crate::node::{preorder, Node, NodeTag};
use crate::placeholders::{
    as_ints, first_serving, groups_positions, positions, score_const, serves, snippet_const,
    tree_of, trees_of, ConstRef, PlaceholderRules, Projected, ProjectedTree, Replacement,
    SnippetType,
};
use crate::projection_laws::{keeps, law_kept_nodes_are_not_replaced};
use crate::tree_laws::node_at;
use vstd::prelude::*;

verus! {

/// What stands at the place that the path `path` leads to in `tree`.
pub open spec fn tree_at(tree: ProjectedTree, path: Seq<int>) -> Option<ProjectedTree>
    decreases path.len(),
{
    if path.len() == 0 {
        Some(tree)
    } else {
        match tree {
            ProjectedTree::Kept { children, .. } => if 0 <= path[0] < children.len() {
                tree_at(children[path[0]], path.drop_first())
            } else {
                None
            },
            _ => None,
        }
    }
}

/// The snippet type number `j` is for the field of the first argument of the snippet call `call`,
/// and for the function called.
pub open spec fn is_for(rules: PlaceholderRules, call: Node, j: int) -> bool {
    let column = (rules.rti as Varno, call.children@[0].var->0.varattno);
    &&& 0 <= j < rules.snippet_types.len()
    &&& rules.snippet_types[j].field@ == rules.attnames[column]
    &&& rules.snippet_types[j].funcoid == call.tag->funcid
}

/// `call` calls a snippet function, with a column as its first argument that has a field, and the
/// snippet type number `j` is for that field and that function. Nothing is asked of the arguments
/// after the first.
pub open spec fn asks_for(rules: PlaceholderRules, call: Node, j: int) -> bool {
    &&& call.tag matches NodeTag::FuncExpr { funcid }
    &&& funcid == rules.snippet_funcoid || funcid == rules.snippet_positions_funcoid
    &&& funcid != rules.score_funcoid
    &&& call.children@.len() > 0
    &&& call.children@[0].var matches Some(var)
    &&& rules.attnames.contains_key((rules.rti as Varno, var.varattno))
    &&& is_for(rules, call, j)
}

/// `call` calls the score function.
pub open spec fn asks_for_score(rules: PlaceholderRules, call: Node) -> bool {
    call.tag == (NodeTag::FuncExpr { funcid: rules.score_funcoid })
}

/// The replacement of a call of a snippet function, said of the call itself.
proof fn lemma_snippet_replacement(rules: PlaceholderRules, call: Node)
    requires
        !(call.tag is Null),
    ensures
        asks_for_score(rules, call) <==> rules.replacement(call) is Score,
        (exists|j: int| #[trigger] asks_for(rules, call, j)) <==> rules.replacement(
            call,
        ) is Snippet,
        rules.replacement(call) matches Replacement::Snippet(number) ==> asks_for(
            rules,
            call,
            number,
        ) && forall|j: int| 0 <= j < number ==> !#[trigger] asks_for(rules, call, j),
{
    if let NodeTag::FuncExpr { funcid } = call.tag {
        if call.children@.len() > 0 && call.children@[0].var is Some {
            let column = (rules.rti as Varno, call.children@[0].var->0.varattno);
            lemma_first_of(rules.snippet_types, rules.attnames[column], funcid);
            if exists|j: int| #[trigger] asks_for(rules, call, j) {
                let j = choose|j: int| #[trigger] asks_for(rules, call, j);
                assert(rules.snippet_types[j].field@ == rules.attnames[column]);
            }
            if let Replacement::Snippet(number) = rules.replacement(call) {
                assert(asks_for(rules, call, number));
            }
        }
    }
}

/// The first serving snippet type serves, none before it does, and there is one if any serves.
proof fn lemma_first_of(snippet_types: Seq<SnippetType>, field: Seq<char>, funcid: Oid)
    ensures
        match first_serving(snippet_types, field, funcid) {
            Some(k) => {
                &&& 0 <= k < snippet_types.len()
                &&& snippet_types[k].field@ == field
                &&& snippet_types[k].funcoid == funcid
                &&& forall|j: int|
                    0 <= j < k ==> !((#[trigger] snippet_types[j]).field@ == field
                        && snippet_types[j].funcoid == funcid)
            },
            None => forall|j: int|
                0 <= j < snippet_types.len() ==> !((#[trigger] snippet_types[j]).field@ == field
                    && snippet_types[j].funcoid == funcid),
        },
    decreases snippet_types.len(),
{
    if snippet_types.len() > 0 {
        let before = snippet_types.drop_last();
        lemma_first_of(before, field, funcid);
        assert forall|j: int| 0 <= j < before.len() implies #[trigger] snippet_types[j]
            == before[j] by {}
    }
}

/// What has to stand in place of the node `node` of a target list, where the snippet constants from
/// number `next` on are of the snippet types `made`:
/// nothing in an empty place; the score constant for a score call; for a snippet call that some
/// snippet type is for, a snippet constant of the first such type; and else the node itself, with
/// a place for each of its children.
pub open spec fn stands_for(
    rules: PlaceholderRules,
    node: Node,
    tree: ProjectedTree,
    made: Seq<int>,
    next: int,
) -> bool {
    if node.tag is Null {
        tree == ProjectedTree::Null
    } else if asks_for_score(rules, node) {
        tree == ProjectedTree::Score
    } else if exists|j: int| #[trigger] asks_for(rules, node, j) {
        &&& tree matches ProjectedTree::Snippet(number)
        &&& next <= number < next + made.len()
        &&& asks_for(rules, node, made[number - next])
        &&& forall|j: int| 0 <= j < made[number - next] ==> !#[trigger] asks_for(rules, node, j)
    } else {
        &&& tree matches ProjectedTree::Kept { id, tag, children }
        &&& id == node.id
        &&& tag == node.tag
        &&& children.len() == node.children@.len()
    }
}

/// What stands at any place of the rewritten target list is what has to stand there for the node
/// that was at that place.
pub proof fn law_each_place_holds_what_it_should(
    rules: PlaceholderRules,
    node: Node,
    next: int,
    path: Seq<int>,
)
    requires
        tree_at(rules.project(node, next), path) is Some,
    ensures
        node_at(node, path) is Some,
        stands_for(
            rules,
            node_at(node, path)->0,
            tree_at(rules.project(node, next), path)->0,
            rules.made(node),
            next,
        ),
    decreases path.len(),
{
    let tree = rules.project(node, next);
    if !(node.tag is Null) {
        lemma_snippet_replacement(rules, node);
    }
    lemma_project_all(rules, node.children@, next);
    if path.len() > 0 {
        let i = path[0];
        let below = node.children@;
        let child = below[i];
        let off = rules.made_all(below.take(i)).len() as int;
        law_each_place_holds_what_it_should(rules, child, next + off, path.drop_first());
        lemma_made_by_child(rules, below, i);
        let found = node_at(node, path)->0;
        let stands = tree_at(tree, path)->0;
        if let ProjectedTree::Snippet(number) = stands {
            let x = number - (next + off);
            if 0 <= x < rules.made(child).len() {
                assert(rules.made(node)[number - next] == rules.made(child)[x]);
            }
        }
    }
}

proof fn lemma_project_all(rules: PlaceholderRules, nodes: Seq<Node>, next: int)
    ensures
        rules.project_all(nodes, next).len() == nodes.len(),
        forall|i: int|
            0 <= i < nodes.len() ==> #[trigger] rules.project_all(nodes, next)[i] == rules.project(
                nodes[i],
                next + rules.made_all(nodes.take(i)).len(),
            ),
    decreases nodes.len(),
{
    if nodes.len() > 0 {
        let before = nodes.drop_last();
        lemma_project_all(rules, before, next);
        assert forall|i: int| 0 <= i < nodes.len() implies #[trigger] rules.project_all(
            nodes,
            next,
        )[i] == rules.project(nodes[i], next + rules.made_all(nodes.take(i)).len()) by {
            if i < before.len() {
                assert(before.take(i) == nodes.take(i));
                assert(rules.project_all(nodes, next)[i] == rules.project_all(before, next)[i]);
            } else {
                assert(nodes.take(i) == before);
            }
        }
    }
}

/// The constants made for one of `nodes` stand in a row among those made for all.
proof fn lemma_made_by_child(rules: PlaceholderRules, nodes: Seq<Node>, i: int)
    requires
        0 <= i < nodes.len(),
    ensures
        ({
            let off = rules.made_all(nodes.take(i)).len();
            &&& off + rules.made(nodes[i]).len() <= rules.made_all(nodes).len()
            &&& forall|x: int|
                0 <= x < rules.made(nodes[i]).len() ==> rules.made_all(nodes)[off + x]
                    == #[trigger] rules.made(nodes[i])[x]
        }),
    decreases nodes.len(),
{
    let before = nodes.drop_last();
    if i == nodes.len() - 1 {
        assert(nodes.take(i) == before);
    } else {
        lemma_made_by_child(rules, before, i);
        assert(before.take(i) == nodes.take(i));
        assert(before[i] == nodes[i]);
    }
}

/// A call that is left in the rewritten target list is one that neither the score constant nor a
/// constant of any snippet type could take the place of.
pub proof fn law_calls_left_asked_for_nothing(
    rules: PlaceholderRules,
    node: Node,
    next: int,
    id: u64,
    tag: NodeTag,
)
    requires
        keeps(rules.project(node, next), id, tag),
    ensures
        exists|k: int|
            #![trigger preorder(node)[k]]
            {
                &&& 0 <= k < preorder(node).len()
                &&& preorder(node)[k].id == id
                &&& preorder(node)[k].tag == tag
                &&& !asks_for_score(rules, preorder(node)[k])
                &&& forall|j: int| !#[trigger] asks_for(rules, preorder(node)[k], j)
            },
{
    law_kept_nodes_are_not_replaced(rules, node, next, id, tag);
    let k = choose|k: int|
        0 <= k < preorder(node).len() && (#[trigger] preorder(node)[k]).id == id && preorder(
            node,
        )[k].tag == tag && rules.replacement(preorder(node)[k]) is Keep;
    lemma_walked_is_node(node, k);
    lemma_snippet_replacement(rules, preorder(node)[k]);
    assert forall|j: int| !#[trigger] asks_for(rules, preorder(node)[k], j) by {
        if asks_for(rules, preorder(node)[k], j) {
            assert(exists|j: int| #[trigger] asks_for(rules, preorder(node)[k], j));
        }
    }
}

proof fn lemma_walked_is_node(node: Node, k: int)
    requires
        0 <= k < preorder(node).len(),
    ensures
        !(preorder(node)[k].tag is Null),
{
    crate::tree_laws::law_walked_nodes_are_in_the_tree(node, k);
    let path = choose|path: Seq<int>|
        #![trigger node_at(node, path)]
        crate::tree_laws::passes_nodes(node, path) && node_at(node, path) == Some(
            preorder(node)[k],
        );
    lemma_passed_is_node(node, path);
}

proof fn lemma_passed_is_node(node: Node, path: Seq<int>)
    requires
        crate::tree_laws::passes_nodes(node, path),
    ensures
        node_at(node, path) is Some,
        !(node_at(node, path)->0.tag is Null),
    decreases path.len(),
{
    if path.len() > 0 {
        lemma_passed_is_node(node.children@[path[0]], path.drop_first());
    }
}

/// A snippet call whose first argument is a column with a field that some snippet type is for is
/// not left in the target list, whatever arguments follow, if no other node has its name.
pub proof fn law_served_snippet_call_is_not_left(
    rules: PlaceholderRules,
    node: Node,
    next: int,
    k: int,
    j: int,
)
    requires
        0 <= k < preorder(node).len(),
        asks_for(rules, preorder(node)[k], j),
        forall|i: int|
            0 <= i < preorder(node).len() && i != k ==> (#[trigger] preorder(node)[i]).id
                != preorder(node)[k].id,
    ensures
        !keeps(rules.project(node, next), preorder(node)[k].id, preorder(node)[k].tag),
{
    let call = preorder(node)[k];
    if keeps(rules.project(node, next), call.id, call.tag) {
        law_calls_left_asked_for_nothing(rules, node, next, call.id, call.tag);
        let i = choose|i: int|
            #![trigger preorder(node)[i]]
            {
                &&& 0 <= i < preorder(node).len()
                &&& preorder(node)[i].id == call.id
                &&& preorder(node)[i].tag == call.tag
                &&& !asks_for_score(rules, preorder(node)[i])
                &&& forall|j: int| !#[trigger] asks_for(rules, preorder(node)[i], j)
            };
        assert(i == k);
        assert(!asks_for(rules, preorder(node)[k], j));
    }
}

/// Arguments after the first change nothing: two calls of one function with the same first argument
/// are replaced alike.
pub proof fn law_later_arguments_do_not_matter(rules: PlaceholderRules, a: Node, b: Node)
    requires
        a.tag is FuncExpr,
        a.tag == b.tag,
        a.children@.len() > 0,
        b.children@.len() > 0,
        a.children@[0] == b.children@[0],
    ensures
        rules.replacement(a) == rules.replacement(b),
{
}

/// The constants of scores and snippets are nulls: a score is a four byte float passed by value,
/// without a collation; a snippet has the type asked for, any length and the default collation.
pub proof fn law_constants_are_typed_nulls(nodeoid: Oid)
    ensures
        score_const().consttype == 700,
        score_const().consttypmod == -1,
        score_const().constcollid == 0,
        score_const().constlen == 4,
        score_const().constvalue == 0,
        score_const().constisnull,
        score_const().constbyval,
        snippet_const(nodeoid).consttype == nodeoid,
        snippet_const(nodeoid).consttypmod == -1,
        snippet_const(nodeoid).constcollid == 100,
        snippet_const(nodeoid).constlen == -1,
        snippet_const(nodeoid).constvalue == 0,
        snippet_const(nodeoid).constisnull,
        !snippet_const(nodeoid).constbyval,
{
}

/// The constants are listed under the number of their snippet type, in the order in which they were
/// made, each once: a number has a list exactly if a constant of that type was made, and a constant
/// is in the list of its own type only.
pub proof fn law_lists_hold_the_constants_in_order(
    groups: Map<usize, Vec<usize>>,
    made: Seq<int>,
    number: usize,
    constant: usize,
)
    requires
        groups_positions(groups, made),
    ensures
        groups.contains_key(number) <==> exists|i: int|
            0 <= i < made.len() && #[trigger] made[i] == number,
        groups.contains_key(number) ==> (groups[number]@.contains(constant) <==> constant
            < made.len() && made[constant as int] == number),
        groups.contains_key(number) ==> forall|p: int, q: int|
            0 <= p < q < groups[number]@.len() ==> #[trigger] groups[number]@[p]
                < #[trigger] groups[number]@[q],
{
    lemma_positions_in_order(made, number as int);
    assert(groups.contains_key(number) <==> made.contains(number as int));
    if groups.contains_key(number) {
        let list = groups[number]@;
        let listed = positions(made, number as int);
        assert(as_ints(list) == listed);
        assert forall|p: int| 0 <= p < list.len() implies #[trigger] list[p] == listed[p] by {
            assert(as_ints(list)[p] == list[p]);
        }
        if list.contains(constant) {
            let p = list.index_of(constant);
            assert(listed[p] == constant);
        }
        if constant < made.len() && made[constant as int] == number {
            assert(listed.contains(constant as int));
            let p = listed.index_of(constant as int);
            assert(list[p] == constant);
        }
    }
}

proof fn lemma_positions_in_order(numbers: Seq<int>, number: int)
    ensures
        ({
            let all = positions(numbers, number);
            &&& forall|p: int|
                0 <= p < all.len() ==> 0 <= #[trigger] all[p] < numbers.len() && numbers[all[p]]
                    == number
            &&& forall|p: int, q: int|
                0 <= p < q < all.len() ==> #[trigger] all[p] < #[trigger] all[q]
            &&& forall|i: int|
                0 <= i < numbers.len() && #[trigger] numbers[i] == number ==> all.contains(i)
        }),
    decreases numbers.len(),
{
    if numbers.len() > 0 {
        let before = numbers.drop_last();
        let earlier = positions(before, number);
        let all = positions(numbers, number);
        lemma_positions_in_order(before, number);
        assert forall|i: int| 0 <= i < before.len() implies #[trigger] numbers[i] == before[i] by {}
        assert forall|i: int|
            0 <= i < numbers.len() && #[trigger] numbers[i] == number implies all.contains(i) by {
            if i < before.len() {
                assert(before[i] == number);
                let p = earlier.index_of(i);
                assert(all[p] == i);
            } else {
                assert(all[earlier.len() as int] == i);
            }
        }
    }
}

/// A snippet constant that stands somewhere in the rewritten target list is listed under a snippet
/// type that the call at that place asked for.
pub proof fn law_placed_constants_are_listed_for_their_calls(
    rules: PlaceholderRules,
    node: Node,
    path: Seq<int>,
    number: usize,
    groups: Map<usize, Vec<usize>>,
)
    requires
        rules.snippet_types.len() <= usize::MAX,
        groups_positions(groups, rules.made(node)),
        tree_at(rules.project(node, 0), path) == Some(ProjectedTree::Snippet(number as int)),
    ensures
        node_at(node, path) is Some,
        number < rules.made(node).len(),
        exists|j: usize| #[trigger]
            asks_for(rules, node_at(node, path)->0, j as int) && groups.contains_key(j)
                && groups[j]@.contains(number),
{
    law_each_place_holds_what_it_should(rules, node, 0, path);
    let call = node_at(node, path)->0;
    let made = rules.made(node);
    let j = made[number as int];
    assert(asks_for(rules, call, j));
    let type_number = j as usize;
    assert(type_number as int == j);
    assert(made[number as int] == type_number);
    law_lists_hold_the_constants_in_order(groups, made, type_number, number);
    assert(asks_for(rules, call, type_number as int));
}

/// What is said of a rewritten target list is what it holds, place by place.
pub proof fn law_projected_is_seen_as_it_is(
    projected: Projected,
    number: usize,
    all: Seq<Projected>,
)
    ensures
        projected is Null <==> tree_of(projected) == ProjectedTree::Null,
        projected == Projected::Const(ConstRef::Score) <==> tree_of(projected)
            == ProjectedTree::Score,
        projected == Projected::Const(ConstRef::Snippet(number)) <==> tree_of(projected)
            == ProjectedTree::Snippet(number as int),
        projected matches Projected::Kept { id, tag, children } ==> tree_of(projected) == (
        ProjectedTree::Kept { id, tag, children: trees_of(children@) }),
        trees_of(all).len() == all.len(),
        forall|i: int| 0 <= i < all.len() ==> #[trigger] trees_of(all)[i] == tree_of(all[i]),
    decreases all.len(),
{
    if all.len() > 0 {
        let before = all.drop_last();
        law_projected_is_seen_as_it_is(projected, number, before);
        assert forall|i: int| 0 <= i < all.len() implies #[trigger] trees_of(all)[i] == tree_of(
            all[i],
        ) by {
            if i < before.len() {
                assert(trees_of(all)[i] == trees_of(before)[i]);
            }
        }
    }
}

} // verus!
