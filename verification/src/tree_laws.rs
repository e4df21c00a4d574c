//! What holds of walks over expression trees and of the calls found on them.
#![allow(unused_imports)]

use crate::catalog::Oid;
use crate::node::{contains_call, preorder, preorder_all, Node, NodeTag, Var};
use crate::projection_laws::{law_every_wanted_call_is_pulled_out, matches_of_calls, wanted_calls};
use crate::projections::{
    argument_matches, is_column_of, match_of, match_views, matches_in, placeholder_for,
    wants_placeholder, FuncExprMatch, FuncExprMatchView, PlannerRoot, SupportRequest,
};
use vstd::prelude::*;

verus! {

/// The node that the path `path` leads to from `node`, each step of it the number of a child.
pub open spec fn node_at(node: Node, path: Seq<int>) -> Option<Node>
    decreases path.len(),
{
    if path.len() == 0 {
        Some(node)
    } else if 0 <= path[0] < node.children@.len() {
        node_at(node.children@[path[0]], path.drop_first())
    } else {
        None
    }
}

/// No place on the path `path` from `node` holds no node.
pub open spec fn passes_nodes(node: Node, path: Seq<int>) -> bool
    decreases path.len(),
{
    &&& !(node.tag is Null)
    &&& path.len() > 0 ==> 0 <= path[0] < node.children@.len() && passes_nodes(
        node.children@[path[0]],
        path.drop_first(),
    )
}

/// A walk begins with the node itself and goes on with what is below it, tree by tree and in order;
/// an empty place adds nothing.
pub proof fn law_walk_goes_tree_by_tree(node: Node, some: Seq<Node>, more: Seq<Node>)
    ensures
        node.tag is Null ==> preorder(node) == Seq::<Node>::empty(),
        !(node.tag is Null) ==> preorder(node) == seq![node] + preorder_all(node.children@),
        preorder_all(Seq::<Node>::empty()) == Seq::<Node>::empty(),
        preorder_all(seq![node]) == preorder(node),
        preorder_all(some + more) == preorder_all(some) + preorder_all(more),
    decreases more.len(),
{
    reveal_with_fuel(preorder_all, 2);
    assert(seq![node].drop_last() == Seq::<Node>::empty());
    assert(preorder_all(seq![node]) == preorder(node));
    if more.len() == 0 {
        assert(some + more == some);
    } else {
        assert((some + more).drop_last() == some + more.drop_last());
        law_walk_goes_tree_by_tree(node, some, more.drop_last());
    }
}

/// A walk comes by every node of the tree.
pub proof fn law_every_node_is_walked(node: Node, path: Seq<int>)
    requires
        passes_nodes(node, path),
    ensures
        node_at(node, path) is Some,
        preorder(node).contains(node_at(node, path)->0),
    decreases path.len(),
{
    if path.len() == 0 {
        assert(preorder(node)[0] == node);
    } else {
        let i = path[0];
        let below = node.children@;
        law_every_node_is_walked(below[i], path.drop_first());
        let found = node_at(node, path)->0;
        let k = preorder(below[i]).index_of(found);
        assert(below == below.take(i) + seq![below[i]] + below.skip(i + 1));
        law_walk_goes_tree_by_tree(below[i], below.take(i) + seq![below[i]], below.skip(i + 1));
        law_walk_goes_tree_by_tree(below[i], below.take(i), seq![below[i]]);
        let at = preorder_all(below.take(i)).len() + k;
        assert(preorder_all(below)[at as int] == found);
        assert(preorder(node)[at + 1] == found);
    }
}

/// A walk comes by no node that is not in the tree.
pub proof fn law_walked_nodes_are_in_the_tree(node: Node, k: int)
    requires
        0 <= k < preorder(node).len(),
    ensures
        exists|path: Seq<int>|
            #![trigger node_at(node, path)]
            passes_nodes(node, path) && node_at(node, path) == Some(preorder(node)[k]),
    decreases node,
{
    if k == 0 {
        let path = Seq::<int>::empty();
        assert(passes_nodes(node, path) && node_at(node, path) == Some(preorder(node)[k]));
    } else {
        assert(preorder(node)[k] == preorder_all(node.children@)[k - 1]);
        lemma_walked_below(node.children@, k - 1);
        let (i, rest) = choose|i: int, rest: Seq<int>|
            #![trigger node_at(node.children@[i], rest)]
            0 <= i < node.children@.len() && passes_nodes(node.children@[i], rest) && node_at(
                node.children@[i],
                rest,
            ) == Some(preorder_all(node.children@)[k - 1]);
        let path = seq![i] + rest;
        assert(path.drop_first() == rest);
        assert(passes_nodes(node, path) && node_at(node, path) == Some(preorder(node)[k]));
    }
}

proof fn lemma_walked_below(nodes: Seq<Node>, k: int)
    requires
        0 <= k < preorder_all(nodes).len(),
    ensures
        exists|i: int, rest: Seq<int>|
            #![trigger node_at(nodes[i], rest)]
            0 <= i < nodes.len() && passes_nodes(nodes[i], rest) && node_at(nodes[i], rest) == Some(
                preorder_all(nodes)[k],
            ),
    decreases nodes,
{
    let before = nodes.drop_last();
    let walked = preorder_all(before);
    if k < walked.len() {
        lemma_walked_below(before, k);
        let (i, rest) = choose|i: int, rest: Seq<int>|
            #![trigger node_at(before[i], rest)]
            0 <= i < before.len() && passes_nodes(before[i], rest) && node_at(before[i], rest)
                == Some(preorder_all(before)[k]);
        assert(nodes[i] == before[i]);
        assert(node_at(nodes[i], rest) == Some(preorder_all(nodes)[k]));
    } else {
        let i = nodes.len() - 1;
        law_walked_nodes_are_in_the_tree(nodes.last(), k - walked.len());
        let rest = choose|rest: Seq<int>|
            #![trigger node_at(nodes.last(), rest)]
            passes_nodes(nodes.last(), rest) && node_at(nodes.last(), rest) == Some(
                preorder(nodes.last())[k - walked.len()],
            );
        assert(nodes[i] == nodes.last());
        assert(node_at(nodes[i], rest) == Some(preorder_all(nodes)[k]));
    }
}

/// A tree needs constants projected exactly if there is a call of the score function or of one of
/// the two snippet functions somewhere in it.
pub proof fn law_any_projected_call_counts(
    node: Node,
    score_funcoid: Oid,
    snippet_funcoid: Oid,
    snippet_positions_funcoid: Oid,
)
    ensures
        contains_call(node, seq![score_funcoid, snippet_funcoid, snippet_positions_funcoid])
            <==> exists|path: Seq<int>|
            #![trigger node_at(node, path)]
            passes_nodes(node, path) && ({
                let tag = node_at(node, path)->0.tag;
                ||| tag == (NodeTag::FuncExpr { funcid: score_funcoid })
                ||| tag == (NodeTag::FuncExpr { funcid: snippet_funcoid })
                ||| tag == (NodeTag::FuncExpr { funcid: snippet_positions_funcoid })
            }),
{
    let funcids = seq![score_funcoid, snippet_funcoid, snippet_positions_funcoid];
    assert(funcids[0] == score_funcoid && funcids[1] == snippet_funcoid && funcids[2]
        == snippet_positions_funcoid);
    if contains_call(node, funcids) {
        let k = choose|k: int|
            0 <= k < preorder(node).len() && #[trigger] preorder(node)[k].calls_one_of(funcids);
        law_walked_nodes_are_in_the_tree(node, k);
        let path = choose|path: Seq<int>|
            #![trigger node_at(node, path)]
            passes_nodes(node, path) && node_at(node, path) == Some(preorder(node)[k]);
        let tag = node_at(node, path)->0.tag;
        let funcid = tag->funcid;
        let at = funcids.index_of(funcid);
        assert(at == 0 || at == 1 || at == 2);
    }
    assert forall|path: Seq<int>|
        #![trigger node_at(node, path)]
        passes_nodes(node, path) && ({
            let tag = node_at(node, path)->0.tag;
            ||| tag == (NodeTag::FuncExpr { funcid: score_funcoid })
            ||| tag == (NodeTag::FuncExpr { funcid: snippet_funcoid })
            ||| tag == (NodeTag::FuncExpr { funcid: snippet_positions_funcoid })
        }) implies contains_call(node, funcids) by {
        law_every_node_is_walked(node, path);
        let found = node_at(node, path)->0;
        let k = preorder(node).index_of(found);
        assert(preorder(node)[k] == found);
        assert(preorder(node)[k].calls_one_of(funcids));
    }
}

/// A call is wrapped in a placeholder exactly if it is to be simplified in a query at hand that
/// joins relations.
pub proof fn law_only_joins_call_for_placeholders(root: Option<PlannerRoot>, fcall: u64)
    ensures
        !wants_placeholder(SupportRequest::Other),
        root is None ==> !wants_placeholder(SupportRequest::Simplify { root, fcall }),
        root matches Some(query) ==> wants_placeholder(SupportRequest::Simplify { root, fcall })
            == query.has_join_rtes,
{
}

/// The placeholder of a call is around that call, at the one relation, the query level and the
/// nulling joins of the column in it, whichever column that is.
pub proof fn law_placeholder_takes_after_its_column(query: PlannerRoot, fcall: u64, var: Var)
    ensures
        ({
            let request = SupportRequest::Simplify { root: Some(query), fcall };
            let placeholder = placeholder_for(request, seq![var]);
            &&& placeholder is Some <==> query.has_join_rtes
            &&& query.has_join_rtes ==> {
                &&& placeholder->0.phexpr == fcall
                &&& placeholder->0.phrels == var.varno
                &&& placeholder->0.phlevelsup == var.varlevelsup
                &&& placeholder->0.phnullingrels == var.varnullingrels
            }
        }),
        placeholder_for(SupportRequest::Simplify { root: None, fcall }, seq![var]) is None,
        placeholder_for(SupportRequest::Other, seq![var]) is None,
{
}

/// At the place `site`, the call of that number in `nodes` and the argument of that number of it,
/// a function of `funcids` is called on a column of the relation `rti`.
pub open spec fn is_wanted_site(
    nodes: Seq<Node>,
    funcids: Seq<Oid>,
    rti: i32,
    site: (int, int),
) -> bool {
    &&& 0 <= site.0 < nodes.len()
    &&& nodes[site.0].tag matches NodeTag::FuncExpr { funcid }
    &&& funcids.contains(funcid)
    &&& 0 <= site.1 < nodes[site.0].children@.len()
    &&& nodes[site.0].children@[site.1].column matches Some(column)
    &&& column.var.varno == rti
}

/// `m` names the call at `site` and the column that its argument there is, as it is.
pub open spec fn names_site(m: FuncExprMatchView, nodes: Seq<Node>, site: (int, int)) -> bool {
    let column = nodes[site.0].children@[site.1].column->0;
    &&& m.funcexpr == nodes[site.0].id
    &&& m.var == column.var
    &&& m.fieldname == column.fieldname@
}

/// The site `a` comes before the site `b`: in an earlier call, or as an earlier argument.
pub open spec fn comes_before(a: (int, int), b: (int, int)) -> bool {
    a.0 < b.0 || (a.0 == b.0 && a.1 < b.1)
}

/// `sites` are all wanted sites, in order and each once, and `matches` names them one by one.
pub open spec fn lists_sites(
    matches: Seq<FuncExprMatchView>,
    nodes: Seq<Node>,
    funcids: Seq<Oid>,
    rti: i32,
    sites: Seq<(int, int)>,
) -> bool {
    &&& sites.len() == matches.len()
    &&& forall|p: int|
        0 <= p < sites.len() ==> is_wanted_site(nodes, funcids, rti, #[trigger] sites[p])
            && names_site(matches[p], nodes, sites[p])
    &&& forall|p: int, q: int|
        0 <= p < q < sites.len() ==> comes_before(#[trigger] sites[p], #[trigger] sites[q])
    &&& forall|site: (int, int)| #[trigger]
        is_wanted_site(nodes, funcids, rti, site) ==> sites.contains(site)
}

/// The matches pulled out of a tree are the wanted calls in it with each of their arguments that is
/// a column of the wanted relation: all of them, each once, in the order of a walk and of the
/// arguments. A match holds the name of the call, and the column and the field of the argument as
/// they stand there.
pub proof fn law_matches_are_the_wanted_arguments(node: Node, funcids: Seq<Oid>, rti: i32)
    ensures
        exists|sites: Seq<(int, int)>| #[trigger]
            lists_sites(matches_in(node, funcids, rti), preorder(node), funcids, rti, sites),
{
    law_every_wanted_call_is_pulled_out(node, funcids, rti);
    lemma_sites_of_walk(preorder(node), funcids, rti);
}

/// For every match there are a call and an argument of it such that the match holds the call's
/// name and, in all their fields, the argument's column and field name.
pub proof fn law_match_holds_the_column_itself(node: Node, funcids: Seq<Oid>, rti: i32, p: int)
    requires
        0 <= p < matches_in(node, funcids, rti).len(),
    ensures
        ({
            let m = matches_in(node, funcids, rti)[p];
            exists|k: int, i: int|
                #![trigger preorder(node)[k].children@[i]]
                {
                    &&& 0 <= k < preorder(node).len()
                    &&& preorder(node)[k].tag matches NodeTag::FuncExpr { funcid }
                    &&& funcids.contains(funcid)
                    &&& 0 <= i < preorder(node)[k].children@.len()
                    &&& preorder(node)[k].children@[i].column matches Some(column)
                    &&& column.var.varno == rti
                    &&& m.funcexpr == preorder(node)[k].id
                    &&& m.var.id == column.var.id
                    &&& m.var.varno == column.var.varno
                    &&& m.var.varattno == column.var.varattno
                    &&& m.var.varlevelsup == column.var.varlevelsup
                    &&& m.var.varnullingrels == column.var.varnullingrels
                    &&& m.fieldname == column.fieldname@
                }
        }),
{
    law_matches_are_the_wanted_arguments(node, funcids, rti);
    let matches = matches_in(node, funcids, rti);
    let sites = choose|sites: Seq<(int, int)>| #[trigger]
        lists_sites(matches, preorder(node), funcids, rti, sites);
    let site = sites[p];
    assert(is_wanted_site(preorder(node), funcids, rti, site));
    let arg = preorder(node)[site.0].children@[site.1];
    assert(arg.column is Some);
}

/// For every argument of a wanted call that is a column of the wanted relation there is a match
/// that holds the call's name, that column and its field name.
pub proof fn law_wanted_argument_has_its_match(
    node: Node,
    funcids: Seq<Oid>,
    rti: i32,
    k: int,
    i: int,
)
    requires
        0 <= k < preorder(node).len(),
        preorder(node)[k].tag is FuncExpr,
        funcids.contains(preorder(node)[k].tag->funcid),
        0 <= i < preorder(node)[k].children@.len(),
        preorder(node)[k].children@[i].column is Some,
        preorder(node)[k].children@[i].column->0.var.varno == rti,
    ensures
        ({
            let column = preorder(node)[k].children@[i].column->0;
            matches_in(node, funcids, rti).contains(
                FuncExprMatchView {
                    funcexpr: preorder(node)[k].id,
                    var: column.var,
                    fieldname: column.fieldname@,
                },
            )
        }),
{
    law_matches_are_the_wanted_arguments(node, funcids, rti);
    let matches = matches_in(node, funcids, rti);
    let sites = choose|sites: Seq<(int, int)>| #[trigger]
        lists_sites(matches, preorder(node), funcids, rti, sites);
    assert(is_wanted_site(preorder(node), funcids, rti, (k, i)));
    let p = sites.index_of((k, i));
    assert(names_site(matches[p], preorder(node), sites[p]));
    assert(matches.contains(matches[p]));
}

/// The places of the wanted arguments among `args`, the arguments of the call number `k`.
spec fn argument_sites(args: Seq<Node>, rti: i32, k: int) -> Seq<(int, int)>
    decreases args.len(),
{
    if args.len() == 0 {
        Seq::empty()
    } else if is_column_of(args.last(), rti) {
        argument_sites(args.drop_last(), rti, k).push((k, args.len() - 1))
    } else {
        argument_sites(args.drop_last(), rti, k)
    }
}

proof fn lemma_argument_sites(id: u64, args: Seq<Node>, rti: i32, k: int)
    ensures
        ({
            let sites = argument_sites(args, rti, k);
            let own = argument_matches(id, args, rti);
            &&& sites.len() == own.len()
            &&& forall|p: int|
                0 <= p < sites.len() ==> {
                    &&& (#[trigger] sites[p]).0 == k
                    &&& 0 <= sites[p].1 < args.len()
                    &&& args[sites[p].1].column is Some
                    &&& args[sites[p].1].column->0.var.varno == rti
                    &&& own[p].funcexpr == id
                    &&& own[p].var == args[sites[p].1].column->0.var
                    &&& own[p].fieldname == args[sites[p].1].column->0.fieldname@
                }
            &&& forall|p: int, q: int|
                0 <= p < q < sites.len() ==> (#[trigger] sites[p]).1 < (#[trigger] sites[q]).1
            &&& forall|i: int|
                0 <= i < args.len() && (#[trigger] args[i]).column is Some
                    && args[i].column->0.var.varno == rti ==> sites.contains((k, i))
        }),
    decreases args.len(),
{
    reveal(Seq::filter);
    let sites = argument_sites(args, rti, k);
    let own = argument_matches(id, args, rti);
    if args.len() > 0 {
        let before = args.drop_last();
        let earlier = argument_sites(before, rti, k);
        lemma_argument_sites(id, before, rti, k);
        assert forall|i: int| 0 <= i < before.len() implies #[trigger] args[i] == before[i] by {}
        let wanted = |arg: Node| is_column_of(arg, rti);
        if is_column_of(args.last(), rti) {
            assert(args.filter(wanted) == before.filter(wanted).push(args.last()));
            assert(own == argument_matches(id, before, rti).push(match_of(id, args.last())));
        } else {
            assert(args.filter(wanted) == before.filter(wanted));
            assert(own == argument_matches(id, before, rti));
        }
        assert forall|i: int|
            0 <= i < args.len() && (#[trigger] args[i]).column is Some
                && args[i].column->0.var.varno == rti implies sites.contains((k, i)) by {
            if i < before.len() {
                assert(before[i] == args[i]);
                let p = earlier.index_of((k, i));
                assert(sites[p] == (k, i));
            } else {
                assert(sites[earlier.len() as int] == (k, i));
            }
        }
    }
}

proof fn lemma_sites_of_walk(nodes: Seq<Node>, funcids: Seq<Oid>, rti: i32)
    ensures
        exists|sites: Seq<(int, int)>| #[trigger]
            lists_sites(
                matches_of_calls(wanted_calls(nodes, funcids), rti),
                nodes,
                funcids,
                rti,
                sites,
            ),
    decreases nodes.len(),
{
    reveal(Seq::filter);
    let matches = matches_of_calls(wanted_calls(nodes, funcids), rti);
    if nodes.len() == 0 {
        assert(lists_sites(matches, nodes, funcids, rti, Seq::empty()));
    } else {
        let before = nodes.drop_last();
        let last = nodes.last();
        let k = nodes.len() - 1;
        let earlier = matches_of_calls(wanted_calls(before, funcids), rti);
        lemma_sites_of_walk(before, funcids, rti);
        let begun = choose|sites: Seq<(int, int)>| #[trigger]
            lists_sites(earlier, before, funcids, rti, sites);
        let own = argument_matches(last.id, last.children@, rti);
        let added = argument_sites(last.children@, rti, k);
        let wanted = |n: Node| n.calls_one_of(funcids);
        lemma_argument_sites(last.id, last.children@, rti, k);
        let sites = if last.calls_one_of(funcids) {
            begun + added
        } else {
            begun
        };
        if last.calls_one_of(funcids) {
            assert(wanted_calls(nodes, funcids) == wanted_calls(before, funcids).push(last));
            assert(wanted_calls(nodes, funcids).drop_last() == wanted_calls(before, funcids));
            assert(matches == earlier + own);
        } else {
            assert(wanted_calls(nodes, funcids) == wanted_calls(before, funcids));
            assert(matches == earlier);
        }
        assert forall|p: int| 0 <= p < sites.len() implies is_wanted_site(
            nodes,
            funcids,
            rti,
            #[trigger] sites[p],
        ) && names_site(matches[p], nodes, sites[p]) by {
            if p < begun.len() {
                assert(sites[p] == begun[p]);
                assert(is_wanted_site(before, funcids, rti, begun[p]));
                assert(nodes[begun[p].0] == before[begun[p].0]);
            } else {
                assert(sites[p] == added[p - begun.len()]);
            }
        }
        assert forall|p: int, q: int| 0 <= p < q < sites.len() implies comes_before(
            #[trigger] sites[p],
            #[trigger] sites[q],
        ) by {
            if q < begun.len() {
                assert(sites[p] == begun[p] && sites[q] == begun[q]);
            } else if p < begun.len() {
                assert(sites[p] == begun[p]);
                assert(is_wanted_site(before, funcids, rti, begun[p]));
                assert(sites[q] == added[q - begun.len()]);
            } else {
                assert(sites[p] == added[p - begun.len()]);
                assert(sites[q] == added[q - begun.len()]);
            }
        }
        assert forall|site: (int, int)| #[trigger]
            is_wanted_site(nodes, funcids, rti, site) implies sites.contains(site) by {
            if site.0 < k {
                assert(nodes[site.0] == before[site.0]);
                assert(is_wanted_site(before, funcids, rti, site));
                let p = begun.index_of(site);
                assert(sites[p] == site);
            } else {
                assert(last.children@[site.1].column is Some);
                let p = added.index_of((k, site.1));
                assert(sites[begun.len() + p] == site);
            }
        }
        assert(lists_sites(matches, nodes, funcids, rti, sites));
    }
}

/// What is said of matches is what they hold, match by match.
pub proof fn law_matches_are_seen_as_they_are(matches: Seq<FuncExprMatch>, p: int)
    requires
        0 <= p < matches.len(),
    ensures
        match_views(matches).len() == matches.len(),
        match_views(matches)[p].funcexpr == matches[p].funcexpr,
        match_views(matches)[p].var == matches[p].var,
        match_views(matches)[p].fieldname == matches[p].fieldname@,
{
}

} // verus!
