//! Score and snippet calls in target lists.

use crate::catalog::{Oid, Varno};
use crate::node::{Node, NodeTag, Var};
use vstd::prelude::*;

#[allow(unused_imports)]
use crate::node::{contains_call, preorder, preorder_all};
#[allow(unused_imports)]
use crate::projection_laws::law_matches_are_calls_on_columns;

verus! {

/// A planner's request to the support function of the score and snippet functions.
#[derive(Debug)]
pub enum SupportRequest {
    /// Asks for a simpler form of a call.
    Simplify {
        /// The query that is planned, if one is at hand.
        root: Option<PlannerRoot>,
        /// The node of the call.
        fcall: u64,
    },
    /// Asks for anything else.
    Other,
}

/// What the support function reads of the query that is planned.
#[derive(Clone, Copy, Debug, PartialEq, Eq, Structural)]
pub struct PlannerRoot {
    /// The query joins relations.
    pub has_join_rtes: bool,
}

/// A placeholder around a copy of a call, which keeps its value through joins.
#[derive(Clone, Copy, Debug, PartialEq, Eq, Structural)]
pub struct PlaceHolderVar {
    /// The node of the call, a copy of which is wrapped.
    pub phexpr: u64,
    /// The one relation at which the call is evaluated.
    pub phrels: Varno,
    pub phlevelsup: u32,
    pub phnullingrels: Option<u64>,
}

/// The call that the request is about has to be wrapped in a placeholder: it is to be simplified
/// in a query that joins relations. In a query without joins a placeholder must not stand.
pub open spec fn wants_placeholder(request: SupportRequest) -> bool {
    request matches SupportRequest::Simplify { root, .. } && root matches Some(root)
        && root.has_join_rtes
}

/// Whether the call that the request is about has to be wrapped in a placeholder.
pub fn needs_placeholder(request: &SupportRequest) -> (needed: bool)
    ensures
        needed == wants_placeholder(*request),
        needed <==> request is Simplify && request->root is Some
            && request->root->0.has_join_rtes,
{
    match request {
        SupportRequest::Simplify { root, .. } => match root {
            Some(root) => root.has_join_rtes,
            None => false,
        },
        SupportRequest::Other => false,
    }
}

/// The placeholder to wrap the requested call in, where `vars` are the column references in it.
pub open spec fn placeholder_for(request: SupportRequest, vars: Seq<Var>) -> Option<
    PlaceHolderVar,
> {
    if wants_placeholder(request) {
        Some(
            PlaceHolderVar {
                phexpr: request->fcall,
                phrels: vars[0].varno,
                phlevelsup: vars[0].varlevelsup,
                phnullingrels: vars[0].varnullingrels,
            },
        )
    } else {
        None
    }
}

/// The placeholder to wrap the requested call in, if one is called for. `vars` are the column
/// references in the call: where a placeholder is called for, there has to be exactly one, and the
/// placeholder takes its relation, its query level and its nulling joins.
pub fn placeholder_support(request: &SupportRequest, vars: &Vec<Var>) -> (placeholder: Option<
    PlaceHolderVar,
>)
    requires
        wants_placeholder(*request) ==> vars@.len() == 1,
    ensures
        placeholder == if wants_placeholder(*request) {
            Some(
                PlaceHolderVar {
                    phexpr: request->fcall,
                    phrels: vars@[0].varno,
                    phlevelsup: vars@[0].varlevelsup,
                    phnullingrels: vars@[0].varnullingrels,
                },
            )
        } else {
            None
        },
        placeholder == placeholder_for(*request, vars@),
        placeholder is Some <==> request is Simplify && request->root is Some
            && request->root->0.has_join_rtes,
{
    match request {
        SupportRequest::Simplify { fcall, .. } => {
            if !needs_placeholder(request) {
                return None;
            }
            let var = vars[0];
            Some(
                PlaceHolderVar {
                    phexpr: *fcall,
                    phrels: var.varno,
                    phlevelsup: var.varlevelsup,
                    phnullingrels: var.varnullingrels,
                },
            )
        },
        SupportRequest::Other => None,
    }
}

/// `funcid` is among `funcids`.
fn contains_oid(funcids: &[Oid], funcid: Oid) -> (found: bool)
    ensures
        found == funcids@.contains(funcid),
{
    let mut i: usize = 0;
    while i < funcids.len()
        invariant
            i <= funcids.len(),
            forall|j: int| 0 <= j < i ==> funcids@[j] != funcid,
        decreases funcids.len() - i,
    {
        if funcids[i] == funcid {
            return true;
        }
        i += 1;
    }
    false
}

/// Looks for a call of one of `funcids` in the tree `node`, and stops at the first.
fn find_call(node: &Node, funcids: &[Oid]) -> (found: bool)
    ensures
        found == contains_call(*node, funcids@),
    decreases node,
{
    match node.tag {
        NodeTag::Null => {
            return false;
        },
        NodeTag::FuncExpr { funcid } => {
            if contains_oid(funcids, funcid) {
                assert(preorder(*node)[0].calls_one_of(funcids@));
                return true;
            }
        },
        NodeTag::Other => {},
    }
    let ghost below = node.children@;
    let mut i: usize = 0;
    while i < node.children.len()
        invariant
            i <= node.children.len(),
            below == node.children@,
            node.tag !is Null,
            forall|k: int|
                0 <= k < preorder_all(below.take(i as int)).len()
                    ==> !(#[trigger] preorder_all(below.take(i as int))[k]).calls_one_of(funcids@),
        decreases node.children.len() - i,
    {
        let ghost before = preorder_all(below.take(i as int));
        let ghost here = preorder(below[i as int]);
        assert(below.take(i + 1).drop_last() == below.take(i as int));
        assert(preorder_all(below.take(i + 1)) == before + here);
        if find_call(&node.children[i], funcids) {
            proof {
                let k = choose|k: int|
                    0 <= k < here.len() && (#[trigger] here[k]).calls_one_of(funcids@);
                lemma_preorder_all_prefix(below, i + 1);
                let begun = preorder_all(below.take(i + 1));
                let at = before.len() + k;
                assert(begun[at] == here[k]);
                assert(preorder_all(below)[at] == preorder_all(below).take(begun.len() as int)[at]);
                assert(preorder(*node)[1 + at] == here[k]);
            }
            return true;
        }
        i += 1;
    }
    assert(below.take(below.len() as int) == below);
    assert forall|k: int| 0 <= k < preorder(*node).len() implies !(#[trigger] preorder(
        *node,
    )[k]).calls_one_of(funcids@) by {
        if k > 0 {
            assert(preorder(*node)[k] == preorder_all(below)[k - 1]);
        }
    }
    false
}

/// The walk over the first `n` of `nodes` begins the walk over all of them.
proof fn lemma_preorder_all_prefix(nodes: Seq<Node>, n: int)
    requires
        0 <= n <= nodes.len(),
    ensures
        preorder_all(nodes.take(n)).len() <= preorder_all(nodes).len(),
        preorder_all(nodes).take(preorder_all(nodes.take(n)).len() as int) == preorder_all(
            nodes.take(n),
        ),
    decreases nodes.len() - n,
{
    if n == nodes.len() {
        assert(nodes.take(n) == nodes);
    } else {
        lemma_preorder_all_prefix(nodes, n + 1);
        assert(nodes.take(n + 1).drop_last() == nodes.take(n));
        let whole = preorder_all(nodes);
        let longer = preorder_all(nodes.take(n + 1));
        let shorter = preorder_all(nodes.take(n));
        assert(longer == shorter + preorder(nodes[n]));
        assert(whole.take(shorter.len() as int) == whole.take(longer.len() as int).take(
            shorter.len() as int,
        ));
    }
}

/// Whether the tree `node` calls the score function or one of the snippet functions, so that a
/// scan has to project constants in place of these calls.
pub fn maybe_needs_const_projections(
    node: &Node,
    score_funcoid: Oid,
    snippet_funcoid: Oid,
    snippet_positions_funcoid: Oid,
) -> (needed: bool)
    ensures
        needed == contains_call(
            *node,
            seq![score_funcoid, snippet_funcoid, snippet_positions_funcoid],
        ),
{
    let funcids: Vec<Oid> = vec![score_funcoid, snippet_funcoid, snippet_positions_funcoid];
    assert(funcids@ == seq![score_funcoid, snippet_funcoid, snippet_positions_funcoid]);
    find_call(node, funcids.as_slice())
}

/// A call of a wanted function and the column among its arguments that made it match.
#[derive(Debug)]
pub struct FuncExprMatch {
    /// The node of the call.
    pub funcexpr: u64,
    pub var: Var,
    pub fieldname: String,
}

/// What a match says: the call's node, the column reference, the name of its field.
pub ghost struct FuncExprMatchView {
    pub funcexpr: u64,
    pub var: Var,
    pub fieldname: Seq<char>,
}

impl View for FuncExprMatch {
    type V = FuncExprMatchView;

    open spec fn view(&self) -> FuncExprMatchView {
        FuncExprMatchView { funcexpr: self.funcexpr, var: self.var, fieldname: self.fieldname@ }
    }
}

/// The argument `arg` holds one column, of the relation `rti`.
pub open spec fn is_column_of(arg: Node, rti: i32) -> bool {
    arg.column matches Some(column) && column.var.varno == rti
}

/// The match that the argument `arg` gives a call.
pub open spec fn match_of(funcexpr: u64, arg: Node) -> FuncExprMatchView {
    FuncExprMatchView {
        funcexpr,
        var: arg.column->0.var,
        fieldname: arg.column->0.fieldname@,
    }
}

/// The matches of one call: one for each argument that is a column of `rti`, in their order.
pub open spec fn argument_matches(funcexpr: u64, args: Seq<Node>, rti: i32) -> Seq<
    FuncExprMatchView,
> {
    args.filter(|arg: Node| is_column_of(arg, rti)).map_values(
        |arg: Node| match_of(funcexpr, arg),
    )
}

/// The matches in the tree `node`: those of a call of a wanted function before those below it.
pub open spec fn matches_in(node: Node, funcids: Seq<Oid>, rti: i32) -> Seq<FuncExprMatchView>
    decreases node,
{
    if node.tag is Null {
        Seq::empty()
    } else if node.calls_one_of(funcids) {
        argument_matches(node.id, node.children@, rti) + matches_in_all(
            node.children@,
            funcids,
            rti,
        )
    } else {
        matches_in_all(node.children@, funcids, rti)
    }
}

/// The matches in the trees `nodes`, tree by tree.
pub open spec fn matches_in_all(nodes: Seq<Node>, funcids: Seq<Oid>, rti: i32) -> Seq<
    FuncExprMatchView,
>
    decreases nodes,
{
    if nodes.len() == 0 {
        Seq::empty()
    } else {
        matches_in_all(nodes.drop_last(), funcids, rti) + matches_in(nodes.last(), funcids, rti)
    }
}

/// What the vector `matches` says, match by match.
pub open spec fn match_views(matches: Seq<FuncExprMatch>) -> Seq<FuncExprMatchView> {
    matches.map_values(|m: FuncExprMatch| m@)
}

/// One more argument after `args` adds its own match, or nothing.
proof fn lemma_argument_matches_push(funcexpr: u64, args: Seq<Node>, arg: Node, rti: i32)
    ensures
        argument_matches(funcexpr, args.push(arg), rti) == if is_column_of(arg, rti) {
            argument_matches(funcexpr, args, rti).push(match_of(funcexpr, arg))
        } else {
            argument_matches(funcexpr, args, rti)
        },
{
    reveal(Seq::filter);
    assert(args.push(arg).drop_last() == args);
}

/// Adds the matches of the call `node` to `matches`.
fn pullout_arguments(node: &Node, rti: i32, matches: &mut Vec<FuncExprMatch>)
    ensures
        match_views(final(matches)@) == match_views(old(matches)@) + argument_matches(
            node.id,
            node.children@,
            rti,
        ),
{
    let ghost args = node.children@;
    let ghost found = match_views(matches@);
    let mut i: usize = 0;
    proof {
        reveal(Seq::filter);
        assert(args.take(0) == Seq::<Node>::empty());
        assert(argument_matches(node.id, args.take(0), rti) == Seq::<FuncExprMatchView>::empty());
    }
    while i < node.children.len()
        invariant
            i <= node.children.len(),
            args == node.children@,
            match_views(matches@) == found + argument_matches(node.id, args.take(i as int), rti),
        decreases node.children.len() - i,
    {
        proof {
            lemma_argument_matches_push(node.id, args.take(i as int), args[i as int], rti);
            assert(args.take(i + 1) == args.take(i as int).push(args[i as int]));
        }
        match &node.children[i].column {
            Some(column) => {
                if column.var.varno == rti {
                    let ghost sofar = matches@;
                    let m = FuncExprMatch {
                        funcexpr: node.id,
                        var: column.var,
                        fieldname: column.fieldname.clone(),
                    };
                    matches.push(m);
                    assert(match_views(matches@) == match_views(sofar).push(m@));
                }
            },
            None => {},
        }
        i += 1;
    }
    assert(args.take(args.len() as int) == args);
}

/// Adds the matches in the tree `node` to `matches`.
fn pullout_walker(node: &Node, funcids: &[Oid], rti: i32, matches: &mut Vec<FuncExprMatch>)
    ensures
        match_views(final(matches)@) == match_views(old(matches)@) + matches_in(
            *node,
            funcids@,
            rti,
        ),
    decreases node,
{
    match node.tag {
        NodeTag::Null => {
            return;
        },
        NodeTag::FuncExpr { funcid } => {
            if contains_oid(funcids, funcid) {
                pullout_arguments(node, rti, matches);
            }
        },
        NodeTag::Other => {},
    }
    let ghost below = node.children@;
    let ghost found = match_views(matches@);
    let mut i: usize = 0;
    assert(below.take(0) == Seq::<Node>::empty());
    while i < node.children.len()
        invariant
            i <= node.children.len(),
            below == node.children@,
            match_views(matches@) == found + matches_in_all(below.take(i as int), funcids@, rti),
        decreases node.children.len() - i,
    {
        assert(below.take(i + 1).drop_last() == below.take(i as int));
        pullout_walker(&node.children[i], funcids, rti, matches);
        i += 1;
    }
    assert(below.take(below.len() as int) == below);
}

/// Finds all calls of `funcids` in the tree `node` that have a column of the relation `rti` as an
/// argument, with that column; also a call below another. A call with several such arguments is
/// returned once for each.
pub fn pullout_funcexprs(node: &Node, funcids: &[Oid], rti: i32) -> (matches: Vec<
    FuncExprMatch,
>)
    ensures
        match_views(matches@) == matches_in(*node, funcids@, rti),
        matches@.len() == matches_in(*node, funcids@, rti).len(),
        forall|p: int|
            0 <= p < matches@.len() ==> {
                let found = matches_in(*node, funcids@, rti)[p];
                &&& (#[trigger] matches@[p]).funcexpr == found.funcexpr
                &&& matches@[p].var == found.var
                &&& matches@[p].fieldname@ == found.fieldname
                &&& matches@[p].var.varno == rti
            },
{
    let mut matches: Vec<FuncExprMatch> = Vec::new();
    pullout_walker(node, funcids, rti, &mut matches);
    proof {
        let found = matches_in(*node, funcids@, rti);
        assert forall|p: int| 0 <= p < matches@.len() implies {
            &&& (#[trigger] matches@[p]).funcexpr == found[p].funcexpr
            &&& matches@[p].var == found[p].var
            &&& matches@[p].fieldname@ == found[p].fieldname
            &&& matches@[p].var.varno == rti
        } by {
            assert(match_views(matches@)[p] == matches@[p]@);
            assert(found.contains(found[p]));
            law_matches_are_calls_on_columns(*node, funcids@, rti, found[p]);
        }
    }
    matches
}

} // verus!
