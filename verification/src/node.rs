//! Expression trees as the planner hands them over.

use crate::catalog::{AttrNumber, Oid, Varno};
use vstd::prelude::*;

verus! {

/// A reference to a column of a relation in the query's range table.
#[derive(Clone, Copy, Debug, PartialEq, Eq, Structural)]
pub struct Var {
    /// Names the node itself among the nodes of the query.
    pub id: u64,
    pub varno: Varno,
    pub varattno: AttrNumber,
    pub varlevelsup: u32,
    /// The set of outer joins that can null the column; absent where the server keeps none.
    pub varnullingrels: Option<u64>,
}

/// A column reference together with the indexed field that it stands for.
#[derive(Debug)]
pub struct Column {
    pub var: Var,
    pub fieldname: String,
}

/// What the search logic tells apart among expression nodes.
#[derive(Clone, Copy, Debug, PartialEq, Eq, Structural)]
pub enum NodeTag {
    /// A place in the tree that holds no node.
    Null,
    /// A function call; its children are its arguments.
    FuncExpr { funcid: Oid },
    /// Any other node.
    Other,
}

/// An expression node with the nodes right below it, in the order in which the server's tree
/// walker visits them.
#[derive(Debug)]
pub struct Node {
    /// Names the node among the nodes of the query.
    pub id: u64,
    pub tag: NodeTag,
    pub children: Vec<Node>,
    /// The one column reference found in this subtree, if there is one.
    pub var: Option<Var>,
    /// The one column reference found in this subtree with its indexed field, if there is one.
    pub column: Option<Column>,
}

impl Node {
    /// The node calls one of the functions `funcids`.
    pub open spec fn calls_one_of(self, funcids: Seq<Oid>) -> bool {
        self.tag matches NodeTag::FuncExpr { funcid } && funcids.contains(funcid)
    }
}

/// All nodes of the tree `node`, each before the nodes below it.
pub open spec fn preorder(node: Node) -> Seq<Node>
    decreases node,
{
    if node.tag is Null {
        Seq::empty()
    } else {
        seq![node] + preorder_all(node.children@)
    }
}

/// All nodes of the trees `nodes`, tree by tree.
pub open spec fn preorder_all(nodes: Seq<Node>) -> Seq<Node>
    decreases nodes,
{
    if nodes.len() == 0 {
        Seq::empty()
    } else {
        preorder_all(nodes.drop_last()) + preorder(nodes.last())
    }
}

/// Some node of the tree `node` calls one of the functions `funcids`.
pub open spec fn contains_call(node: Node, funcids: Seq<Oid>) -> bool {
    exists|i: int|
        0 <= i < preorder(node).len() && #[trigger] preorder(node)[i].calls_one_of(funcids)
}

} // verus!
