//! Constants in place of score and snippet calls.

use crate::attname::AttnameLookup;
use crate::catalog::{
    AttrNumber, Datum, Oid, Varno, DEFAULT_COLLATION_OID, FLOAT4OID, INVALID_OID, NULL_DATUM,
};
use crate::node::{Node, NodeTag};
use std::collections::HashMap;
use vstd::prelude::*;

verus! {

broadcast use vstd::std_specs::hash::group_hash_axioms;

/// A kind of snippet that the query asks for.
#[derive(Debug)]
pub struct SnippetType {
    /// The field that the snippet is cut from.
    pub field: String,
    /// The function whose call asks for it.
    pub funcoid: Oid,
    /// The type of the value that stands for it.
    pub nodeoid: Oid,
}

/// A constant of the query.
#[derive(Clone, Copy, Debug, PartialEq, Eq, Structural)]
pub struct Const {
    pub consttype: Oid,
    pub consttypmod: i32,
    pub constcollid: Oid,
    pub constlen: i32,
    pub constvalue: Datum,
    pub constisnull: bool,
    pub constbyval: bool,
}

/// Points at one of the constants that were put into a target list.
#[derive(Clone, Copy, Debug, PartialEq, Eq, Structural)]
pub enum ConstRef {
    /// The constant that all score calls share.
    Score,
    /// The constant of one snippet call, counted in the order in which they were made.
    Snippet(usize),
}

/// A target list in which constants may stand in place of calls.
#[derive(Debug)]
pub enum Projected {
    Null,
    Const(ConstRef),
    /// A node of the tree as it was, with what became of the nodes below it.
    Kept { id: u64, tag: NodeTag, children: Vec<Projected> },
}

/// The shape of a `Projected` tree.
pub ghost enum ProjectedTree {
    Null,
    /// The score constant.
    Score,
    /// The snippet constant of this number.
    Snippet(int),
    Kept { id: u64, tag: NodeTag, children: Seq<ProjectedTree> },
}

impl View for Projected {
    type V = ProjectedTree;

    open spec fn view(&self) -> ProjectedTree {
        tree_of(*self)
    }
}

/// The shape of `projected`.
pub open spec fn tree_of(projected: Projected) -> ProjectedTree
    decreases projected,
{
    match projected {
        Projected::Null => ProjectedTree::Null,
        Projected::Const(ConstRef::Score) => ProjectedTree::Score,
        Projected::Const(ConstRef::Snippet(n)) => ProjectedTree::Snippet(n as int),
        Projected::Kept { id, tag, children } => ProjectedTree::Kept {
            id,
            tag,
            children: trees_of(children@),
        },
    }
}

/// The shapes of `all`, one by one.
pub open spec fn trees_of(all: Seq<Projected>) -> Seq<ProjectedTree>
    decreases all,
{
    if all.len() == 0 {
        Seq::empty()
    } else {
        trees_of(all.drop_last()).push(tree_of(all.last()))
    }
}

/// What becomes of a node.
pub ghost enum Replacement {
    /// It stays, and the nodes below it are looked at.
    Keep,
    /// The shared score constant takes its place.
    Score,
    /// A new constant for the snippet type of this number takes its place.
    Snippet(int),
}

/// What decides which calls are replaced.
pub ghost struct PlaceholderRules {
    pub rti: u32,
    pub score_funcoid: Oid,
    pub snippet_funcoid: Oid,
    pub snippet_positions_funcoid: Oid,
    pub attnames: Map<(Varno, AttrNumber), Seq<char>>,
    pub snippet_types: Seq<SnippetType>,
}

/// The snippet type `snippet_type` is cut from `field` and asked for by the function `funcid`.
pub open spec fn serves(snippet_type: SnippetType, field: Seq<char>, funcid: Oid) -> bool {
    snippet_type.field@ == field && snippet_type.funcoid == funcid
}

/// The number of the first snippet type that serves a call of `funcid` on `field`.
pub open spec fn first_serving(
    snippet_types: Seq<SnippetType>,
    field: Seq<char>,
    funcid: Oid,
) -> Option<int>
    decreases snippet_types.len(),
{
    if snippet_types.len() == 0 {
        None
    } else if first_serving(snippet_types.drop_last(), field, funcid) is Some {
        first_serving(snippet_types.drop_last(), field, funcid)
    } else if serves(snippet_types.last(), field, funcid) {
        Some(snippet_types.len() - 1)
    } else {
        None
    }
}

impl PlaceholderRules {
    /// What becomes of a call of `funcid` with the arguments `args`.
    pub open spec fn call_replacement(self, funcid: Oid, args: Seq<Node>) -> Replacement {
        if funcid == self.score_funcoid {
            Replacement::Score
        } else if (funcid == self.snippet_funcoid || funcid == self.snippet_positions_funcoid)
            && args.len() > 0 && args[0].var is Some {
            let column = (self.rti as Varno, args[0].var->0.varattno);
            if self.attnames.contains_key(column) {
                match first_serving(self.snippet_types, self.attnames[column], funcid) {
                    Some(number) => Replacement::Snippet(number),
                    None => Replacement::Keep,
                }
            } else {
                Replacement::Keep
            }
        } else {
            Replacement::Keep
        }
    }

    /// What becomes of the node `node`.
    pub open spec fn replacement(self, node: Node) -> Replacement {
        match node.tag {
            NodeTag::FuncExpr { funcid } => self.call_replacement(funcid, node.children@),
            _ => Replacement::Keep,
        }
    }

    /// The numbers of the snippet types for which constants are made in the tree `node`, in the
    /// order in which they are made.
    pub open spec fn made(self, node: Node) -> Seq<int>
        decreases node,
    {
        match self.replacement(node) {
            Replacement::Score => Seq::empty(),
            Replacement::Snippet(number) => seq![number],
            Replacement::Keep => if node.tag is Null {
                Seq::empty()
            } else {
                self.made_all(node.children@)
            },
        }
    }

    /// The same for the trees `nodes`, tree by tree.
    pub open spec fn made_all(self, nodes: Seq<Node>) -> Seq<int>
        decreases nodes,
    {
        if nodes.len() == 0 {
            Seq::empty()
        } else {
            self.made_all(nodes.drop_last()) + self.made(nodes.last())
        }
    }

    /// The tree `node` with its calls replaced, where the next snippet constant is `next`.
    pub open spec fn project(self, node: Node, next: int) -> ProjectedTree
        decreases node,
    {
        match self.replacement(node) {
            Replacement::Score => ProjectedTree::Score,
            Replacement::Snippet(_) => ProjectedTree::Snippet(next),
            Replacement::Keep => if node.tag is Null {
                ProjectedTree::Null
            } else {
                ProjectedTree::Kept {
                    id: node.id,
                    tag: node.tag,
                    children: self.project_all(node.children@, next),
                }
            },
        }
    }

    /// The trees `nodes` with their calls replaced, tree by tree.
    pub open spec fn project_all(self, nodes: Seq<Node>, next: int) -> Seq<ProjectedTree>
        decreases nodes,
    {
        if nodes.len() == 0 {
            Seq::empty()
        } else {
            let before = nodes.drop_last();
            self.project_all(before, next).push(
                self.project(nodes.last(), next + self.made_all(before).len()),
            )
        }
    }
}

/// The constant that stands for a score: a null of a four byte float, passed by value.
pub open spec fn score_const() -> Const {
    Const {
        consttype: FLOAT4OID,
        consttypmod: (-1) as i32,
        constcollid: INVALID_OID,
        constlen: 4,
        constvalue: NULL_DATUM,
        constisnull: true,
        constbyval: true,
    }
}

/// The constant that stands for a snippet: a null of variable length, passed by reference.
pub open spec fn snippet_const(nodeoid: Oid) -> Const {
    Const {
        consttype: nodeoid,
        consttypmod: (-1) as i32,
        constcollid: DEFAULT_COLLATION_OID,
        constlen: (-1) as i32,
        constvalue: NULL_DATUM,
        constisnull: true,
        constbyval: false,
    }
}

/// The positions at which `number` stands in `numbers`, in increasing order.
pub open spec fn positions(numbers: Seq<int>, number: int) -> Seq<int>
    decreases numbers.len(),
{
    if numbers.len() == 0 {
        Seq::empty()
    } else if numbers.last() == number {
        positions(numbers.drop_last(), number).push(numbers.len() - 1)
    } else {
        positions(numbers.drop_last(), number)
    }
}

/// The numbers in `all` as integers.
pub open spec fn as_ints(all: Seq<usize>) -> Seq<int> {
    all.map_values(|n: usize| n as int)
}

/// What a walk over a target list needs to know and gathers on its way.
struct Injector<'a> {
    rti: u32,
    score_funcoid: Oid,
    snippet_funcoid: Oid,
    snippet_positions_funcoid: Oid,
    attname_lookup: &'a AttnameLookup,
    snippet_types: &'a Vec<SnippetType>,
    /// The snippet types of the constants made so far.
    made: Vec<usize>,
}

impl<'a> Injector<'a> {
    spec fn rules(self) -> PlaceholderRules {
        PlaceholderRules {
            rti: self.rti,
            score_funcoid: self.score_funcoid,
            snippet_funcoid: self.snippet_funcoid,
            snippet_positions_funcoid: self.snippet_positions_funcoid,
            attnames: self.attname_lookup@,
            snippet_types: self.snippet_types@,
        }
    }

    /// The constants made so far are for snippet types that exist.
    spec fn well_formed(self) -> bool {
        forall|i: int|
            0 <= i < self.made@.len() ==> #[trigger] self.made@[i] < self.snippet_types@.len()
    }

    /// The number of the first snippet type that serves a call of `funcid` on `field`.
    fn first_serving(&self, field: &String, funcid: Oid) -> (number: Option<usize>)
        ensures
            match first_serving(self.snippet_types@, field@, funcid) {
                Some(n) => number == Some(n as usize) && 0 <= n < self.snippet_types.len(),
                None => number is None,
            },
    {
        let ghost types = self.snippet_types@;
        let mut i: usize = 0;
        assert(types.take(0) == Seq::<SnippetType>::empty());
        while i < self.snippet_types.len()
            invariant
                i <= self.snippet_types.len(),
                types == self.snippet_types@,
                first_serving(types.take(i as int), field@, funcid) is None,
            decreases self.snippet_types.len() - i,
        {
            let snippet_type = &self.snippet_types[i];
            assert(types.take(i + 1).drop_last() == types.take(i as int));
            if snippet_type.field == *field && snippet_type.funcoid == funcid {
                proof {
                    lemma_first_serving_stays(types, field@, funcid, i + 1);
                }
                return Some(i);
            }
            i += 1;
        }
        assert(types.take(types.len() as int) == types);
        None
    }

    /// Makes the constant for a call of `funcid` with the arguments `args`, if it is to be
    /// replaced.
    fn inner(&mut self, funcid: Oid, args: &Vec<Node>) -> (replacement: Option<ConstRef>)
        ensures
            final(self).rules() == old(self).rules(),
            match old(self).rules().call_replacement(funcid, args@) {
                Replacement::Keep => replacement is None && final(self).made@ == old(self).made@,
                Replacement::Score => replacement == Some(ConstRef::Score) && final(self).made@
                    == old(self).made@,
                Replacement::Snippet(number) => replacement == Some(
                    ConstRef::Snippet(old(self).made.len()),
                ) && final(self).made@ == old(self).made@.push(number as usize) && 0 <= number
                    < old(self).snippet_types.len(),
            },
    {
        if funcid == self.score_funcoid {
            return Some(ConstRef::Score);
        }
        if funcid == self.snippet_funcoid || funcid == self.snippet_positions_funcoid {
            if args.len() == 0 {
                return None;
            }
            match args[0].var {
                None => {
                    return None;
                },
                Some(var) => {
                    let varno = #[verifier::truncate] (self.rti as Varno);
                    if let Some(attname) = self.attname_lookup.get(varno, var.varattno) {
                        if let Some(number) = self.first_serving(attname, funcid) {
                            let made = self.made.len();
                            self.made.push(number);
                            return Some(ConstRef::Snippet(made));
                        }
                    }
                },
            }
        }
        None
    }

    /// The tree `node` with its calls replaced.
    fn walker(&mut self, node: &Node) -> (projected: Projected)
        requires
            old(self).well_formed(),
        ensures
            final(self).well_formed(),
            final(self).rules() == old(self).rules(),
            as_ints(final(self).made@) == as_ints(old(self).made@) + old(self).rules().made(*node),
            projected@ == old(self).rules().project(*node, old(self).made.len() as int),
        decreases node,
    {
        let ghost rules = self.rules();
        let ghost sofar = self.made@;
        match node.tag {
            NodeTag::Null => {
                return Projected::Null;
            },
            NodeTag::FuncExpr { funcid } => {
                if let Some(replacement) = self.inner(funcid, &node.children) {
                    assert(as_ints(self.made@) == as_ints(sofar) + rules.made(*node));
                    return Projected::Const(replacement);
                }
            },
            NodeTag::Other => {},
        }
        let ghost below = node.children@;
        let mut children: Vec<Projected> = Vec::new();
        let mut i: usize = 0;
        assert(below.take(0) == Seq::<Node>::empty());
        while i < node.children.len()
            invariant
                i <= node.children.len(),
                below == node.children@,
                self.well_formed(),
                self.rules() == rules,
                as_ints(self.made@) == as_ints(sofar) + rules.made_all(below.take(i as int)),
                trees_of(children@) == rules.project_all(below.take(i as int), sofar.len() as int),
            decreases node.children.len() - i,
        {
            let ghost before = children@;
            assert(below.take(i + 1).drop_last() == below.take(i as int));
            assert(self.made@.len() == as_ints(self.made@).len());
            let child = self.walker(&node.children[i]);
            children.push(child);
            assert(children@.drop_last() == before);
            i += 1;
        }
        assert(below.take(below.len() as int) == below);
        Projected::Kept { id: node.id, tag: node.tag, children }
    }
}

/// The first serving snippet type among some is the first among more.
proof fn lemma_first_serving_stays(
    snippet_types: Seq<SnippetType>,
    field: Seq<char>,
    funcid: Oid,
    n: int,
)
    requires
        0 <= n <= snippet_types.len(),
        first_serving(snippet_types.take(n), field, funcid) is Some,
    ensures
        first_serving(snippet_types, field, funcid) == first_serving(
            snippet_types.take(n),
            field,
            funcid,
        ),
    decreases snippet_types.len(),
{
    if n == snippet_types.len() {
        assert(snippet_types.take(n) == snippet_types);
    } else {
        assert(snippet_types.drop_last().take(n) == snippet_types.take(n));
        lemma_first_serving_stays(snippet_types.drop_last(), field, funcid, n);
    }
}

/// A target list with constants in place of its score and snippet calls, and the constants.
#[derive(Debug)]
pub struct InjectedPlaceholders {
    pub targetlist: Projected,
    /// The constant that stands at every `ConstRef::Score`.
    pub const_score_node: Const,
    /// The constants that stand at `ConstRef::Snippet`, by their numbers.
    pub snippet_nodes: Vec<Const>,
    /// For each snippet type that a constant was made for, by its number, the numbers of its
    /// constants.
    pub const_snippet_nodes: HashMap<usize, Vec<usize>>,
}

/// One constant for each number in `made`, of the type that the snippet type calls for.
fn make_consts(made: &Vec<usize>, snippet_types: &Vec<SnippetType>) -> (consts: Vec<Const>)
    requires
        forall|i: int| 0 <= i < made@.len() ==> #[trigger] made@[i] < snippet_types@.len(),
    ensures
        consts@.len() == made@.len(),
        forall|i: int|
            0 <= i < made@.len() ==> #[trigger] consts@[i] == snippet_const(
                snippet_types@[made@[i] as int].nodeoid,
            ),
{
    let mut consts: Vec<Const> = Vec::new();
    let mut i: usize = 0;
    while i < made.len()
        invariant
            i <= made.len(),
            forall|j: int| 0 <= j < made@.len() ==> #[trigger] made@[j] < snippet_types@.len(),
            consts@.len() == i,
            forall|j: int|
                0 <= j < i ==> #[trigger] consts@[j] == snippet_const(
                    snippet_types@[made@[j] as int].nodeoid,
                ),
        decreases made.len() - i,
    {
        consts.push(
            Const {
                consttype: snippet_types[made[i]].nodeoid,
                consttypmod: -1,
                constcollid: DEFAULT_COLLATION_OID,
                constlen: -1,
                constvalue: NULL_DATUM,
                constisnull: true,
                constbyval: false,
            },
        );
        i += 1;
    }
    consts
}

/// `groups` holds, for each number in `numbers`, the positions at which it stands there.
pub open spec fn groups_positions(groups: Map<usize, Vec<usize>>, numbers: Seq<int>) -> bool {
    &&& forall|number: usize|
        #[trigger] groups.contains_key(number) <==> numbers.contains(number as int)
    &&& forall|number: usize|
        #[trigger] groups.contains_key(number) ==> as_ints(groups[number]@) == positions(
            numbers,
            number as int,
        )
}

/// The positions of each number in `made`.
fn group_positions(made: &Vec<usize>) -> (groups: HashMap<usize, Vec<usize>>)
    ensures
        groups_positions(groups@, as_ints(made@)),
{
    let ghost numbers = as_ints(made@);
    let mut groups: HashMap<usize, Vec<usize>> = HashMap::new();
    let mut i: usize = 0;
    while i < made.len()
        invariant
            i <= made.len(),
            numbers == as_ints(made@),
            groups_positions(groups@, numbers.take(i as int)),
        decreases made.len() - i,
    {
        let number = made[i];
        let ghost before = groups@;
        let ghost seen = numbers.take(i as int);
        let mut group = match groups.remove(&number) {
            Some(group) => group,
            None => Vec::new(),
        };
        proof {
            if !seen.contains(number as int) {
                lemma_no_positions(seen, number as int);
            }
            assert(as_ints(group@) == positions(seen, number as int));
        }
        let ghost earlier = group@;
        group.push(i);
        assert(as_ints(group@) == as_ints(earlier).push(i as int));
        groups.insert(number, group);
        proof {
            let next = numbers.take(i + 1);
            assert(next == seen.push(number as int));
            assert(next.drop_last() == seen);
            assert(groups@ == before.insert(number, group));
            assert forall|n: usize| #[trigger]
                groups@.contains_key(n) <==> next.contains(n as int) by {
                if n == number {
                    assert(next[i as int] == n as int);
                } else {
                    assert(before.contains_key(n) <==> seen.contains(n as int));
                    if seen.contains(n as int) {
                        let k = choose|k: int| 0 <= k < seen.len() && seen[k] == n as int;
                        assert(next[k] == n as int);
                    }
                    if next.contains(n as int) {
                        let k = choose|k: int| 0 <= k < next.len() && next[k] == n as int;
                        assert(seen[k] == n as int);
                    }
                }
            }
            assert forall|n: usize| #[trigger] groups@.contains_key(n) implies as_ints(
                groups@[n]@,
            ) == positions(next, n as int) by {
                if n != number {
                    assert(before.contains_key(n));
                }
            }
        }
        i += 1;
    }
    assert(numbers.take(numbers.len() as int) == numbers);
    groups
}

/// A number that is not in `numbers` stands nowhere in it.
proof fn lemma_no_positions(numbers: Seq<int>, number: int)
    requires
        !numbers.contains(number),
    ensures
        positions(numbers, number) == Seq::<int>::empty(),
    decreases numbers.len(),
{
    if numbers.len() > 0 {
        assert(numbers.contains(numbers.last()));
        let before = numbers.drop_last();
        assert forall|k: int| 0 <= k < before.len() implies before[k] != number by {
            assert(numbers.contains(numbers[k]));
        }
        lemma_no_positions(before, number);
    }
}

/// Puts constants in place of the score and snippet calls of the target list `targetlist`.
///
/// A score call becomes the one constant that all of them share. A snippet call becomes a constant
/// of its own if its first argument is a column whose field one of `snippet_types` is cut from, for
/// the function called; the first such snippet type counts. Any other node stays, with what becomes
/// of the nodes below it. The numbers of snippet types are their places in `snippet_types`.
pub fn inject_placeholders(
    targetlist: &Node,
    rti: u32,
    score_funcoid: Oid,
    snippet_funcoid: Oid,
    snippet_positions_funcoid: Oid,
    attname_lookup: &AttnameLookup,
    snippet_types: &Vec<SnippetType>,
) -> (injected: InjectedPlaceholders)
    ensures
        ({
            let rules = PlaceholderRules {
                rti,
                score_funcoid,
                snippet_funcoid,
                snippet_positions_funcoid,
                attnames: attname_lookup@,
                snippet_types: snippet_types@,
            };
            let made = rules.made(*targetlist);
            &&& injected.targetlist@ == rules.project(*targetlist, 0)
            &&& injected.const_score_node == score_const()
            &&& injected.snippet_nodes@ == made.map_values(
                |number: int| snippet_const(snippet_types@[number].nodeoid),
            )
            &&& groups_positions(injected.const_snippet_nodes@, made)
        }),
        injected.const_score_node.consttype == 700 && injected.const_score_node.constlen == 4
            && injected.const_score_node.constisnull && injected.const_score_node.constbyval,
        forall|n: int|
            0 <= n < injected.snippet_nodes@.len() ==> {
                &&& (#[trigger] injected.snippet_nodes@[n]).constisnull
                &&& !injected.snippet_nodes@[n].constbyval
                &&& injected.snippet_nodes@[n].constlen == -1
                &&& injected.snippet_nodes@[n].constcollid == 100
            },
{
    let mut injector = Injector {
        rti,
        score_funcoid,
        snippet_funcoid,
        snippet_positions_funcoid,
        attname_lookup,
        snippet_types,
        made: Vec::new(),
    };
    let ghost rules = injector.rules();
    let projected = injector.walker(targetlist);
    assert(as_ints(injector.made@) == rules.made(*targetlist));
    let snippet_nodes = make_consts(&injector.made, snippet_types);
    let const_snippet_nodes = group_positions(&injector.made);
    InjectedPlaceholders {
        targetlist: projected,
        const_score_node: Const {
            consttype: FLOAT4OID,
            consttypmod: -1,
            constcollid: INVALID_OID,
            constlen: 4,
            constvalue: NULL_DATUM,
            constisnull: true,
            constbyval: true,
        },
        snippet_nodes,
        const_snippet_nodes,
    }
}

} // verus!
