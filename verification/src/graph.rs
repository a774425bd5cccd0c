//! The query graph: a DAG of pending operations, control flow and
//! computations, with typed edges carrying data and ordering dependencies.
//!
//! Nodes live in an arena; visiting the graph plucks node and edge payloads
//! out (tombstoning the slot), so the same payload cannot be consumed twice.
//! Each node carries a "subgraph contains a result node" bit, maintained
//! eagerly as edges are added and nodes are flagged.
use vstd::prelude::*;

use crate::filter::Filter;
use crate::values::{SelectionResult, WriteArgs};

verus! {

/// Tag of the pending semantic database operation of a query node.
#[derive(Clone, Copy, Debug, PartialEq, Eq, Structural)]
pub enum QueryOp {
    Read,
    Create,
    Update,
    Upsert,
    Delete,
    Aggregate,
    Raw,
}

/// A pending database operation, together with the slots that parent
/// dependencies write into before it runs.
#[derive(Debug)]
pub struct QueryNode {
    /// What the operation does.
    pub op: QueryOp,
    /// The model the operation runs against, if any.
    pub model: Option<usize>,
    /// Single-row slot filled by a `Single` row sink.
    pub parent_result: Option<SelectionResult>,
    /// Multi-row slot filled by row sinks and transformers.
    pub parent_results: Vec<SelectionResult>,
    /// Filter slot replaced by an `ExactlyOneFilter` sink.
    pub filter: Option<Filter>,
    /// Write arguments assimilating parent rows under `ExactlyOneWriteArgs`.
    pub write_args: Vec<WriteArgs>,
    /// Fields refreshed to the current time when a parent row is assimilated
    /// into the write arguments.
    pub updated_at_fields: Vec<usize>,
}

/// The two set-difference computations over selector row lists.
#[derive(Debug)]
pub struct DiffNode {
    pub left: Vec<SelectionResult>,
    pub right: Vec<SelectionResult>,
}

#[derive(Debug)]
pub enum Computation {
    DiffLeftToRight(DiffNode),
    DiffRightToLeft(DiffNode),
}

/// The predicate of an `If` flow node, evaluated against a fixed row list.
#[derive(Clone, Copy, Debug, PartialEq, Eq, Structural)]
pub enum Rule {
    /// The rows are non-empty.
    NonEmpty,
    /// The rows are empty.
    Empty,
}

impl Rule {
    /// The model of the predicate on a row count.
    pub open spec fn spec_matches(self, count: nat) -> bool {
        match self {
            Rule::NonEmpty => count > 0,
            Rule::Empty => count == 0,
        }
    }

    /// Evaluates the predicate against a fixed row list.
    pub fn matches_result(&self, rows: &Vec<SelectionResult>) -> (r: bool)
        ensures
            r == self.spec_matches(rows@.len()),
    {
        match self {
            Rule::NonEmpty => rows.len() > 0,
            Rule::Empty => rows.len() == 0,
        }
    }
}

/// A control-flow node: a runtime branch or an early return.
#[derive(Debug)]
pub enum Flow {
    If { rule: Rule, data: Vec<SelectionResult> },
    Return(Vec<SelectionResult>),
}

/// A graph node's payload.
#[derive(Debug)]
pub enum Node {
    Query(QueryNode),
    Flow(Flow),
    Computation(Computation),
    Empty,
}

/// A row-count expectation attached to a dependency, checked against the
/// parent's result when the dependency runs.
#[derive(Clone, Copy, Debug, PartialEq, Eq, Structural)]
pub enum Expectation {
    RowCountEq(usize),
    RowCountAtLeast(usize),
    RowCountAtMost(usize),
}

impl Expectation {
    /// The model of the expectation on a row count.
    pub open spec fn spec_holds(self, count: nat) -> bool {
        match self {
            Expectation::RowCountEq(n) => count == n,
            Expectation::RowCountAtLeast(n) => count >= n,
            Expectation::RowCountAtMost(n) => count <= n,
        }
    }

    /// Checks the expectation against a row count.
    pub fn check(&self, count: usize) -> (r: bool)
        ensures
            r == self.spec_holds(count as nat),
    {
        match self {
            Expectation::RowCountEq(n) => count == *n,
            Expectation::RowCountAtLeast(n) => count >= *n,
            Expectation::RowCountAtMost(n) => count <= *n,
        }
    }
}

/// A pure node rewrite applied with the parent's projected rows, named so
/// that it can be carried on an edge and run at interpretation time.
#[derive(Clone, Copy, Debug, PartialEq, Eq, Structural)]
pub enum TransformerFn {
    /// Replace the node's `parent_results` slot with the rows.
    SetParentResults,
    /// Append the rows to the node's `parent_results` slot.
    AppendParentResults,
}

/// The multi-row slot of a node a row sink writes into.
#[derive(Clone, Copy, Debug, PartialEq, Eq, Structural)]
pub enum RowsField {
    /// `parent_results` of a query node.
    ParentResults,
    /// `left` of a computation node.
    DiffLeft,
    /// `right` of a computation node.
    DiffRight,
}

/// How a child consumes the parent's projected rows.
#[derive(Debug)]
pub enum RowSink {
    /// At least one row; the last one fills the single-row slot.
    Single,
    /// All rows fill the designated multi-row slot.
    All(RowsField),
    /// The rows, truncated to at most one, fill the designated slot.
    AtMostOne(RowsField),
    /// Exactly one row (checked by the edge's expectation) fills the
    /// designated slot as a one-element list.
    ExactlyOne(RowsField),
    /// Exactly one row, converted to an equality filter, replaces the node's
    /// filter slot.
    ExactlyOneFilter,
    /// Exactly one row is assimilated under the given selection into every
    /// write-argument record of the node.
    ExactlyOneWriteArgs(Vec<usize>),
    /// The rows are dropped; only the expectation matters.
    Discard,
}

/// How a child consumes the parent's row count.
#[derive(Clone, Copy, Debug, PartialEq, Eq, Structural)]
pub enum RowCountSink {
    Discard,
}

/// The payload of a graph edge.
#[derive(Debug)]
pub enum QueryGraphDependency {
    /// Pure ordering; carries no data.
    ExecutionOrder,
    /// Branch selector out of an `If` node.
    Then,
    /// Branch selector out of an `If` node.
    Else,
    /// The child is rewritten by a transformer run on a projection of the
    /// parent's result.
    ProjectedData {
        selection: Vec<usize>,
        transformer: TransformerFn,
        expectation: Option<Expectation>,
    },
    /// A projection of the parent's result is written into a field of the
    /// child node.
    ProjectedDataSink { selection: Vec<usize>, sink: RowSink, expectation: Option<Expectation> },
    /// The child consumes only the parent's row count.
    Data { sink: RowCountSink, expectation: Option<Expectation> },
}

impl QueryGraphDependency {
    /// Whether this dependency rewrites the child with the parent's result.
    pub open spec fn spec_is_transformer(self) -> bool {
        match self {
            QueryGraphDependency::ProjectedData { .. } => true,
            QueryGraphDependency::ProjectedDataSink { .. } => true,
            QueryGraphDependency::Data { .. } => true,
            _ => false,
        }
    }
}

/// A directed edge; the payload is tombstoned once plucked.
#[derive(Debug)]
pub struct EdgeRecord {
    pub source: usize,
    pub target: usize,
    pub content: Option<QueryGraphDependency>,
}

/// Payload consumption composes.
pub proof fn lemma_consumed_trans(a: QueryGraph, b: QueryGraph, c: QueryGraph)
    requires
        b.consumed_from(a),
        c.consumed_from(b),
    ensures
        c.consumed_from(a),
{
    assert forall|i: int|
        0 <= i < c.nodes@.len() implies ((#[trigger] c.nodes@[i]) == a.nodes@[i] || c.nodes@[i]
        is None) by {
        assert(b.nodes@[i] == a.nodes@[i] || b.nodes@[i] is None);
    }
    assert forall|e: int|
        0 <= e < c.edges@.len() implies ((#[trigger] c.edges@[e]).source == a.edges@[e].source
        && c.edges@[e].target == a.edges@[e].target && (c.edges@[e].content == a.edges@[e].content
        || c.edges@[e].content is None)) by {
        assert(b.edges@[e].source == a.edges@[e].source && b.edges@[e].target
            == a.edges@[e].target && (b.edges@[e].content == a.edges@[e].content
            || b.edges@[e].content is None));
    }
}

/// A graph is consumed from itself.
pub proof fn lemma_consumed_refl(a: QueryGraph)
    ensures
        a.consumed_from(a),
{
}

/// Number of `false` entries of a boolean sequence.
pub open spec fn count_false(s: Seq<bool>) -> nat
    decreases s.len(),
{
    if s.len() == 0 {
        0
    } else {
        (if !s[0] {
            1nat
        } else {
            0nat
        }) + count_false(s.drop_first())
    }
}

/// Setting a `false` entry to `true` lowers the count by one; re-setting a
/// `true` entry keeps it.
pub proof fn lemma_count_false_update(s: Seq<bool>, i: int)
    requires
        0 <= i < s.len(),
    ensures
        !s[i] ==> count_false(s.update(i, true)) + 1 == count_false(s),
        s[i] ==> count_false(s.update(i, true)) == count_false(s),
    decreases s.len(),
{
    if s.len() > 0 {
        if i == 0 {
            assert(s.update(0, true).drop_first() =~= s.drop_first());
        } else {
            lemma_count_false_update(s.drop_first(), i - 1);
            assert(s.update(i, true).drop_first() =~= s.drop_first().update(i - 1, true));
        }
    }
}

/// The query graph arena.
#[derive(Debug)]
pub struct QueryGraph {
    /// Node payloads; `None` once plucked.
    pub nodes: Vec<Option<Node>>,
    /// Edges in insertion order, which is the graph's child iteration order.
    pub edges: Vec<EdgeRecord>,
    /// Per node: already consumed by the compiler.
    pub visited: Vec<bool>,
    /// Per node: flagged as a result node.
    pub result_flags: Vec<bool>,
    /// Per node: the node or some descendant is a result node.
    pub contains_result: Vec<bool>,
}

impl QueryGraph {
    /// Structural well-formedness: the side arrays track the arena and every
    /// edge endpoint is a valid node.
    pub open spec fn wf(self) -> bool {
        &&& self.visited@.len() == self.nodes@.len()
        &&& self.result_flags@.len() == self.nodes@.len()
        &&& self.contains_result@.len() == self.nodes@.len()
        &&& forall|e: int|
            0 <= e < self.edges@.len() ==> (#[trigger] self.edges@[e]).source < self.nodes@.len()
                && self.edges@[e].target < self.nodes@.len()
    }

    /// Number of nodes not yet visited; the compiler's termination measure.
    pub open spec fn spec_unvisited(self) -> nat {
        count_false(self.visited@)
    }

    /// The graph is the earlier one with some payloads consumed: the arena
    /// and the edge endpoints are unchanged, and every node payload and edge
    /// payload is either the earlier one or tombstoned.
    pub open spec fn consumed_from(self, earlier: QueryGraph) -> bool {
        &&& self.nodes@.len() == earlier.nodes@.len()
        &&& forall|i: int|
            0 <= i < self.nodes@.len() ==> ((#[trigger] self.nodes@[i]) == earlier.nodes@[i]
                || self.nodes@[i] is None)
        &&& self.edges@.len() == earlier.edges@.len()
        &&& forall|e: int|
            0 <= e < self.edges@.len() ==> ((#[trigger] self.edges@[e]).source
                == earlier.edges@[e].source && self.edges@[e].target == earlier.edges@[e].target
                && (self.edges@[e].content == earlier.edges@[e].content || self.edges@[e].content
                is None))
    }

    /// The contains-result bits are closed under the edges: a node whose
    /// child's subgraph holds a result node holds one itself; and every
    /// result node's own bit is set. Graph construction maintains this, so
    /// the bit means what its name says.
    pub open spec fn result_closed(self) -> bool {
        &&& forall|e: int|
            0 <= e < self.edges@.len() && self.contains_result@[(
            #[trigger] self.edges@[e]).target as int] ==> self.contains_result@[self.edges@[e].source as int]
        &&& forall|i: int|
            0 <= i < self.result_flags@.len() && #[trigger] self.result_flags@[i]
                ==> self.contains_result@[i]
    }

    /// An empty graph.
    pub fn new() -> (r: QueryGraph)
        ensures
            r.wf(),
            r.result_closed(),
            r.nodes@.len() == 0,
            r.edges@.len() == 0,
    {
        QueryGraph {
            nodes: Vec::new(),
            edges: Vec::new(),
            visited: Vec::new(),
            result_flags: Vec::new(),
            contains_result: Vec::new(),
        }
    }

    /// Adds a node and returns its identifier.
    pub fn add_node(&mut self, content: Node) -> (id: usize)
        requires
            old(self).wf(),
        ensures
            final(self).wf(),
            old(self).result_closed() ==> final(self).result_closed(),
            id == old(self).nodes@.len(),
            final(self).nodes@ == old(self).nodes@.push(Some(content)),
            final(self).edges@ == old(self).edges@,
            final(self).visited@ == old(self).visited@.push(false),
            final(self).result_flags@ == old(self).result_flags@.push(false),
            final(self).contains_result@ == old(self).contains_result@.push(false),
    {
        let id = self.nodes.len();
        self.nodes.push(Some(content));
        self.visited.push(false);
        self.result_flags.push(false);
        self.contains_result.push(false);
        id
    }

    /// Marks every ancestor of the nodes on the worklist as containing a
    /// result node.
    fn propagate_contains_result(&mut self, start: usize)
        requires
            old(self).wf(),
            start < old(self).nodes@.len(),
        ensures
            final(self).wf(),
            final(self).nodes@ == old(self).nodes@,
            final(self).edges@ == old(self).edges@,
            final(self).visited@ == old(self).visited@,
            final(self).result_flags@ == old(self).result_flags@,
            final(self).contains_result@.len() == old(self).contains_result@.len(),
            final(self).contains_result@[start as int],
            forall|i: int|
                0 <= i < old(self).contains_result@.len() && old(self).contains_result@[i]
                    ==> final(self).contains_result@[i],
            (forall|e: int|
                0 <= e < old(self).edges@.len() && old(self).contains_result@[(
                #[trigger] old(self).edges@[e]).target as int] ==> (old(self).contains_result@[old(self).edges@[e].source as int]
                    || old(self).edges@[e].source == start)) ==> (forall|e: int|
                0 <= e < final(self).edges@.len() && final(self).contains_result@[(
                #[trigger] final(self).edges@[e]).target as int] ==> final(self).contains_result@[final(self).edges@[e].source as int]),
    {
        let ghost pre_ok: bool = forall|e: int|
            0 <= e < self.edges@.len() && self.contains_result@[(
            #[trigger] self.edges@[e]).target as int] ==> (self.contains_result@[self.edges@[e].source as int]
                || self.edges@[e].source == start);
        let mut worklist: Vec<usize> = Vec::new();
        if !self.contains_result[start] {
            self.contains_result.set(start, true);
            proof {
                lemma_count_false_update(old(self).contains_result@, start as int);
            }
            worklist.push(start);
        }
        proof {
            if pre_ok {
                assert forall|e: int|
                    0 <= e < self.edges@.len() && self.contains_result@[(
                    #[trigger] self.edges@[e]).target as int] implies (self.contains_result@[self.edges@[e].source as int]
                    || exists|k: int|
                    0 <= k < worklist@.len() && worklist@[k] == self.edges@[e].target) by {
                    if self.edges@[e].target == start {
                        if worklist@.len() > 0 {
                            assert(worklist@[0] == self.edges@[e].target);
                        }
                    } else {
                        assert(old(self).contains_result@[self.edges@[e].target as int]);
                    }
                }
            }
        }
        while worklist.len() > 0
            invariant
                self.wf(),
                self.nodes@ == old(self).nodes@,
                self.edges@ == old(self).edges@,
                self.visited@ == old(self).visited@,
                self.result_flags@ == old(self).result_flags@,
                self.contains_result@.len() == old(self).contains_result@.len(),
                start < self.nodes@.len(),
                self.contains_result@[start as int],
                forall|i: int|
                    0 <= i < old(self).contains_result@.len() && old(self).contains_result@[i]
                        ==> self.contains_result@[i],
                forall|k: int|
                    0 <= k < worklist@.len() ==> (#[trigger] worklist@[k]) < self.nodes@.len(),
                forall|k: int|
                    0 <= k < worklist@.len() ==> self.contains_result@[(
                    #[trigger] worklist@[k]) as int],
                pre_ok ==> (forall|e: int|
                    0 <= e < self.edges@.len() && self.contains_result@[(
                    #[trigger] self.edges@[e]).target as int] ==> (self.contains_result@[self.edges@[e].source as int]
                        || exists|k: int|
                        0 <= k < worklist@.len() && worklist@[k] == self.edges@[e].target)),
            decreases count_false(self.contains_result@), worklist@.len(),
        {
            let ghost count0 = count_false(self.contains_result@);
            let ghost len0 = worklist@.len();
            let ghost pre_pop = worklist@;
            let b = worklist.pop().unwrap();
            proof {
                if pre_ok {
                    assert forall|e2: int|
                        0 <= e2 < self.edges@.len() && self.contains_result@[(
                        #[trigger] self.edges@[e2]).target as int] implies (
                        self.contains_result@[self.edges@[e2].source as int] || (exists|k: int|
                            0 <= k < worklist@.len() && worklist@[k] == self.edges@[e2].target)
                            || self.edges@[e2].target == b) by {
                        let tgt = self.edges@[e2].target;
                        if !self.contains_result@[self.edges@[e2].source as int] && tgt != b {
                            let k = choose|k: int|
                                0 <= k < pre_pop.len() && #[trigger] pre_pop[k] == tgt;
                            assert(k < pre_pop.len() - 1);
                            assert(worklist@[k] == tgt);
                        }
                    }
                }
            }
            let ghost pushes: nat = 0nat;
            let mut e: usize = 0;
            while e < self.edges.len()
                invariant
                    self.wf(),
                    self.nodes@ == old(self).nodes@,
                    self.edges@ == old(self).edges@,
                    self.visited@ == old(self).visited@,
                    self.result_flags@ == old(self).result_flags@,
                    self.contains_result@.len() == old(self).contains_result@.len(),
                    start < self.nodes@.len(),
                    b < self.nodes@.len(),
                    e <= self.edges@.len(),
                    self.contains_result@[start as int],
                    self.contains_result@[b as int],
                    forall|i: int|
                        0 <= i < old(self).contains_result@.len() && old(
                            self,
                        ).contains_result@[i] ==> self.contains_result@[i],
                    forall|k: int|
                        0 <= k < worklist@.len() ==> (#[trigger] worklist@[k])
                            < self.nodes@.len(),
                    forall|k: int|
                        0 <= k < worklist@.len() ==> self.contains_result@[(
                        #[trigger] worklist@[k]) as int],
                    worklist@.len() == len0 - 1 + pushes,
                    count_false(self.contains_result@) + pushes <= count0,
                    pre_ok ==> (forall|e2: int|
                        0 <= e2 < self.edges@.len() && self.contains_result@[(
                        #[trigger] self.edges@[e2]).target as int] ==> (
                        self.contains_result@[self.edges@[e2].source as int] || (exists|k: int|
                            0 <= k < worklist@.len() && worklist@[k] == self.edges@[e2].target)
                            || (self.edges@[e2].target == b && e2 >= e))),
                decreases self.edges@.len() - e,
            {
                let ghost pre_mark = self.contains_result@;
                let ghost pre_list = worklist@;
                if self.edges[e].target == b {
                    let src = self.edges[e].source;
                    if !self.contains_result[src] {
                        proof {
                            lemma_count_false_update(self.contains_result@, src as int);
                        }
                        self.contains_result.set(src, true);
                        worklist.push(src);
                        proof {
                            pushes = pushes + 1;
                        }
                    }
                }
                e = e + 1;
                proof {
                    if pre_ok {
                        assert forall|e2: int|
                            0 <= e2 < self.edges@.len() && self.contains_result@[(
                            #[trigger] self.edges@[e2]).target as int] implies (
                            self.contains_result@[self.edges@[e2].source as int] || (exists|
                                k: int,
                            |
                                0 <= k < worklist@.len() && worklist@[k]
                                    == self.edges@[e2].target) || (self.edges@[e2].target == b
                                && e2 >= e)) by {
                            let tgt = self.edges@[e2].target;
                            let src2 = self.edges@[e2].source;
                            if !pre_mark[tgt as int] {
                                assert(worklist@[worklist@.len() - 1] == tgt);
                            } else if pre_mark[src2 as int] {
                                assert(self.contains_result@[src2 as int]);
                            } else if exists|k: int|
                                0 <= k < pre_list.len() && #[trigger] pre_list[k] == tgt {
                                let k = choose|k: int|
                                    0 <= k < pre_list.len() && #[trigger] pre_list[k] == tgt;
                                assert(worklist@[k] == tgt);
                            } else {
                                assert(tgt == b && e2 >= e - 1);
                                if e2 == e - 1 {
                                    assert(self.contains_result@[src2 as int]);
                                }
                            }
                        }
                    }
                }
            }
        }
    }

    /// Adds an edge from `source` to `target` carrying `content`, keeping the
    /// contains-result bits closed under the new edge. Returns the edge id.
    pub fn add_edge(
        &mut self,
        source: usize,
        target: usize,
        content: QueryGraphDependency,
    ) -> (id: usize)
        requires
            old(self).wf(),
            source < old(self).nodes@.len(),
            target < old(self).nodes@.len(),
        ensures
            final(self).wf(),
            old(self).result_closed() ==> final(self).result_closed(),
            id == old(self).edges@.len(),
            final(self).nodes@ == old(self).nodes@,
            final(self).visited@ == old(self).visited@,
            final(self).result_flags@ == old(self).result_flags@,
            final(self).contains_result@.len() == old(self).contains_result@.len(),
            final(self).edges@.len() == old(self).edges@.len() + 1,
            forall|e: int| 0 <= e < old(self).edges@.len() ==> final(self).edges@[e] == old(self).edges@[e],
            final(self).edges@[old(self).edges@.len() as int].source == source,
            final(self).edges@[old(self).edges@.len() as int].target == target,
            final(self).edges@[old(self).edges@.len() as int].content == Some(content),
            forall|i: int|
                0 <= i < old(self).contains_result@.len() && old(self).contains_result@[i]
                    ==> final(self).contains_result@[i],
    {
        let id = self.edges.len();
        self.edges.push(EdgeRecord { source, target, content: Some(content) });
        if self.contains_result[target] {
            self.propagate_contains_result(source);
        }
        id
    }

    /// Flags a node as a result node and propagates the contains-result bit
    /// to its ancestors.
    pub fn mark_result(&mut self, n: usize)
        requires
            old(self).wf(),
            n < old(self).nodes@.len(),
        ensures
            final(self).wf(),
            old(self).result_closed() ==> final(self).result_closed(),
            final(self).nodes@ == old(self).nodes@,
            final(self).edges@ == old(self).edges@,
            final(self).visited@ == old(self).visited@,
            final(self).result_flags@ == old(self).result_flags@.update(n as int, true),
            final(self).contains_result@.len() == old(self).contains_result@.len(),
            final(self).contains_result@[n as int],
            forall|i: int|
                0 <= i < old(self).contains_result@.len() && old(self).contains_result@[i]
                    ==> final(self).contains_result@[i],
    {
        self.result_flags.set(n, true);
        self.propagate_contains_result(n);
    }

    /// Whether the node is flagged as a result node.
    pub fn is_result_node(&self, n: usize) -> (r: bool)
        requires
            n < self.nodes@.len(),
            self.wf(),
        ensures
            r == self.result_flags@[n as int],
    {
        self.result_flags[n]
    }

    /// Whether the node or some descendant is a result node.
    pub fn subgraph_contains_result(&self, n: usize) -> (r: bool)
        requires
            n < self.nodes@.len(),
            self.wf(),
        ensures
            r == self.contains_result@[n as int],
    {
        self.contains_result[n]
    }

    /// Whether the node has been consumed by the compiler.
    pub fn is_visited(&self, n: usize) -> (r: bool)
        requires
            n < self.nodes@.len(),
            self.wf(),
        ensures
            r == self.visited@[n as int],
    {
        self.visited[n]
    }

    /// Marks a node as consumed.
    pub fn mark_visited(&mut self, n: usize)
        requires
            old(self).wf(),
            n < old(self).nodes@.len(),
        ensures
            final(self).wf(),
            final(self).nodes@ == old(self).nodes@,
            final(self).edges@ == old(self).edges@,
            final(self).result_flags@ == old(self).result_flags@,
            final(self).contains_result@ == old(self).contains_result@,
            final(self).visited@ == old(self).visited@.update(n as int, true),
            !old(self).visited@[n as int] ==> final(self).spec_unvisited() + 1 == old(
                self,
            ).spec_unvisited(),
            old(self).visited@[n as int] ==> final(self).spec_unvisited() == old(self).spec_unvisited(),
    {
        proof {
            lemma_count_false_update(self.visited@, n as int);
        }
        self.visited.set(n, true);
    }

    /// Moves the node's payload out, tombstoning the slot.
    pub fn pluck_node(&mut self, n: usize) -> (r: Option<Node>)
        requires
            old(self).wf(),
            n < old(self).nodes@.len(),
        ensures
            final(self).wf(),
            r == old(self).nodes@[n as int],
            final(self).nodes@ == old(self).nodes@.update(n as int, None),
            final(self).edges@ == old(self).edges@,
            final(self).visited@ == old(self).visited@,
            final(self).result_flags@ == old(self).result_flags@,
            final(self).contains_result@ == old(self).contains_result@,
    {
        let slot = self.nodes.remove(n);
        self.nodes.insert(n, None);
        proof {
            assert(self.nodes@ =~= old(self).nodes@.update(n as int, None));
        }
        slot
    }

    /// Moves the edge's payload out, tombstoning the slot; the edge itself
    /// stays, so structural queries still see it.
    pub fn pluck_edge(&mut self, e: usize) -> (r: Option<QueryGraphDependency>)
        requires
            old(self).wf(),
            e < old(self).edges@.len(),
        ensures
            final(self).wf(),
            r == old(self).edges@[e as int].content,
            final(self).edges@.len() == old(self).edges@.len(),
            forall|k: int|
                0 <= k < final(self).edges@.len() && k != e ==> final(self).edges@[k] == old(self).edges@[k],
            final(self).edges@[e as int].source == old(self).edges@[e as int].source,
            final(self).edges@[e as int].target == old(self).edges@[e as int].target,
            final(self).edges@[e as int].content is None,
            final(self).nodes@ == old(self).nodes@,
            final(self).visited@ == old(self).visited@,
            final(self).result_flags@ == old(self).result_flags@,
            final(self).contains_result@ == old(self).contains_result@,
    {
        let source = self.edges[e].source;
        let target = self.edges[e].target;
        let rec = self.edges.remove(e);
        self.edges.insert(e, EdgeRecord { source, target, content: None });
        rec.content
    }

    /// The node's payload, if not yet plucked.
    pub fn node_content(&self, n: usize) -> (r: Option<&Node>)
        requires
            self.wf(),
            n < self.nodes@.len(),
        ensures
            match r {
                Some(c) => self.nodes@[n as int] == Some(*c),
                None => self.nodes@[n as int] is None,
            },
    {
        match &self.nodes[n] {
            Some(c) => Some(c),
            None => None,
        }
    }

    /// The edge's payload, if not yet plucked.
    pub fn edge_content(&self, e: usize) -> (r: Option<&QueryGraphDependency>)
        requires
            self.wf(),
            e < self.edges@.len(),
        ensures
            match r {
                Some(c) => self.edges@[e as int].content == Some(*c),
                None => self.edges@[e as int].content is None,
            },
    {
        match &self.edges[e].content {
            Some(c) => Some(c),
            None => None,
        }
    }

    /// The source node of an edge.
    pub fn edge_source(&self, e: usize) -> (r: usize)
        requires
            self.wf(),
            e < self.edges@.len(),
        ensures
            r == self.edges@[e as int].source,
            r < self.nodes@.len(),
    {
        self.edges[e].source
    }

    /// Whether node `n` has no incoming edge.
    pub open spec fn spec_is_root(self, n: int) -> bool {
        forall|e: int| 0 <= e < self.edges@.len() ==> (#[trigger] self.edges@[e]).target != n
    }

    /// The root nodes among the first `k`, in identifier order.
    pub open spec fn spec_roots_upto(self, k: int) -> Seq<usize>
        decreases k,
    {
        if k <= 0 {
            Seq::empty()
        } else {
            self.spec_roots_upto(k - 1) + (if self.spec_is_root(k - 1) {
                seq![(k - 1) as usize]
            } else {
                Seq::empty()
            })
        }
    }

    /// All root nodes in identifier order.
    pub open spec fn spec_roots(self) -> Seq<usize> {
        self.spec_roots_upto(self.nodes@.len() as int)
    }

    /// The nodes with no incoming edge, in identifier order.
    pub fn root_nodes(&self) -> (r: Vec<usize>)
        requires
            self.wf(),
        ensures
            r@ == self.spec_roots(),
    {
        let mut out: Vec<usize> = Vec::new();
        let mut n: usize = 0;
        while n < self.nodes.len()
            invariant
                self.wf(),
                n <= self.nodes@.len(),
                out@ == self.spec_roots_upto(n as int),
            decreases self.nodes@.len() - n,
        {
            let mut has_incoming = false;
            let mut e: usize = 0;
            while e < self.edges.len()
                invariant
                    self.wf(),
                    n < self.nodes@.len(),
                    e <= self.edges@.len(),
                    has_incoming == exists|k: int|
                        0 <= k < e && (#[trigger] self.edges@[k]).target == n,
                decreases self.edges@.len() - e,
            {
                if self.edges[e].target == n {
                    has_incoming = true;
                }
                e = e + 1;
            }
            if !has_incoming {
                out.push(n);
            }
            n = n + 1;
        }
        out
    }

    /// The `(edge, child)` pairs of edges leaving `n`, among the first `k`
    /// edges, in edge order.
    pub open spec fn spec_children_upto(self, n: int, k: int) -> Seq<(usize, usize)>
        decreases k,
    {
        if k <= 0 {
            Seq::empty()
        } else {
            self.spec_children_upto(n, k - 1) + (if self.edges@[k - 1].source == n {
                seq![((k - 1) as usize, self.edges@[k - 1].target)]
            } else {
                Seq::empty()
            })
        }
    }

    /// All `(edge, child)` pairs of edges leaving `n`, in edge order.
    pub open spec fn spec_children(self, n: int) -> Seq<(usize, usize)> {
        self.spec_children_upto(n, self.edges@.len() as int)
    }

    /// The direct `(edge, child)` pairs of a node, in edge insertion order —
    /// the graph's child iteration order.
    pub fn direct_child_pairs(&self, n: usize) -> (r: Vec<(usize, usize)>)
        requires
            self.wf(),
            n < self.nodes@.len(),
        ensures
            r@ == self.spec_children(n as int),
    {
        let mut out: Vec<(usize, usize)> = Vec::new();
        let mut e: usize = 0;
        while e < self.edges.len()
            invariant
                self.wf(),
                e <= self.edges@.len(),
                out@ == self.spec_children_upto(n as int, e as int),
            decreases self.edges@.len() - e,
        {
            if self.edges[e].source == n {
                out.push((e, self.edges[e].target));
            }
            e = e + 1;
        }
        out
    }

    /// The edges entering `n`, among the first `k` edges, in edge order.
    pub open spec fn spec_incoming_upto(self, n: int, k: int) -> Seq<usize>
        decreases k,
    {
        if k <= 0 {
            Seq::empty()
        } else {
            self.spec_incoming_upto(n, k - 1) + (if self.edges@[k - 1].target == n {
                seq![(k - 1) as usize]
            } else {
                Seq::empty()
            })
        }
    }

    /// All edges entering `n`, in edge order.
    pub open spec fn spec_incoming(self, n: int) -> Seq<usize> {
        self.spec_incoming_upto(n, self.edges@.len() as int)
    }

    /// The edges entering a node, in edge insertion order.
    pub fn incoming_edges(&self, n: usize) -> (r: Vec<usize>)
        requires
            self.wf(),
            n < self.nodes@.len(),
        ensures
            r@ == self.spec_incoming(n as int),
    {
        let mut out: Vec<usize> = Vec::new();
        let mut e: usize = 0;
        while e < self.edges.len()
            invariant
                self.wf(),
                e <= self.edges@.len(),
                out@ == self.spec_incoming_upto(n as int, e as int),
            decreases self.edges@.len() - e,
        {
            if self.edges[e].target == n {
                out.push(e);
            }
            e = e + 1;
        }
        out
    }

    /// The result-flagged nodes among the first `k`, in identifier order.
    pub open spec fn spec_result_nodes_upto(self, k: int) -> Seq<usize>
        decreases k,
    {
        if k <= 0 {
            Seq::empty()
        } else {
            self.spec_result_nodes_upto(k - 1) + (if self.result_flags@[k - 1] {
                seq![(k - 1) as usize]
            } else {
                Seq::empty()
            })
        }
    }

    /// All result-flagged nodes in identifier order.
    pub open spec fn spec_result_nodes(self) -> Seq<usize> {
        self.spec_result_nodes_upto(self.nodes@.len() as int)
    }

    /// The result-flagged nodes, in identifier order.
    pub fn result_nodes(&self) -> (r: Vec<usize>)
        requires
            self.wf(),
        ensures
            r@ == self.spec_result_nodes(),
    {
        let mut out: Vec<usize> = Vec::new();
        let mut n: usize = 0;
        while n < self.result_flags.len()
            invariant
                self.wf(),
                n <= self.nodes@.len(),
                out@ == self.spec_result_nodes_upto(n as int),
            decreases self.nodes@.len() - n,
        {
            if self.result_flags[n] {
                out.push(n);
            }
            n = n + 1;
        }
        out
    }
}

} // verus!
