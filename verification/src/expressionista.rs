//! The expression compiler: linearizes a query graph into a tree of
//! let-bindings, preserving child ordering, result propagation and the
//! parent-to-child transformers that run at interpretation time.
use vstd::prelude::*;

use crate::error::InterpreterError;
use crate::expression::{Binding, Continuation, Expression, PendingFunc};
use crate::graph::{Flow, Node, QueryGraph, QueryGraphDependency};
use crate::interpret::spec_continue_rel;

verus! {

/// The transformer dependencies among the given edges, in edge-list order:
/// each edge whose payload rewrites the child, paired with its source node as
/// the parent binding name.
pub open spec fn spec_collect_transformers(g: QueryGraph, edges: Seq<usize>) -> Seq<
    (usize, QueryGraphDependency),
>
    decreases edges.len(),
{
    if edges.len() == 0 {
        Seq::empty()
    } else {
        let e = edges[0] as int;
        let rest = spec_collect_transformers(g, edges.drop_first());
        match g.edges@[e].content {
            Some(d) => {
                if d.spec_is_transformer() {
                    seq![(g.edges@[e].source, d)] + rest
                } else {
                    rest
                }
            },
            None => rest,
        }
    }
}

/// The edges entering a node are listed in strictly increasing order, below
/// the bound.
pub proof fn lemma_spec_incoming_bounds(g: QueryGraph, n: int, k: int)
    requires
        k <= g.edges@.len(),
        k <= usize::MAX,
    ensures
        forall|a: int|
            0 <= a < g.spec_incoming_upto(n, k).len() ==> (#[trigger] g.spec_incoming_upto(n, k)[a])
                < k,
        forall|a: int, b: int|
            0 <= a < b < g.spec_incoming_upto(n, k).len() ==> g.spec_incoming_upto(n, k)[a]
                != g.spec_incoming_upto(n, k)[b],
    decreases k,
{
    if k > 0 {
        lemma_spec_incoming_bounds(g, n, k - 1);
        assert forall|a: int|
            0 <= a < g.spec_incoming_upto(n, k).len() implies (#[trigger] g.spec_incoming_upto(
            n,
            k,
        )[a]) < k by {
            if a < g.spec_incoming_upto(n, k - 1).len() {
                assert(g.spec_incoming_upto(n, k)[a] == g.spec_incoming_upto(n, k - 1)[a]);
            }
        }
        assert forall|a: int, b: int|
            0 <= a < b < g.spec_incoming_upto(n, k).len() implies g.spec_incoming_upto(n, k)[a]
            != g.spec_incoming_upto(n, k)[b] by {
            if b < g.spec_incoming_upto(n, k - 1).len() {
                assert(g.spec_incoming_upto(n, k)[a] == g.spec_incoming_upto(n, k - 1)[a]);
                assert(g.spec_incoming_upto(n, k)[b] == g.spec_incoming_upto(n, k - 1)[b]);
            } else {
                assert(g.spec_incoming_upto(n, k)[a] == g.spec_incoming_upto(n, k - 1)[a]);
                assert(g.spec_incoming_upto(n, k - 1)[a] < k - 1);
                assert(b == g.spec_incoming_upto(n, k - 1).len());
                assert(g.spec_incoming_upto(n, k)[b] as int == k - 1);
            }
        }
    }
}

/// The children of a node have edge indices below the bound and node indices
/// inside the arena.
pub proof fn lemma_spec_children_bounds(g: QueryGraph, n: int, k: int)
    requires
        g.wf(),
        k <= g.edges@.len(),
    ensures
        forall|a: int|
            0 <= a < g.spec_children_upto(n, k).len() ==> (#[trigger] g.spec_children_upto(
                n,
                k,
            )[a]).0 < k && g.spec_children_upto(n, k)[a].1 < g.nodes@.len(),
    decreases k,
{
    if k > 0 {
        lemma_spec_children_bounds(g, n, k - 1);
        assert forall|a: int|
            0 <= a < g.spec_children_upto(n, k).len() implies (#[trigger] g.spec_children_upto(
            n,
            k,
        )[a]).0 < k && g.spec_children_upto(n, k)[a].1 < g.nodes@.len() by {
            if a < g.spec_children_upto(n, k - 1).len() {
                assert(g.spec_children_upto(n, k)[a] == g.spec_children_upto(n, k - 1)[a]);
            } else {
                assert(g.edges@[k - 1].target < g.nodes@.len());
            }
        }
    }
}

/// The root list holds node indices inside the arena.
pub proof fn lemma_spec_roots_bounds(g: QueryGraph, k: int)
    requires
        k <= g.nodes@.len(),
    ensures
        forall|a: int|
            0 <= a < g.spec_roots_upto(k).len() ==> (#[trigger] g.spec_roots_upto(k)[a]) < k,
    decreases k,
{
    if k > 0 {
        lemma_spec_roots_bounds(g, k - 1);
        assert forall|a: int|
            0 <= a < g.spec_roots_upto(k).len() implies (#[trigger] g.spec_roots_upto(k)[a])
            < k by {
            if a < g.spec_roots_upto(k - 1).len() {
                assert(g.spec_roots_upto(k)[a] == g.spec_roots_upto(k - 1)[a]);
            }
        }
    }
}

/// The compiler, translating a consumed query graph into one expression.
pub struct Expressionista;

impl Expressionista {
    /// Collects the transformer dependencies among the parent edges, in
    /// order, plucking each collected edge's payload out of the graph.
    pub fn collect_parent_transformers(
        g: &mut QueryGraph,
        parent_edges: Vec<usize>,
    ) -> (r: Vec<(usize, QueryGraphDependency)>)
        requires
            old(g).wf(),
            forall|k: int|
                0 <= k < parent_edges@.len() ==> (#[trigger] parent_edges@[k])
                    < old(g).edges@.len(),
            forall|k1: int, k2: int|
                0 <= k1 < k2 < parent_edges@.len() ==> parent_edges@[k1] != parent_edges@[k2],
        ensures
            final(g).wf(),
            final(g).nodes@ == old(g).nodes@,
            final(g).visited@ == old(g).visited@,
            final(g).result_flags@ == old(g).result_flags@,
            final(g).contains_result@ == old(g).contains_result@,
            final(g).edges@.len() == old(g).edges@.len(),
            forall|k: int|
                0 <= k < old(g).edges@.len() ==> {
                    let e_new = #[trigger] final(g).edges@[k];
                    let e_old = old(g).edges@[k];
                    e_new.source == e_old.source && e_new.target == e_old.target && (e_new.content
                        == e_old.content || e_new.content is None)
                },
            forall|j: int|
                0 <= j < parent_edges@.len() ==> ((old(g).edges@[(
                #[trigger] parent_edges@[j]) as int].content matches Some(d)
                    && d.spec_is_transformer()) ==> final(g).edges@[parent_edges@[j] as int].content is None),
            forall|k: int|
                0 <= k < old(g).edges@.len() && !parent_edges@.contains(k as usize) ==> (
                #[trigger] final(g).edges@[k]).content == old(g).edges@[k].content,
            final(g).consumed_from(*old(g)),
            r@ == spec_collect_transformers(*old(g), parent_edges@),
    {
        let ghost g0 = *old(g);
        let mut out: Vec<(usize, QueryGraphDependency)> = Vec::new();
        let mut i: usize = 0;
        proof {
            assert(parent_edges@.skip(0) =~= parent_edges@);
        }
        while i < parent_edges.len()
            invariant
                g.wf(),
                g0 == *old(g),
                i <= parent_edges@.len(),
                forall|k: int|
                    0 <= k < parent_edges@.len() ==> (#[trigger] parent_edges@[k])
                        < g0.edges@.len(),
                forall|k1: int, k2: int|
                    0 <= k1 < k2 < parent_edges@.len() ==> parent_edges@[k1] != parent_edges@[k2],
                g.nodes@ == g0.nodes@,
                g.visited@ == g0.visited@,
                g.result_flags@ == g0.result_flags@,
                g.contains_result@ == g0.contains_result@,
                g.edges@.len() == g0.edges@.len(),
                forall|k: int|
                    0 <= k < g0.edges@.len() ==> (#[trigger] g.edges@[k]).source
                        == g0.edges@[k].source && g.edges@[k].target == g0.edges@[k].target && (
                    g.edges@[k].content == g0.edges@[k].content || g.edges@[k].content is None),
                forall|k: int|
                    i <= k < parent_edges@.len() ==> g.edges@[(#[trigger] parent_edges@[k]) as int].content
                        == g0.edges@[parent_edges@[k] as int].content,
                forall|j: int|
                    0 <= j < i ==> ((g0.edges@[(#[trigger] parent_edges@[j]) as int].content
                        matches Some(d) && d.spec_is_transformer()) ==> g.edges@[parent_edges@[j] as int].content is None),
                forall|k: int|
                    0 <= k < g0.edges@.len() && !parent_edges@.contains(k as usize) ==> (
                    #[trigger] g.edges@[k]).content == g0.edges@[k].content,
                out@ + spec_collect_transformers(g0, parent_edges@.skip(i as int))
                    == spec_collect_transformers(g0, parent_edges@),
            decreases parent_edges@.len() - i,
        {
            proof {
                assert(parent_edges@.skip(i as int)[0] == parent_edges@[i as int]);
                assert(parent_edges@.skip(i as int).drop_first() =~= parent_edges@.skip(i + 1));
            }
            let e = parent_edges[i];
            let is_transformer = match g.edge_content(e) {
                Some(d) => match d {
                    QueryGraphDependency::ProjectedData { .. } => true,
                    QueryGraphDependency::ProjectedDataSink { .. } => true,
                    QueryGraphDependency::Data { .. } => true,
                    _ => false,
                },
                None => false,
            };
            if is_transformer {
                let src = g.edge_source(e);
                let dep = g.pluck_edge(e).unwrap();
                out.push((src, dep));
                proof {
                    assert(parent_edges@.contains(e));
                }
            }
            i = i + 1;
        }
        proof {
            assert(spec_collect_transformers(g0, parent_edges@.skip(i as int)) =~= Seq::<
                (usize, QueryGraphDependency),
            >::empty());
            assert(out@ =~= spec_collect_transformers(g0, parent_edges@));
        }
        out
    }

    /// Emits the node through its continuation, deferring it behind a `Func`
    /// when any parent edge carries a transformer: with no transformer
    /// dependencies the emission is direct; with any, the emitted expression
    /// is exactly a `Func` holding those dependencies, the node and the
    /// continuation.
    pub fn transform_node(
        g: &mut QueryGraph,
        parent_edges: Vec<usize>,
        node: Node,
        cont: Continuation,
    ) -> (r: Result<Expression, InterpreterError>)
        requires
            old(g).wf(),
            forall|k: int|
                0 <= k < parent_edges@.len() ==> (#[trigger] parent_edges@[k])
                    < old(g).edges@.len(),
            forall|k1: int, k2: int|
                0 <= k1 < k2 < parent_edges@.len() ==> parent_edges@[k1] != parent_edges@[k2],
        ensures
            final(g).wf(),
            final(g).nodes@ == old(g).nodes@,
            final(g).visited@ == old(g).visited@,
            final(g).result_flags@ == old(g).result_flags@,
            final(g).contains_result@ == old(g).contains_result@,
            final(g).edges@.len() == old(g).edges@.len(),
            forall|j: int|
                0 <= j < parent_edges@.len() ==> ((old(g).edges@[(
                #[trigger] parent_edges@[j]) as int].content matches Some(d)
                    && d.spec_is_transformer()) ==> final(g).edges@[parent_edges@[j] as int].content is None),
            forall|k: int|
                0 <= k < old(g).edges@.len() && !parent_edges@.contains(k as usize) ==> (
                #[trigger] final(g).edges@[k]).content == old(g).edges@[k].content,
            forall|k: int|
                0 <= k < old(g).edges@.len() ==> {
                    let e_new = #[trigger] final(g).edges@[k];
                    let e_old = old(g).edges@[k];
                    e_new.source == e_old.source && e_new.target == e_old.target && (e_new.content
                        == e_old.content || e_new.content is None)
                },
            final(g).consumed_from(*old(g)),
            spec_collect_transformers(*old(g), parent_edges@).len() == 0 ==> spec_continue_rel(
                node,
                cont,
                r,
            ),
            spec_collect_transformers(*old(g), parent_edges@).len() > 0 ==> (r matches Ok(e) && (e
                matches Expression::Func { func } && func.deps@ == spec_collect_transformers(
                *old(g),
                parent_edges@,
            ) && *func.node == node && func.cont == cont)),
    {
        let deps = Self::collect_parent_transformers(g, parent_edges);
        if deps.len() == 0 {
            crate::interpret::build_from_continuation(node, cont)
        } else {
            Ok(Expression::Func { func: PendingFunc { deps, node: Box::new(node), cont } })
        }
    }
}

/// Number of pairs whose child node carries the contains-result bit.
pub open spec fn spec_count_result(contains: Seq<bool>, pairs: Seq<(usize, usize)>) -> nat
    decreases pairs.len(),
{
    if pairs.len() == 0 {
        0
    } else {
        (if contains[pairs[0].1 as int] {
            1nat
        } else {
            0nat
        }) + spec_count_result(contains, pairs.drop_first())
    }
}

/// Appending a pair adds its own contribution to the count.
pub proof fn lemma_spec_count_result_push(
    contains: Seq<bool>,
    pairs: Seq<(usize, usize)>,
    p: (usize, usize),
)
    ensures
        spec_count_result(contains, pairs.push(p)) == spec_count_result(contains, pairs) + (
        if contains[p.1 as int] {
            1nat
        } else {
            0nat
        }),
    decreases pairs.len(),
{
    if pairs.len() == 0 {
        assert(pairs.push(p)[0] == p);
        assert(pairs.push(p).drop_first() =~= Seq::<(usize, usize)>::empty());
        assert(spec_count_result(contains, Seq::<(usize, usize)>::empty()) == 0);
        assert(spec_count_result(contains, pairs) == 0);
    } else {
        assert(pairs.push(p)[0] == pairs[0]);
        assert(pairs.push(p).drop_first() =~= pairs.drop_first().push(p));
        lemma_spec_count_result_push(contains, pairs.drop_first(), p);
        assert(spec_count_result(contains, pairs.push(p)) == (if contains[pairs[0].1 as int] {
            1nat
        } else {
            0nat
        }) + spec_count_result(contains, pairs.drop_first().push(p)));
    }
}

/// Graphs with the same result flags and arena size list the same result
/// nodes.
pub proof fn lemma_spec_result_nodes_same(g1: QueryGraph, g2: QueryGraph, k: int)
    requires
        g1.result_flags@ == g2.result_flags@,
    ensures
        g1.spec_result_nodes_upto(k) == g2.spec_result_nodes_upto(k),
    decreases k,
{
    if k > 0 {
        lemma_spec_result_nodes_same(g1, g2, k - 1);
    }
}

/// Graphs with the same edges list the same children.
pub proof fn lemma_spec_children_same(g1: QueryGraph, g2: QueryGraph, n: int, k: int)
    requires
        g1.edges@ == g2.edges@,
    ensures
        g1.spec_children_upto(n, k) == g2.spec_children_upto(n, k),
    decreases k,
{
    if k > 0 {
        lemma_spec_children_same(g1, g2, n, k - 1);
    }
}

/// The result count of a pair list never exceeds its length.
pub proof fn lemma_spec_count_result_le(contains: Seq<bool>, pairs: Seq<(usize, usize)>)
    ensures
        spec_count_result(contains, pairs) <= pairs.len(),
    decreases pairs.len(),
{
    if pairs.len() > 0 {
        lemma_spec_count_result_le(contains, pairs.drop_first());
    }
}

/// The left-to-right chain a single-result fold emits: each binding in its
/// own `Let` whose body is the next link, the innermost body a `Get` of the
/// last binding.
pub open spec fn spec_chain_rel(bs: Seq<Binding>, e: Expression) -> bool
    decreases bs.len(),
{
    if bs.len() == 0 {
        false
    } else if bs.len() == 1 {
        e matches Expression::Let { bindings, expressions } && bindings@.len() == 1
            && bindings@[0] == bs[0] && expressions@.len() == 1 && expressions@[0] == (
        Expression::Get { binding_name: bs[0].name })
    } else {
        e matches Expression::Let { bindings, expressions } && bindings@.len() == 1
            && bindings@[0] == bs[0] && expressions@.len() == 1 && spec_chain_rel(
            bs.drop_first(),
            expressions@[0],
        )
    }
}

impl Expressionista {
    /// Builds the expressions of a node's children: the children whose
    /// subgraph holds no result node are compiled first, in iteration order;
    /// the result subgraphs, if any, are folded into one trailing expression.
    pub fn process_children(
        g: &mut QueryGraph,
        child_pairs: Vec<(usize, usize)>,
    ) -> (r: Result<Vec<Expression>, InterpreterError>)
        requires
            old(g).wf(),
            forall|k: int|
                0 <= k < child_pairs@.len() ==> (#[trigger] child_pairs@[k]).1 < old(
                    g,
                ).nodes@.len(),
        ensures
            final(g).wf(),
            final(g).nodes@.len() == old(g).nodes@.len(),
            final(g).edges@.len() == old(g).edges@.len(),
            final(g).result_flags@ == old(g).result_flags@,
            final(g).contains_result@ == old(g).contains_result@,
            final(g).spec_unvisited() <= old(g).spec_unvisited(),
            final(g).consumed_from(*old(g)),
            child_pairs@.len() == 0 ==> (r is Ok && *final(g) == *old(g)),
            r matches Ok(v) ==> {
                let cnt = spec_count_result(old(g).contains_result@, child_pairs@);
                &&& cnt == 0 ==> v@.len() == child_pairs@.len()
                &&& cnt > 0 ==> v@.len() == child_pairs@.len() - cnt + 1
                &&& cnt > 0 ==> (v@.len() >= 1 && v@.last() matches Expression::Let { .. })
            },
        decreases old(g).spec_unvisited(), 30int,
    {
        let ghost g0 = *old(g);
        let ghost cnt = spec_count_result(old(g).contains_result@, child_pairs@);
        let mut nonres: Vec<(usize, usize)> = Vec::new();
        let mut res: Vec<(usize, usize)> = Vec::new();
        let mut i: usize = 0;
        while i < child_pairs.len()
            invariant
                g.wf(),
                *g == g0,
                i <= child_pairs@.len(),
                forall|k: int|
                    0 <= k < child_pairs@.len() ==> (#[trigger] child_pairs@[k]).1
                        < g0.nodes@.len(),
                spec_count_result(g0.contains_result@, child_pairs@.take(i as int)) == res@.len(),
                nonres@.len() + res@.len() == i,
                forall|k: int|
                    0 <= k < nonres@.len() ==> (#[trigger] nonres@[k]).1 < g0.nodes@.len(),
                forall|k: int|
                    0 <= k < res@.len() ==> (#[trigger] res@[k]).1 < g0.nodes@.len(),
            decreases child_pairs@.len() - i,
        {
            let pair = child_pairs[i];
            proof {
                assert(child_pairs@.take(i + 1) =~= child_pairs@.take(i as int).push(
                    child_pairs@[i as int],
                ));
                lemma_spec_count_result_push(
                    g0.contains_result@,
                    child_pairs@.take(i as int),
                    child_pairs@[i as int],
                );
            }
            if g.subgraph_contains_result(pair.1) {
                res.push(pair);
            } else {
                nonres.push(pair);
            }
            i = i + 1;
        }
        proof {
            assert(child_pairs@.take(child_pairs@.len() as int) =~= child_pairs@);
        }
        proof {
            crate::graph::lemma_consumed_refl(g0);
        }
        let mut expressions: Vec<Expression> = Vec::new();
        let mut j: usize = 0;
        while j < nonres.len()
            invariant
                g.wf(),
                g0 == *old(g),
                j <= nonres@.len(),
                nonres@.len() + res@.len() == child_pairs@.len(),
                child_pairs@.len() == 0 ==> *g == g0,
                expressions@.len() == j,
                g.nodes@.len() == g0.nodes@.len(),
                g.edges@.len() == g0.edges@.len(),
                g.result_flags@ == g0.result_flags@,
                g.contains_result@ == g0.contains_result@,
                g.spec_unvisited() <= g0.spec_unvisited(),
                g.consumed_from(g0),
                forall|k: int|
                    0 <= k < nonres@.len() ==> (#[trigger] nonres@[k]).1 < g0.nodes@.len(),
                forall|k: int|
                    0 <= k < res@.len() ==> (#[trigger] res@[k]).1 < g0.nodes@.len(),
            decreases nonres@.len() - j,
        {
            let child = nonres[j].1;
            let edge_count = g.edges.len();
            let edges = g.incoming_edges(child);
            proof {
                lemma_spec_incoming_bounds(*g, child as int, edge_count as int);
            }
            let ghost pre = *g;
            match Self::build_expression(g, child, edges) {
                Ok(e) => {
                    expressions.push(e);
                },
                Err(e) => {
                    return Err(e);
                },
            }
            proof {
                crate::graph::lemma_consumed_trans(g0, pre, *g);
            }
            j = j + 1;
        }
        if res.len() > 0 {
            proof {
                assert(res@.len() == cnt);
                assert(nonres@.len() + cnt == child_pairs@.len());
            }
            let ghost pre = *g;
            match Self::fold_result_scopes(g, res) {
                Ok(e) => {
                    expressions.push(e);
                },
                Err(e) => {
                    return Err(e);
                },
            }
            proof {
                crate::graph::lemma_consumed_trans(g0, pre, *g);
            }
        }
        Ok(expressions)
    }

    /// Folds the result subgraphs into one expression: with a single global
    /// result node, a left-to-right chain of nested `Let`s over the
    /// subgraphs' bindings whose innermost body is a `Get` of the last
    /// binding; with several, one `Let` over all of them whose body is a
    /// single `GetFirstNonEmpty` over the binding names in visit order.
    pub fn fold_result_scopes(
        g: &mut QueryGraph,
        result_subgraphs: Vec<(usize, usize)>,
    ) -> (r: Result<Expression, InterpreterError>)
        requires
            old(g).wf(),
            result_subgraphs@.len() >= 1,
            forall|k: int|
                0 <= k < result_subgraphs@.len() ==> (#[trigger] result_subgraphs@[k]).1 < old(
                    g,
                ).nodes@.len(),
        ensures
            final(g).wf(),
            final(g).nodes@.len() == old(g).nodes@.len(),
            final(g).edges@.len() == old(g).edges@.len(),
            final(g).result_flags@ == old(g).result_flags@,
            final(g).contains_result@ == old(g).contains_result@,
            final(g).spec_unvisited() <= old(g).spec_unvisited(),
            final(g).consumed_from(*old(g)),
            r matches Ok(e) ==> e matches Expression::Let { .. },
            r matches Ok(e) ==> (old(g).spec_result_nodes().len() == 1 ==> (exists|
                bs: Seq<Binding>,
            |
                bs.len() == result_subgraphs@.len() && (forall|k: int|
                    0 <= k < bs.len() ==> (#[trigger] bs[k]).name == result_subgraphs@[k].1)
                    && #[trigger] spec_chain_rel(bs, e))),
            r matches Ok(e) ==> (old(g).spec_result_nodes().len() != 1 ==> (e matches
                Expression::Let { bindings, expressions } && bindings@.len()
                == result_subgraphs@.len() && (forall|k: int|
                0 <= k < bindings@.len() ==> (#[trigger] bindings@[k]).name
                    == result_subgraphs@[k].1) && expressions@.len() == 1 && (expressions@[0]
                matches Expression::GetFirstNonEmpty { binding_names } && binding_names@.len()
                == result_subgraphs@.len() && (forall|k: int|
                0 <= k < binding_names@.len() ==> (#[trigger] binding_names@[k])
                    == result_subgraphs@[k].1)))),
        decreases old(g).spec_unvisited(), 25int,
    {
        let ghost g0 = *old(g);
        proof {
            crate::graph::lemma_consumed_refl(g0);
        }
        let mut bindings: Vec<Binding> = Vec::new();
        let mut names: Vec<usize> = Vec::new();
        let mut i: usize = 0;
        while i < result_subgraphs.len()
            invariant
                g.wf(),
                g0 == *old(g),
                i <= result_subgraphs@.len(),
                bindings@.len() == i,
                names@.len() == i,
                g.nodes@.len() == g0.nodes@.len(),
                g.edges@.len() == g0.edges@.len(),
                g.result_flags@ == g0.result_flags@,
                g.contains_result@ == g0.contains_result@,
                g.spec_unvisited() <= g0.spec_unvisited(),
                g.consumed_from(g0),
                forall|k: int|
                    0 <= k < result_subgraphs@.len() ==> (#[trigger] result_subgraphs@[k]).1
                        < g0.nodes@.len(),
                forall|k: int|
                    0 <= k < i ==> (#[trigger] bindings@[k]).name == result_subgraphs@[k].1,
                forall|k: int| 0 <= k < i ==> (#[trigger] names@[k]) == result_subgraphs@[k].1,
            decreases result_subgraphs@.len() - i,
        {
            let name = result_subgraphs[i].1;
            let edge_count = g.edges.len();
            let edges = g.incoming_edges(name);
            proof {
                lemma_spec_incoming_bounds(*g, name as int, edge_count as int);
            }
            let ghost pre = *g;
            match Self::build_expression(g, name, edges) {
                Ok(expr) => {
                    bindings.push(Binding { name, expr });
                    names.push(name);
                },
                Err(e) => {
                    return Err(e);
                },
            }
            proof {
                crate::graph::lemma_consumed_trans(g0, pre, *g);
            }
            i = i + 1;
        }
        let result_node_count = g.result_nodes().len();
        proof {
            lemma_spec_result_nodes_same(*g, g0, g.nodes@.len() as int);
            assert(g.spec_result_nodes() == g0.spec_result_nodes());
        }
        if result_node_count == 1 {
            let mut rest = bindings;
            let ghost bs0 = rest@;
            let last = match rest.pop() {
                Some(b) => b,
                None => {
                    return Err(InterpreterError::UnexpectedNodeVariant);
                },
            };
            let last_name = last.name;
            let mut inner_bindings: Vec<Binding> = Vec::new();
            inner_bindings.push(last);
            let mut inner_body: Vec<Expression> = Vec::new();
            inner_body.push(Expression::Get { binding_name: last_name });
            let mut acc = Expression::Let {
                bindings: inner_bindings,
                expressions: inner_body,
            };
            proof {
                assert(bs0.skip(bs0.len() - 1) =~= seq![bs0[bs0.len() - 1]]);
                assert(spec_chain_rel(bs0.skip(rest@.len() as int), acc));
            }
            while rest.len() > 0
                invariant
                    rest@.len() < bs0.len(),
                    rest@ =~= bs0.take(rest@.len() as int),
                    bs0.len() == result_subgraphs@.len(),
                    forall|k: int|
                        0 <= k < bs0.len() ==> (#[trigger] bs0[k]).name == result_subgraphs@[k].1,
                    spec_chain_rel(bs0.skip(rest@.len() as int), acc),
                decreases rest@.len(),
            {
                let ghost before = rest@.len() as int;
                let b = match rest.pop() {
                    Some(b) => b,
                    None => {
                        return Err(InterpreterError::UnexpectedNodeVariant);
                    },
                };
                proof {
                    assert(bs0.take(before)[before - 1] == bs0[before - 1]);
                    assert(b == bs0[before - 1]);
                    assert(rest@ =~= bs0.take(before - 1));
                }
                let mut bv: Vec<Binding> = Vec::new();
                bv.push(b);
                let mut body: Vec<Expression> = Vec::new();
                body.push(acc);
                acc = Expression::Let { bindings: bv, expressions: body };
                proof {
                    assert(bs0.skip(before - 1)[0] == bs0[before - 1]);
                    assert(bs0.skip(before - 1).drop_first() =~= bs0.skip(before));
                    assert(spec_chain_rel(bs0.skip(before - 1), acc));
                }
            }
            proof {
                assert(bs0.skip(0) =~= bs0);
                assert(spec_chain_rel(bs0, acc));
            }
            Ok(acc)
        } else {
            let mut body: Vec<Expression> = Vec::new();
            body.push(Expression::GetFirstNonEmpty { binding_names: names });
            Ok(Expression::Let { bindings, expressions: body })
        }
    }
}

impl Expressionista {
    /// Dispatches on the node's payload and builds its expression.
    pub fn build_expression(
        g: &mut QueryGraph,
        node: usize,
        parent_edges: Vec<usize>,
    ) -> (r: Result<Expression, InterpreterError>)
        requires
            old(g).wf(),
            node < old(g).nodes@.len(),
            forall|k: int|
                0 <= k < parent_edges@.len() ==> (#[trigger] parent_edges@[k])
                    < old(g).edges@.len(),
            forall|k1: int, k2: int|
                0 <= k1 < k2 < parent_edges@.len() ==> parent_edges@[k1] != parent_edges@[k2],
        ensures
            final(g).wf(),
            final(g).nodes@.len() == old(g).nodes@.len(),
            final(g).edges@.len() == old(g).edges@.len(),
            final(g).result_flags@ == old(g).result_flags@,
            final(g).contains_result@ == old(g).contains_result@,
            final(g).spec_unvisited() <= old(g).spec_unvisited(),
            final(g).consumed_from(*old(g)),
            r matches Ok(e) ==> (e matches Expression::Let { bindings, .. } ==> (bindings@.len()
                == 1 && bindings@[0].name == node)),
            r matches Ok(e) ==> (e matches Expression::Query { query } ==> old(g).nodes@[node as int]
                == Some(Node::Query(*query))),
            (!old(g).visited@[node as int] && (old(g).nodes@[node as int] matches Some(c) && (c
                matches Node::Query(_) || (c matches Node::Flow(fl) && fl matches Flow::Return(_))
                || c matches Node::Computation(_) || c == Node::Empty)) && old(g).spec_children(
                node as int,
            ).len() == 0 && parent_edges@.len() == 0) ==> r is Ok,
        decreases old(g).spec_unvisited(), 20int,
    {
        let is_query = match g.node_content(node) {
            Some(c) => matches!(c, Node::Query(_)),
            None => {
                proof {
                    crate::graph::lemma_consumed_refl(*g);
                }
                return Err(InterpreterError::NodeContentMissing { node });
            },
        };
        let is_flow = match g.node_content(node) {
            Some(c) => matches!(c, Node::Flow(_)),
            None => false,
        };
        let is_computation = match g.node_content(node) {
            Some(c) => matches!(c, Node::Computation(_)),
            None => false,
        };
        if is_query {
            Self::build_query_expression(g, node, parent_edges)
        } else if is_flow {
            Self::build_flow_expression(g, node, parent_edges)
        } else if is_computation {
            Self::build_computation_expression(g, node, parent_edges)
        } else {
            Self::build_empty_expression(g, node, parent_edges)
        }
    }

    /// Compiles a query node: children first (result subgraphs folded last),
    /// then the node itself through its transformers; with children, the node
    /// is bound by a `Let` whose body is the children, and a result node's
    /// `Let` body ends with a `Get` of its own binding so the value
    /// propagates upwards.
    pub fn build_query_expression(
        g: &mut QueryGraph,
        node: usize,
        parent_edges: Vec<usize>,
    ) -> (r: Result<Expression, InterpreterError>)
        requires
            old(g).wf(),
            node < old(g).nodes@.len(),
            forall|k: int|
                0 <= k < parent_edges@.len() ==> (#[trigger] parent_edges@[k])
                    < old(g).edges@.len(),
            forall|k1: int, k2: int|
                0 <= k1 < k2 < parent_edges@.len() ==> parent_edges@[k1] != parent_edges@[k2],
        ensures
            final(g).wf(),
            final(g).nodes@.len() == old(g).nodes@.len(),
            final(g).edges@.len() == old(g).edges@.len(),
            final(g).result_flags@ == old(g).result_flags@,
            final(g).contains_result@ == old(g).contains_result@,
            final(g).spec_unvisited() <= old(g).spec_unvisited(),
            final(g).consumed_from(*old(g)),
            r matches Ok(e) ==> (e matches Expression::Query { .. } || e matches Expression::Func {
                ..
            } || (e matches Expression::Let { bindings, expressions } && bindings@.len() == 1
                && bindings@[0].name == node && expressions@.len() >= 1 && (bindings@[0].expr
                matches Expression::Query { .. } || bindings@[0].expr matches Expression::Func {
                ..
            }) && (old(g).result_flags@[node as int] ==> expressions@.last() == (Expression::Get {
                binding_name: node,
            })))),
            r matches Ok(e) ==> ((e matches Expression::Query { .. } || e matches
                Expression::Func { .. }) <==> old(g).spec_children(node as int).len() == 0),
            r matches Ok(e) ==> (e matches Expression::Let { bindings, expressions } ==> {
                let kids = old(g).spec_children(node as int);
                let cnt = spec_count_result(old(g).contains_result@, kids);
                expressions@.len() as int == kids.len() - cnt + (if cnt > 0 {
                    1int
                } else {
                    0int
                }) + (if old(g).result_flags@[node as int] {
                    1int
                } else {
                    0int
                })
            }),
            r matches Ok(e) ==> (e matches Expression::Query { query } ==> old(g).nodes@[node as int]
                == Some(Node::Query(*query))),
            r matches Ok(e) ==> (e matches Expression::Func { func } ==> (func.cont
                == Continuation::IntoQuery && old(g).nodes@[node as int] == Some(*func.node))),
            r matches Ok(e) ==> (e matches Expression::Let { bindings, .. } ==> ((
            bindings@[0].expr matches Expression::Query { query } ==> old(g).nodes@[node as int]
                == Some(Node::Query(*query))) && (bindings@[0].expr matches Expression::Func {
                func,
            } ==> (func.cont == Continuation::IntoQuery && old(g).nodes@[node as int] == Some(
                *func.node,
            ))))),
            (!old(g).visited@[node as int] && (old(g).nodes@[node as int] matches Some(c) && c
                matches Node::Query(_)) && old(g).spec_children(node as int).len() == 0
                && parent_edges@.len() == 0) ==> r is Ok,
        decreases old(g).spec_unvisited(), 10int,
    {
        if g.is_visited(node) {
            proof {
                crate::graph::lemma_consumed_refl(*g);
            }
            return Err(InterpreterError::NodeRevisited { node });
        }
        g.mark_visited(node);
        proof {
            crate::graph::lemma_consumed_refl(*old(g));
            assert(g.consumed_from(*old(g)));
        }
        let direct_children = g.direct_child_pairs(node);
        proof {
            lemma_spec_children_bounds(*g, node as int, g.edges@.len() as int);
            lemma_spec_children_same(*g, *old(g), node as int, g.edges@.len() as int);
            assert(direct_children@ == old(g).spec_children(node as int));
        }
        let ghost kids = old(g).spec_children(node as int);
        let ghost cnt = spec_count_result(old(g).contains_result@, kids);
        proof {
            lemma_spec_count_result_le(old(g).contains_result@, kids);
        }
        let is_result = g.is_result_node(node);
        let ghost pre_children = *g;
        let mut child_expressions = match Self::process_children(g, direct_children) {
            Ok(v) => v,
            Err(e) => {
                proof {
                    crate::graph::lemma_consumed_trans(*old(g), pre_children, *g);
                }
                return Err(e);
            },
        };
        proof {
            crate::graph::lemma_consumed_trans(*old(g), pre_children, *g);
        }
        let ghost pre_pluck = *g;
        let content = match g.pluck_node(node) {
            Some(c) => c,
            None => {
                proof {
                    assert(g.consumed_from(*old(g)));
                }
                return Err(InterpreterError::NodeContentMissing { node });
            },
        };
        proof {
            assert(pre_pluck.nodes@[node as int] == Some(content));
            assert(old(g).nodes@[node as int] == Some(content));
            assert(g.consumed_from(pre_pluck));
            crate::graph::lemma_consumed_trans(*old(g), pre_pluck, *g);
        }
        if !matches!(content, Node::Query(_)) {
            return Err(InterpreterError::UnexpectedNodeVariant);
        }
        proof {
            if parent_edges@.len() == 0 {
                assert(spec_collect_transformers(*g, parent_edges@) =~= Seq::<
                    (usize, QueryGraphDependency),
                >::empty());
            }
        }
        let ghost pre_transform = *g;
        let expr = match Self::transform_node(g, parent_edges, content, Continuation::IntoQuery) {
            Ok(e) => e,
            Err(e) => {
                proof {
                    crate::graph::lemma_consumed_trans(*old(g), pre_transform, *g);
                }
                return Err(e);
            },
        };
        proof {
            crate::graph::lemma_consumed_trans(*old(g), pre_transform, *g);
            assert(expr matches Expression::Query { .. } || expr matches Expression::Func { .. });
        }
        if child_expressions.len() == 0 {
            Ok(expr)
        } else {
            if is_result {
                child_expressions.push(Expression::Get { binding_name: node });
            }
            let mut bindings: Vec<Binding> = Vec::new();
            bindings.push(Binding { name: node, expr });
            Ok(Expression::Let { bindings, expressions: child_expressions })
        }
    }

    /// Compiles a structural node carrying no work: the children's
    /// expressions in sequence, still passed through the transformer wrapper.
    pub fn build_empty_expression(
        g: &mut QueryGraph,
        node: usize,
        parent_edges: Vec<usize>,
    ) -> (r: Result<Expression, InterpreterError>)
        requires
            old(g).wf(),
            node < old(g).nodes@.len(),
            forall|k: int|
                0 <= k < parent_edges@.len() ==> (#[trigger] parent_edges@[k])
                    < old(g).edges@.len(),
            forall|k1: int, k2: int|
                0 <= k1 < k2 < parent_edges@.len() ==> parent_edges@[k1] != parent_edges@[k2],
        ensures
            final(g).wf(),
            final(g).nodes@.len() == old(g).nodes@.len(),
            final(g).edges@.len() == old(g).edges@.len(),
            final(g).result_flags@ == old(g).result_flags@,
            final(g).contains_result@ == old(g).contains_result@,
            final(g).spec_unvisited() <= old(g).spec_unvisited(),
            final(g).consumed_from(*old(g)),
            r is Ok ==> old(g).nodes@[node as int] == Some(Node::Empty),
            r matches Ok(e) ==> (e matches Expression::Sequence { .. } || e matches
                Expression::Func { .. }),
            r matches Ok(e) ==> (e matches Expression::Sequence { seq } ==> seq@.len() == old(
                g,
            ).spec_children(node as int).len()),
            r matches Ok(e) ==> (e matches Expression::Func { func } ==> (*func.node
                == Node::Empty && (func.cont matches Continuation::IntoSequence { seq } && seq@.len()
                == old(g).spec_children(node as int).len()))),
            (!old(g).visited@[node as int] && old(g).nodes@[node as int] == Some(Node::Empty)
                && old(g).spec_children(node as int).len() == 0 && parent_edges@.len() == 0) ==> r
                is Ok,
        decreases old(g).spec_unvisited(), 10int,
    {
        if g.is_visited(node) {
            proof {
                crate::graph::lemma_consumed_refl(*g);
            }
            return Err(InterpreterError::NodeRevisited { node });
        }
        let is_empty_node = match g.node_content(node) {
            Some(c) => matches!(c, Node::Empty),
            None => false,
        };
        if !is_empty_node {
            proof {
                crate::graph::lemma_consumed_refl(*g);
            }
            return Err(InterpreterError::UnexpectedNodeVariant);
        }
        g.mark_visited(node);
        proof {
            crate::graph::lemma_consumed_refl(*old(g));
            assert(g.consumed_from(*old(g)));
        }
        let child_pairs = g.direct_child_pairs(node);
        proof {
            lemma_spec_children_bounds(*g, node as int, g.edges@.len() as int);
            lemma_spec_children_same(*g, *old(g), node as int, g.edges@.len() as int);
            assert(child_pairs@ == old(g).spec_children(node as int));
        }
        let ghost g1 = *g;
        let mut exprs: Vec<Expression> = Vec::new();
        let mut j: usize = 0;
        while j < child_pairs.len()
            invariant
                g.wf(),
                j <= child_pairs@.len(),
                exprs@.len() == j,
                child_pairs@.len() == 0 ==> *g == g1,
                child_pairs@ == old(g).spec_children(node as int),
                g1.nodes@ == old(g).nodes@,
                g.nodes@.len() == g1.nodes@.len(),
                g.edges@.len() == g1.edges@.len(),
                g.result_flags@ == g1.result_flags@,
                g.contains_result@ == g1.contains_result@,
                g.spec_unvisited() <= g1.spec_unvisited(),
                g.consumed_from(g1),
                g1.spec_unvisited() < old(g).spec_unvisited(),
                g1.nodes@.len() == old(g).nodes@.len(),
                g1.edges@.len() == old(g).edges@.len(),
                g1.result_flags@ == old(g).result_flags@,
                g1.contains_result@ == old(g).contains_result@,
                g1.consumed_from(*old(g)),
                forall|k: int|
                    0 <= k < child_pairs@.len() ==> (#[trigger] child_pairs@[k]).1
                        < g1.nodes@.len(),
            decreases child_pairs@.len() - j,
        {
            let child = child_pairs[j].1;
            let edge_count = g.edges.len();
            let edges = g.incoming_edges(child);
            proof {
                lemma_spec_incoming_bounds(*g, child as int, edge_count as int);
            }
            let ghost pre = *g;
            match Self::build_expression(g, child, edges) {
                Ok(e) => {
                    exprs.push(e);
                },
                Err(e) => {
                    proof {
                        crate::graph::lemma_consumed_trans(g1, pre, *g);
                        crate::graph::lemma_consumed_trans(*old(g), g1, *g);
                    }
                    return Err(e);
                },
            }
            proof {
                crate::graph::lemma_consumed_trans(g1, pre, *g);
            }
            j = j + 1;
        }
        proof {
            if parent_edges@.len() == 0 {
                assert(spec_collect_transformers(*g, parent_edges@) =~= Seq::<
                    (usize, QueryGraphDependency),
                >::empty());
            }
        }
        let ghost pre_transform = *g;
        let r = Self::transform_node(
            g,
            parent_edges,
            Node::Empty,
            Continuation::IntoSequence { seq: exprs },
        );
        proof {
            crate::graph::lemma_consumed_trans(g1, pre_transform, *g);
            crate::graph::lemma_consumed_trans(*old(g), g1, *g);
        }
        r
    }

    /// Compiles a set-difference computation node: the children become the
    /// body of a `Let` over the node's own binding; the node itself is a
    /// deferred function that computes the difference at interpretation time.
    pub fn build_computation_expression(
        g: &mut QueryGraph,
        node: usize,
        parent_edges: Vec<usize>,
    ) -> (r: Result<Expression, InterpreterError>)
        requires
            old(g).wf(),
            node < old(g).nodes@.len(),
            forall|k: int|
                0 <= k < parent_edges@.len() ==> (#[trigger] parent_edges@[k])
                    < old(g).edges@.len(),
            forall|k1: int, k2: int|
                0 <= k1 < k2 < parent_edges@.len() ==> parent_edges@[k1] != parent_edges@[k2],
        ensures
            final(g).wf(),
            final(g).nodes@.len() == old(g).nodes@.len(),
            final(g).edges@.len() == old(g).edges@.len(),
            final(g).result_flags@ == old(g).result_flags@,
            final(g).contains_result@ == old(g).contains_result@,
            final(g).spec_unvisited() <= old(g).spec_unvisited(),
            final(g).consumed_from(*old(g)),
            r matches Ok(e) ==> (e matches Expression::Func { .. } || (e matches Expression::Let {
                bindings,
                expressions,
            } && bindings@.len() == 1 && bindings@[0].name == node && (bindings@[0].expr matches
                Expression::Func { .. }) && expressions@.len() == old(g).spec_children(
                node as int,
            ).len() && expressions@.len() >= 1)),
            r matches Ok(e) ==> (e matches Expression::Func { .. } <==> old(g).spec_children(
                node as int,
            ).len() == 0),
            r matches Ok(e) ==> (e matches Expression::Func { func } ==> (func.cont
                == Continuation::ComputeDiff && old(g).nodes@[node as int] == Some(*func.node)
                && *func.node matches Node::Computation(_))),
            r matches Ok(e) ==> (e matches Expression::Let { bindings, .. } ==> (bindings@[0].expr
                matches Expression::Func { func } && func.cont == Continuation::ComputeDiff && old(
                g,
            ).nodes@[node as int] == Some(*func.node) && *func.node matches Node::Computation(_))),
            (!old(g).visited@[node as int] && (old(g).nodes@[node as int] matches Some(c) && c
                matches Node::Computation(_)) && old(g).spec_children(node as int).len() == 0
                && parent_edges@.len() == 0) ==> r is Ok,
        decreases old(g).spec_unvisited(), 10int,
    {
        if g.is_visited(node) {
            proof {
                crate::graph::lemma_consumed_refl(*g);
            }
            return Err(InterpreterError::NodeRevisited { node });
        }
        g.mark_visited(node);
        proof {
            crate::graph::lemma_consumed_refl(*old(g));
            assert(g.consumed_from(*old(g)));
        }
        let child_pairs = g.direct_child_pairs(node);
        proof {
            lemma_spec_children_bounds(*g, node as int, g.edges@.len() as int);
            lemma_spec_children_same(*g, *old(g), node as int, g.edges@.len() as int);
            assert(child_pairs@ == old(g).spec_children(node as int));
        }
        let ghost g1 = *g;
        let mut exprs: Vec<Expression> = Vec::new();
        let mut j: usize = 0;
        while j < child_pairs.len()
            invariant
                g.wf(),
                j <= child_pairs@.len(),
                exprs@.len() == j,
                child_pairs@.len() == 0 ==> *g == g1,
                child_pairs@ == old(g).spec_children(node as int),
                g1.nodes@ == old(g).nodes@,
                g.nodes@.len() == g1.nodes@.len(),
                g.edges@.len() == g1.edges@.len(),
                g.result_flags@ == g1.result_flags@,
                g.contains_result@ == g1.contains_result@,
                g.spec_unvisited() <= g1.spec_unvisited(),
                g.consumed_from(g1),
                g1.spec_unvisited() < old(g).spec_unvisited(),
                g1.nodes@.len() == old(g).nodes@.len(),
                g1.edges@.len() == old(g).edges@.len(),
                g1.result_flags@ == old(g).result_flags@,
                g1.contains_result@ == old(g).contains_result@,
                g1.consumed_from(*old(g)),
                forall|k: int|
                    0 <= k < child_pairs@.len() ==> (#[trigger] child_pairs@[k]).1
                        < g1.nodes@.len(),
            decreases child_pairs@.len() - j,
        {
            let child = child_pairs[j].1;
            let edge_count = g.edges.len();
            let edges = g.incoming_edges(child);
            proof {
                lemma_spec_incoming_bounds(*g, child as int, edge_count as int);
            }
            let ghost pre = *g;
            match Self::build_expression(g, child, edges) {
                Ok(e) => {
                    exprs.push(e);
                },
                Err(e) => {
                    proof {
                        crate::graph::lemma_consumed_trans(g1, pre, *g);
                        crate::graph::lemma_consumed_trans(*old(g), g1, *g);
                    }
                    return Err(e);
                },
            }
            proof {
                crate::graph::lemma_consumed_trans(g1, pre, *g);
            }
            j = j + 1;
        }
        proof {
            crate::graph::lemma_consumed_trans(*old(g), g1, *g);
        }
        let ghost pre_pluck = *g;
        let content = match g.pluck_node(node) {
            Some(c) => c,
            None => {
                proof {
                    assert(g.consumed_from(*old(g)));
                }
                return Err(InterpreterError::NodeContentMissing { node });
            },
        };
        proof {
            assert(pre_pluck.nodes@[node as int] == Some(content));
            assert(old(g).nodes@[node as int] == Some(content));
            crate::graph::lemma_consumed_trans(*old(g), pre_pluck, *g);
        }
        if !matches!(content, Node::Computation(_)) {
            return Err(InterpreterError::UnexpectedNodeVariant);
        }
        let ghost pre_collect = *g;
        let deps = Self::collect_parent_transformers(g, parent_edges);
        proof {
            crate::graph::lemma_consumed_trans(*old(g), pre_collect, *g);
        }
        let expr = Expression::Func {
            func: PendingFunc {
                deps,
                node: Box::new(content),
                cont: Continuation::ComputeDiff,
            },
        };
        if exprs.len() == 0 {
            Ok(expr)
        } else {
            let mut bindings: Vec<Binding> = Vec::new();
            bindings.push(Binding { name: node, expr });
            Ok(Expression::Let { bindings, expressions: exprs })
        }
    }

    /// Dispatches a flow node to the branch or return translation.
    pub fn build_flow_expression(
        g: &mut QueryGraph,
        node: usize,
        parent_edges: Vec<usize>,
    ) -> (r: Result<Expression, InterpreterError>)
        requires
            old(g).wf(),
            node < old(g).nodes@.len(),
            forall|k: int|
                0 <= k < parent_edges@.len() ==> (#[trigger] parent_edges@[k])
                    < old(g).edges@.len(),
            forall|k1: int, k2: int|
                0 <= k1 < k2 < parent_edges@.len() ==> parent_edges@[k1] != parent_edges@[k2],
        ensures
            final(g).wf(),
            final(g).nodes@.len() == old(g).nodes@.len(),
            final(g).edges@.len() == old(g).edges@.len(),
            final(g).result_flags@ == old(g).result_flags@,
            final(g).contains_result@ == old(g).contains_result@,
            final(g).spec_unvisited() <= old(g).spec_unvisited(),
            final(g).consumed_from(*old(g)),
            r is Ok ==> (old(g).nodes@[node as int] matches Some(c) && c matches Node::Flow(_)),
            r matches Ok(e) ==> (e matches Expression::If { .. } || e matches Expression::Return {
                ..
            } || e matches Expression::Func { .. } || e matches Expression::Let { .. }),
            r matches Ok(e) ==> (e matches Expression::Let { bindings, .. } ==> (bindings@.len()
                == 1 && bindings@[0].name == node)),
            (!old(g).visited@[node as int] && (old(g).nodes@[node as int] matches Some(c) && c
                matches Node::Flow(fl) && fl matches Flow::Return(_)) && old(g).spec_children(
                node as int,
            ).len() == 0 && parent_edges@.len() == 0) ==> r is Ok,
        decreases old(g).spec_unvisited(), 10int,
    {
        if g.is_visited(node) {
            proof {
                crate::graph::lemma_consumed_refl(*g);
            }
            return Err(InterpreterError::NodeRevisited { node });
        }
        let is_if = match g.node_content(node) {
            Some(c) => match c {
                Node::Flow(Flow::If { .. }) => true,
                Node::Flow(Flow::Return(_)) => false,
                _ => {
                    proof {
                        crate::graph::lemma_consumed_refl(*g);
                    }
                    return Err(InterpreterError::UnexpectedNodeVariant);
                },
            },
            None => {
                proof {
                    crate::graph::lemma_consumed_refl(*g);
                }
                return Err(InterpreterError::NodeContentMissing { node });
            },
        };
        g.mark_visited(node);
        proof {
            crate::graph::lemma_consumed_refl(*old(g));
            assert(g.consumed_from(*old(g)));
            lemma_spec_children_same(*g, *old(g), node as int, g.edges@.len() as int);
            assert(g.spec_children(node as int) == old(g).spec_children(node as int));
        }
        let ghost pre = *g;
        let r = if is_if {
            Self::translate_if_node(g, node, parent_edges)
        } else {
            Self::translate_return_node(g, node, parent_edges)
        };
        proof {
            crate::graph::lemma_consumed_trans(*old(g), pre, *g);
        }
        r
    }
}

/// Whether some child edge of the node carries a `Then` selector.
pub open spec fn spec_has_then(g: QueryGraph, node: int) -> bool {
    exists|k: int|
        0 <= k < g.spec_children(node).len() && g.edges@[(#[trigger] g.spec_children(
            node,
        )[k]).0 as int].content == Some(QueryGraphDependency::Then)
}

/// Whether some child edge of the node carries an `Else` selector.
pub open spec fn spec_has_else(g: QueryGraph, node: int) -> bool {
    exists|k: int|
        0 <= k < g.spec_children(node).len() && g.edges@[(#[trigger] g.spec_children(
            node,
        )[k]).0 as int].content == Some(QueryGraphDependency::Else)
}

impl Expressionista {
    /// Compiles an `If` flow node: exactly one `Then` branch (its absence is
    /// a compile error, not a panic), an optional `Else` branch that defaults
    /// to an empty list, the remaining children as the node's body, and the
    /// rule evaluated against the fixed payload at interpretation time.
    pub fn translate_if_node(
        g: &mut QueryGraph,
        node: usize,
        parent_edges: Vec<usize>,
    ) -> (r: Result<Expression, InterpreterError>)
        requires
            old(g).wf(),
            node < old(g).nodes@.len(),
            forall|k: int|
                0 <= k < parent_edges@.len() ==> (#[trigger] parent_edges@[k])
                    < old(g).edges@.len(),
            forall|k1: int, k2: int|
                0 <= k1 < k2 < parent_edges@.len() ==> parent_edges@[k1] != parent_edges@[k2],
        ensures
            final(g).wf(),
            final(g).nodes@.len() == old(g).nodes@.len(),
            final(g).edges@.len() == old(g).edges@.len(),
            final(g).result_flags@ == old(g).result_flags@,
            final(g).contains_result@ == old(g).contains_result@,
            final(g).spec_unvisited() <= old(g).spec_unvisited(),
            !spec_has_then(*old(g), node as int) ==> (r matches Err(e) && (e matches
                InterpreterError::MissingThenEdge { node: n } && n == node)),
            (!spec_has_else(*old(g), node as int) && (r matches Ok(e) && e matches Expression::If {
                ..
            })) ==> (r matches Ok(e) && (e matches Expression::If { else_branch, .. }
                && else_branch@.len() == 0)),
            r matches Ok(e) ==> (e matches Expression::Let { bindings, .. } ==> (bindings@.len()
                == 1 && bindings@[0].name == node)),
            final(g).consumed_from(*old(g)),
            r matches Ok(e) ==> (e matches Expression::If { .. } || e matches Expression::Func {
                ..
            } || e matches Expression::Let { .. }),
            r matches Ok(e) ==> (e matches Expression::If { func, then_branch, .. } ==> (
            then_branch@.len() == 1 && old(g).nodes@[node as int] == Some(
                Node::Flow(Flow::If { rule: func.rule, data: func.data }),
            ))),
            r matches Ok(e) ==> (e matches Expression::Let { bindings, .. } ==> (bindings@[0].expr
                matches Expression::If { func, then_branch, .. } && then_branch@.len() == 1 && old(
                g,
            ).nodes@[node as int] == Some(Node::Flow(Flow::If { rule: func.rule, data: func.data })))),
            r matches Ok(e) ==> (e matches Expression::Func { func } ==> (old(g).nodes@[node as int]
                == Some(*func.node) && (func.cont matches Continuation::IntoIf {
                node_id,
                then_branch,
                ..
            } && node_id == node && then_branch@.len() == 1))),
        decreases old(g).spec_unvisited(), 40int,
    {
        let ghost g0 = *old(g);
        let child_pairs = g.direct_child_pairs(node);
        proof {
            lemma_spec_children_bounds(*g, node as int, g.edges@.len() as int);
        }
        let mut then_pair: Option<(usize, usize)> = None;
        let mut else_pair: Option<(usize, usize)> = None;
        let mut other: Vec<(usize, usize)> = Vec::new();
        let mut i: usize = 0;
        while i < child_pairs.len()
            invariant
                g.wf(),
                *g == g0,
                i <= child_pairs@.len(),
                child_pairs@ == g0.spec_children(node as int),
                forall|k: int|
                    0 <= k < child_pairs@.len() ==> (#[trigger] child_pairs@[k]).0
                        < g0.edges@.len() && child_pairs@[k].1 < g0.nodes@.len(),
                then_pair is Some <==> exists|k: int|
                    0 <= k < i && g0.edges@[(#[trigger] child_pairs@[k]).0 as int].content == Some(
                        QueryGraphDependency::Then,
                    ),
                else_pair is Some <==> exists|k: int|
                    0 <= k < i && g0.edges@[(#[trigger] child_pairs@[k]).0 as int].content == Some(
                        QueryGraphDependency::Else,
                    ),
                then_pair matches Some(p) ==> p.0 < g0.edges@.len() && p.1 < g0.nodes@.len(),
                else_pair matches Some(p) ==> p.0 < g0.edges@.len() && p.1 < g0.nodes@.len(),
                forall|k: int|
                    0 <= k < other@.len() ==> (#[trigger] other@[k]).1 < g0.nodes@.len(),
            decreases child_pairs@.len() - i,
        {
            let pair = child_pairs[i];
            let is_then = match g.edge_content(pair.0) {
                Some(QueryGraphDependency::Then) => true,
                _ => false,
            };
            let is_else = match g.edge_content(pair.0) {
                Some(QueryGraphDependency::Else) => true,
                _ => false,
            };
            if is_then {
                then_pair = Some(pair);
            } else if is_else {
                else_pair = Some(pair);
            } else {
                other.push(pair);
            }
            i = i + 1;
        }
        let then = match then_pair {
            Some(p) => p,
            None => {
                proof {
                    assert(!spec_has_then(g0, node as int));
                    crate::graph::lemma_consumed_refl(*g);
                }
                return Err(InterpreterError::MissingThenEdge { node });
            },
        };
        proof {
            crate::graph::lemma_consumed_refl(*old(g));
        }
        let edge_count = g.edges.len();
        let then_edges = g.incoming_edges(then.1);
        proof {
            lemma_spec_incoming_bounds(*g, then.1 as int, edge_count as int);
        }
        let ghost pre1 = *g;
        let then_expr = match Self::build_expression(g, then.1, then_edges) {
            Ok(e) => e,
            Err(e) => {
                proof {
                    crate::graph::lemma_consumed_trans(*old(g), pre1, *g);
                }
                return Err(e);
            },
        };
        proof {
            crate::graph::lemma_consumed_trans(*old(g), pre1, *g);
        }
        let mut else_exprs: Vec<Expression> = Vec::new();
        match else_pair {
            Some(ep) => {
                let edge_count2 = g.edges.len();
                let else_edges = g.incoming_edges(ep.1);
                proof {
                    lemma_spec_incoming_bounds(*g, ep.1 as int, edge_count2 as int);
                }
                let ghost pre2 = *g;
                match Self::build_expression(g, ep.1, else_edges) {
                    Ok(e) => {
                        else_exprs.push(e);
                    },
                    Err(e) => {
                        proof {
                            crate::graph::lemma_consumed_trans(*old(g), pre2, *g);
                        }
                        return Err(e);
                    },
                }
                proof {
                    crate::graph::lemma_consumed_trans(*old(g), pre2, *g);
                }
            },
            None => {},
        }
        let ghost pre3 = *g;
        let child_expressions = match Self::process_children(g, other) {
            Ok(v) => v,
            Err(e) => {
                proof {
                    crate::graph::lemma_consumed_trans(*old(g), pre3, *g);
                }
                return Err(e);
            },
        };
        proof {
            crate::graph::lemma_consumed_trans(*old(g), pre3, *g);
        }
        let ghost pre_pluck = *g;
        let content = match g.pluck_node(node) {
            Some(c) => c,
            None => {
                proof {
                    assert(g.consumed_from(*old(g)));
                }
                return Err(InterpreterError::NodeContentMissing { node });
            },
        };
        proof {
            assert(pre_pluck.nodes@[node as int] == Some(content));
            assert(old(g).nodes@[node as int] == Some(content));
            crate::graph::lemma_consumed_trans(*old(g), pre_pluck, *g);
        }
        if !matches!(content, Node::Flow(Flow::If { .. })) {
            return Err(InterpreterError::UnexpectedNodeVariant);
        }
        let mut then_branch: Vec<Expression> = Vec::new();
        then_branch.push(then_expr);
        let cont = Continuation::IntoIf {
            node_id: node,
            then_branch,
            else_branch: else_exprs,
            children: child_expressions,
        };
        let ghost pre_transform = *g;
        let r = Self::transform_node(g, parent_edges, content, cont);
        proof {
            crate::graph::lemma_consumed_trans(*old(g), pre_transform, *g);
        }
        r
    }

    /// Compiles a `Return` flow node: the children are compiled first; the
    /// node itself short-circuits with its fixed result, bound by a `Let`
    /// when children exist.
    pub fn translate_return_node(
        g: &mut QueryGraph,
        node: usize,
        parent_edges: Vec<usize>,
    ) -> (r: Result<Expression, InterpreterError>)
        requires
            old(g).wf(),
            node < old(g).nodes@.len(),
            forall|k: int|
                0 <= k < parent_edges@.len() ==> (#[trigger] parent_edges@[k])
                    < old(g).edges@.len(),
            forall|k1: int, k2: int|
                0 <= k1 < k2 < parent_edges@.len() ==> parent_edges@[k1] != parent_edges@[k2],
        ensures
            final(g).wf(),
            final(g).nodes@.len() == old(g).nodes@.len(),
            final(g).edges@.len() == old(g).edges@.len(),
            final(g).result_flags@ == old(g).result_flags@,
            final(g).contains_result@ == old(g).contains_result@,
            final(g).spec_unvisited() <= old(g).spec_unvisited(),
            final(g).consumed_from(*old(g)),
            r matches Ok(e) ==> (e matches Expression::Return { .. } || e matches Expression::Func {
                ..
            } || (e matches Expression::Let { bindings, expressions } && bindings@.len() == 1
                && bindings@[0].name == node && expressions@.len() >= 1)),
            r matches Ok(e) ==> ((e matches Expression::Return { .. } || e matches
                Expression::Func { .. }) <==> old(g).spec_children(node as int).len() == 0),
            r matches Ok(e) ==> (e matches Expression::Let { bindings, expressions } ==> {
                let kids = old(g).spec_children(node as int);
                let cnt = spec_count_result(old(g).contains_result@, kids);
                expressions@.len() as int == kids.len() - cnt + (if cnt > 0 {
                    1int
                } else {
                    0int
                })
            }),
            r matches Ok(e) ==> (e matches Expression::Return { result } ==> old(g).nodes@[node as int]
                == Some(Node::Flow(Flow::Return(result.rows)))),
            r matches Ok(e) ==> (e matches Expression::Func { func } ==> (func.cont
                == Continuation::IntoReturn && old(g).nodes@[node as int] == Some(*func.node))),
            r matches Ok(e) ==> (e matches Expression::Let { bindings, .. } ==> ((
            bindings@[0].expr matches Expression::Return { result } ==> old(g).nodes@[node as int]
                == Some(Node::Flow(Flow::Return(result.rows)))) && (bindings@[0].expr matches
                Expression::Func { func } ==> (func.cont == Continuation::IntoReturn && old(
                g,
            ).nodes@[node as int] == Some(*func.node))))),
            ((old(g).nodes@[node as int] matches Some(c) && c matches Node::Flow(fl) && fl
                matches Flow::Return(_)) && old(g).spec_children(node as int).len() == 0
                && parent_edges@.len() == 0) ==> r is Ok,
        decreases old(g).spec_unvisited(), 40int,
    {
        let ghost leaf = (old(g).nodes@[node as int] matches Some(c) && c matches Node::Flow(fl)
            && fl matches Flow::Return(_)) && old(g).spec_children(node as int).len() == 0
            && parent_edges@.len() == 0;
        let direct_children = g.direct_child_pairs(node);
        proof {
            lemma_spec_children_bounds(*g, node as int, g.edges@.len() as int);
            lemma_spec_children_same(*g, *old(g), node as int, g.edges@.len() as int);
            assert(direct_children@ == old(g).spec_children(node as int));
            crate::graph::lemma_consumed_refl(*old(g));
            lemma_spec_count_result_le(
                old(g).contains_result@,
                old(g).spec_children(node as int),
            );
        }
        let ghost pre1 = *g;
        let child_expressions = match Self::process_children(g, direct_children) {
            Ok(v) => v,
            Err(e) => {
                proof {
                    if leaf {
                        assert(false);
                    }
                    crate::graph::lemma_consumed_trans(*old(g), pre1, *g);
                }
                return Err(e);
            },
        };
        proof {
            if leaf {
                assert(*g == pre1);
                assert(g.nodes@[node as int] == old(g).nodes@[node as int]);
            }
        }
        proof {
            crate::graph::lemma_consumed_trans(*old(g), pre1, *g);
        }
        let ghost pre_pluck = *g;
        let content = match g.pluck_node(node) {
            Some(c) => c,
            None => {
                proof {
                    assert(g.consumed_from(*old(g)));
                }
                return Err(InterpreterError::NodeContentMissing { node });
            },
        };
        proof {
            assert(pre_pluck.nodes@[node as int] == Some(content));
            assert(old(g).nodes@[node as int] == Some(content));
            crate::graph::lemma_consumed_trans(*old(g), pre_pluck, *g);
        }
        if !matches!(content, Node::Flow(Flow::Return(_))) {
            return Err(InterpreterError::UnexpectedNodeVariant);
        }
        proof {
            if parent_edges@.len() == 0 {
                assert(spec_collect_transformers(*g, parent_edges@) =~= Seq::<
                    (usize, QueryGraphDependency),
                >::empty());
            }
        }
        let ghost pre_transform = *g;
        let expr = match Self::transform_node(g, parent_edges, content, Continuation::IntoReturn) {
            Ok(e) => e,
            Err(e) => {
                proof {
                    crate::graph::lemma_consumed_trans(*old(g), pre_transform, *g);
                }
                return Err(e);
            },
        };
        proof {
            crate::graph::lemma_consumed_trans(*old(g), pre_transform, *g);
        }
        if child_expressions.len() == 0 {
            Ok(expr)
        } else {
            let mut bindings: Vec<Binding> = Vec::new();
            bindings.push(Binding { name: node, expr });
            Ok(Expression::Let { bindings, expressions: child_expressions })
        }
    }

    /// Translates a whole graph: every root node is compiled into exactly one
    /// subtree of the emitted `Sequence`, in graph iteration order.
    pub fn translate(graph: QueryGraph) -> (r: Result<Expression, InterpreterError>)
        requires
            graph.wf(),
        ensures
            r matches Ok(e) ==> (e matches Expression::Sequence { seq } && seq@.len()
                == graph.spec_roots().len() && (forall|i: int|
                0 <= i < seq@.len() ==> ((#[trigger] seq@[i]) matches Expression::Let {
                    bindings,
                    ..
                } ==> (bindings@.len() == 1 && bindings@[0].name == graph.spec_roots()[i]))) && (
            forall|i: int|
                0 <= i < seq@.len() ==> ((#[trigger] seq@[i]) matches Expression::Query { query }
                    ==> graph.nodes@[graph.spec_roots()[i] as int] == Some(
                    Node::Query(*query),
                )))),
            (graph.nodes@.len() == 1 && graph.edges@.len() == 0 && !graph.visited@[0] && (
            graph.nodes@[0] matches Some(c) && c matches Node::Query(_))) ==> r is Ok,
    {
        let mut g = graph;
        let ghost g0 = graph;
        let ghost single_query = g0.nodes@.len() == 1 && g0.edges@.len() == 0
            && !g0.visited@[0] && (g0.nodes@[0] matches Some(c) && c matches Node::Query(_));
        let root_nodes = g.root_nodes();
        proof {
            lemma_spec_roots_bounds(g0, g0.nodes@.len() as int);
            crate::graph::lemma_consumed_refl(g0);
            if single_query {
                assert(g0.spec_is_root(0));
                assert(g0.spec_roots_upto(0) =~= Seq::<usize>::empty());
                assert(g0.spec_roots() =~= seq![0usize]);
                assert(g0.spec_children_upto(0, 0) =~= Seq::<(usize, usize)>::empty());
                assert(g0.spec_children(0).len() == 0);
            }
        }
        let mut seq: Vec<Expression> = Vec::new();
        let mut i: usize = 0;
        while i < root_nodes.len()
            invariant
                g.wf(),
                i <= root_nodes@.len(),
                seq@.len() == i,
                g.nodes@.len() == g0.nodes@.len(),
                g.edges@.len() == g0.edges@.len(),
                g.consumed_from(g0),
                root_nodes@ == g0.spec_roots(),
                forall|k: int|
                    0 <= k < root_nodes@.len() ==> (#[trigger] root_nodes@[k]) < g0.nodes@.len(),
                forall|k: int|
                    0 <= k < i ==> ((#[trigger] seq@[k]) matches Expression::Let { bindings, .. }
                        ==> (bindings@.len() == 1 && bindings@[0].name == root_nodes@[k])),
                forall|k: int|
                    0 <= k < i ==> ((#[trigger] seq@[k]) matches Expression::Query { query }
                        ==> g0.nodes@[root_nodes@[k] as int] == Some(Node::Query(*query))),
                g0 == graph,
                single_query == (g0.nodes@.len() == 1 && g0.edges@.len() == 0 && !g0.visited@[0]
                    && (g0.nodes@[0] matches Some(c) && c matches Node::Query(_))),
                single_query ==> (root_nodes@ == seq![0usize] && g0.spec_children(0).len() == 0),
                i == 0 ==> g == g0,
            decreases root_nodes@.len() - i,
        {
            let root = root_nodes[i];
            let ghost pre = *&g;
            match Self::build_expression(&mut g, root, Vec::new()) {
                Ok(e) => {
                    proof {
                        match &e {
                            Expression::Query { query } => {
                                assert(pre.nodes@[root as int] == Some(Node::Query(**query)));
                                assert(g0.nodes@[root as int] == Some(Node::Query(**query)));
                            },
                            _ => {},
                        }
                    }
                    seq.push(e);
                },
                Err(e) => {
                    proof {
                        if single_query {
                            assert(i == 0);
                            assert(pre == g0);
                            assert(false);
                        }
                    }
                    return Err(e);
                },
            }
            proof {
                crate::graph::lemma_consumed_trans(g0, pre, g);
            }
            i = i + 1;
        }
        Ok(Expression::Sequence { seq })
    }
}

} // verus!
