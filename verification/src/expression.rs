//! The expression tree the compiler emits, and the binding environment the
//! interpreter threads through it.
use vstd::prelude::*;

use crate::filter::rows_view;
use crate::graph::{Node, QueryGraphDependency, QueryNode, Rule};
use crate::values::{PvView, SelectionResult};

verus! {

/// A named binding introduced by a `Let`.
#[derive(Debug)]
pub struct Binding {
    pub name: usize,
    pub expr: Expression,
}

/// What a deferred function does with its node once the parent dependencies
/// have been applied.
#[derive(Debug)]
pub enum Continuation {
    /// Emit the node as a `Query` expression.
    IntoQuery,
    /// Emit the node's fixed rows as a `Return` expression.
    IntoReturn,
    /// Compute the node's set difference and emit it as a `Return`.
    ComputeDiff,
    /// Emit a fixed sequence of already-built child expressions.
    IntoSequence { seq: Vec<Expression> },
    /// Emit an `If` expression from the node's rule and data, with the given
    /// branches, wrapped in a `Let` when body children exist.
    IntoIf {
        node_id: usize,
        then_branch: Vec<Expression>,
        else_branch: Vec<Expression>,
        children: Vec<Expression>,
    },
}

/// A deferred function: the parent dependencies to run against the
/// environment at interpretation time, the node they rewrite, and what to
/// emit afterwards.
#[derive(Debug)]
pub struct PendingFunc {
    /// `(parent binding name, dependency)` in application order.
    pub deps: Vec<(usize, QueryGraphDependency)>,
    /// The node the dependencies rewrite.
    pub node: Box<Node>,
    /// What to emit once the node is final.
    pub cont: Continuation,
}

/// The predicate of an emitted `If` expression: a rule evaluated against a
/// fixed row payload.
#[derive(Debug)]
pub struct IfCondition {
    pub rule: Rule,
    pub data: Vec<SelectionResult>,
}

/// A fixed row list already known when the expression was built.
#[derive(Debug)]
pub struct FixedResult {
    pub rows: Vec<SelectionResult>,
}

/// The compiler's output: a tree of sequencing, bindings, queries, deferred
/// functions, branches and returns.
#[derive(Debug)]
pub enum Expression {
    /// Evaluate each expression, yield the last.
    Sequence { seq: Vec<Expression> },
    /// Introduce the bindings in order, then evaluate the body.
    Let { bindings: Vec<Binding>, expressions: Vec<Expression> },
    /// Look up a binding.
    Get { binding_name: usize },
    /// The first bound value that is non-empty.
    GetFirstNonEmpty { binding_names: Vec<usize> },
    /// A pending semantic operation handed to the query builder at
    /// interpretation time.
    Query { query: Box<QueryNode> },
    /// A deferred function resolved against the environment at
    /// interpretation time.
    Func { func: PendingFunc },
    /// A runtime branch.
    If { func: IfCondition, then_branch: Vec<Expression>, else_branch: Vec<Expression> },
    /// Short-circuit the enclosing scope with a fixed result.
    Return { result: FixedResult },
}

/// A value bound in the environment during interpretation.
#[derive(Debug)]
pub enum ExpressionResult {
    /// Materialized rows.
    FixedResult(Vec<SelectionResult>),
    /// A bare row count.
    Count(usize),
}

/// The model of an environment value.
pub enum ResultView {
    Rows(Seq<Seq<(usize, PvView)>>),
    Count(int),
}

impl View for ExpressionResult {
    type V = ResultView;

    open spec fn view(&self) -> ResultView {
        match self {
            ExpressionResult::FixedResult(rows) => ResultView::Rows(rows_view(rows@)),
            ExpressionResult::Count(n) => ResultView::Count(*n as int),
        }
    }
}

impl ExpressionResult {
    /// The row count the result stands for.
    pub open spec fn spec_count(self) -> nat {
        match self {
            ExpressionResult::FixedResult(rows) => rows@.len(),
            ExpressionResult::Count(n) => n as nat,
        }
    }

    /// The row count the result stands for.
    pub fn count(&self) -> (r: usize)
        ensures
            r == self.spec_count(),
    {
        match self {
            ExpressionResult::FixedResult(rows) => rows.len(),
            ExpressionResult::Count(n) => *n,
        }
    }
}

/// The binding environment: names bound to results, later bindings shadowing
/// earlier ones.
#[derive(Debug)]
pub struct Env {
    pub entries: Vec<(usize, ExpressionResult)>,
}

/// The index of the binding `get` returns: the last entry with the name.
pub open spec fn spec_env_index(entries: Seq<(usize, ExpressionResult)>, name: usize) -> Option<
    int,
>
    decreases entries.len(),
{
    if entries.len() == 0 {
        None
    } else if entries.last().0 == name {
        Some(entries.len() - 1)
    } else {
        spec_env_index(entries.drop_last(), name)
    }
}

impl Env {
    /// An empty environment.
    pub fn new() -> (r: Env)
        ensures
            r.entries@.len() == 0,
    {
        Env { entries: Vec::new() }
    }

    /// Binds a name, shadowing earlier bindings of it.
    pub fn insert(&mut self, name: usize, value: ExpressionResult)
        ensures
            final(self).entries@ == old(self).entries@.push((name, value)),
    {
        self.entries.push((name, value));
    }

    /// The value bound to `name`, the latest binding winning.
    pub fn get(&self, name: usize) -> (r: Option<&ExpressionResult>)
        ensures
            match r {
                Some(v) => {
                    &&& spec_env_index(self.entries@, name) matches Some(k)
                    &&& 0 <= spec_env_index(self.entries@, name).unwrap() < self.entries@.len()
                    &&& self.entries@[spec_env_index(self.entries@, name).unwrap()].1 == *v
                },
                None => spec_env_index(self.entries@, name) is None,
            },
    {
        let mut i: usize = self.entries.len();
        proof {
            assert(self.entries@.take(i as int) =~= self.entries@);
        }
        while i > 0
            invariant
                i <= self.entries@.len(),
                spec_env_index(self.entries@, name) == spec_env_index(
                    self.entries@.take(i as int),
                    name,
                ),
            decreases i,
        {
            proof {
                assert(self.entries@.take(i as int).last() == self.entries@[i - 1]);
                assert(self.entries@.take(i as int).drop_last() =~= self.entries@.take(i - 1));
            }
            if self.entries[i - 1].0 == name {
                return Some(&self.entries[i - 1].1);
            }
            i = i - 1;
        }
        None
    }
}

} // verus!
