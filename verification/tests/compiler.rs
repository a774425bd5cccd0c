//! Tests of the expression compiler: graph shapes in, expression trees out,
//! and the interpretation-time resolution of deferred functions.
use query_compiler::error::InterpreterError;
use query_compiler::expression::{Env, Expression, ExpressionResult};
use query_compiler::expressionista::Expressionista;
use query_compiler::graph::{
    Computation, DiffNode, Expectation, Flow, Node, QueryGraph, QueryGraphDependency, QueryNode,
    QueryOp, RowSink, Rule,
};
use query_compiler::interpret::{compute_diff, first_non_empty, resolve_func};
use query_compiler::values::{PrismaValue, SelectionResult};

fn query_node() -> Node {
    Node::Query(QueryNode {
        op: QueryOp::Read,
        model: Some(1),
        parent_result: None,
        parent_results: Vec::new(),
        filter: None,
        write_args: Vec::new(),
        updated_at_fields: Vec::new(),
    })
}

fn int_row(field: usize, n: i64) -> SelectionResult {
    SelectionResult { pairs: vec![(field, PrismaValue::Int(n))] }
}

#[test]
fn single_result_query_node_compiles_to_a_sequence_of_one_query() {
    let mut g = QueryGraph::new();
    let a = g.add_node(query_node());
    g.mark_result(a);
    let expr = Expressionista::translate(g).unwrap();
    match expr {
        Expression::Sequence { seq } => {
            assert_eq!(seq.len(), 1);
            assert!(matches!(seq[0], Expression::Query { .. }));
        }
        other => panic!("expected a sequence, got {:?}", other),
    }
}

#[test]
fn parent_child_sink_compiles_to_a_let_over_a_deferred_func() {
    let mut g = QueryGraph::new();
    let a = g.add_node(query_node());
    let b = g.add_node(query_node());
    g.mark_result(b);
    g.add_edge(
        a,
        b,
        QueryGraphDependency::ProjectedDataSink {
            selection: vec![1],
            sink: RowSink::ExactlyOne(query_compiler::graph::RowsField::ParentResults),
            expectation: Some(Expectation::RowCountEq(1)),
        },
    );
    let expr = Expressionista::translate(g).unwrap();
    match expr {
        Expression::Sequence { seq } => {
            assert_eq!(seq.len(), 1);
            match &seq[0] {
                Expression::Let { bindings, expressions } => {
                    assert_eq!(bindings.len(), 1);
                    assert_eq!(bindings[0].name, a);
                    assert!(matches!(bindings[0].expr, Expression::Query { .. }));
                    assert_eq!(expressions.len(), 1);
                    match &expressions[0] {
                        Expression::Let { bindings: inner, expressions: body } => {
                            assert_eq!(inner.len(), 1);
                            assert_eq!(inner[0].name, b);
                            assert!(matches!(inner[0].expr, Expression::Func { .. }));
                            assert_eq!(body.len(), 1);
                            assert!(matches!(
                                body[0],
                                Expression::Get { binding_name } if binding_name == b
                            ));
                        }
                        other => panic!("expected the folded result binding, got {:?}", other),
                    }
                }
                other => panic!("expected a let over the parent, got {:?}", other),
            }
        }
        other => panic!("expected a sequence, got {:?}", other),
    }
}

#[test]
fn if_node_compiles_both_branches() {
    let mut g = QueryGraph::new();
    let c = g.add_node(Node::Flow(Flow::If {
        rule: Rule::NonEmpty,
        data: vec![int_row(1, 5)],
    }));
    let d = g.add_node(query_node());
    let e = g.add_node(query_node());
    g.mark_result(d);
    g.add_edge(c, d, QueryGraphDependency::Then);
    g.add_edge(c, e, QueryGraphDependency::Else);
    let expr = Expressionista::translate(g).unwrap();
    match expr {
        Expression::Sequence { seq } => {
            assert_eq!(seq.len(), 1);
            match &seq[0] {
                Expression::If { func, then_branch, else_branch } => {
                    assert_eq!(func.rule, Rule::NonEmpty);
                    assert_eq!(func.data.len(), 1);
                    assert_eq!(then_branch.len(), 1);
                    assert!(matches!(then_branch[0], Expression::Query { .. }));
                    assert_eq!(else_branch.len(), 1);
                    assert!(matches!(else_branch[0], Expression::Query { .. }));
                }
                other => panic!("expected a branch expression, got {:?}", other),
            }
        }
        other => panic!("expected a sequence, got {:?}", other),
    }
}

#[test]
fn if_node_without_else_gets_an_empty_else_list() {
    let mut g = QueryGraph::new();
    let c = g.add_node(Node::Flow(Flow::If { rule: Rule::Empty, data: Vec::new() }));
    let d = g.add_node(query_node());
    g.add_edge(c, d, QueryGraphDependency::Then);
    let expr = Expressionista::translate(g).unwrap();
    match expr {
        Expression::Sequence { seq } => match &seq[0] {
            Expression::If { else_branch, .. } => assert!(else_branch.is_empty()),
            other => panic!("expected a branch expression, got {:?}", other),
        },
        other => panic!("expected a sequence, got {:?}", other),
    }
}

#[test]
fn if_node_without_then_edge_is_a_compile_error() {
    let mut g = QueryGraph::new();
    let c = g.add_node(Node::Flow(Flow::If { rule: Rule::NonEmpty, data: Vec::new() }));
    let e = g.add_node(query_node());
    g.add_edge(c, e, QueryGraphDependency::Else);
    let r = Expressionista::translate(g);
    match r {
        Err(InterpreterError::MissingThenEdge { node }) => assert_eq!(node, c),
        other => panic!("expected a missing-then failure, got {:?}", other),
    }
}

#[test]
fn diff_computation_interprets_to_the_left_minus_right_rows() {
    let mut g = QueryGraph::new();
    let n = g.add_node(Node::Computation(Computation::DiffLeftToRight(DiffNode {
        left: vec![int_row(1, 1), int_row(1, 2), int_row(1, 3)],
        right: vec![int_row(1, 2), int_row(1, 3), int_row(1, 4)],
    })));
    g.mark_result(n);
    let expr = Expressionista::translate(g).unwrap();
    let func = match expr {
        Expression::Sequence { mut seq } => match seq.remove(0) {
            Expression::Func { func } => func,
            other => panic!("expected a deferred function, got {:?}", other),
        },
        other => panic!("expected a sequence, got {:?}", other),
    };
    let env = Env::new();
    match resolve_func(func, &env, 0).unwrap() {
        Expression::Return { result } => {
            assert_eq!(result.rows.len(), 1);
            assert_eq!(result.rows[0].pairs.len(), 1);
            assert_eq!(result.rows[0].pairs[0].0, 1);
            assert!(result.rows[0].pairs[0].1.eq_value(&PrismaValue::Int(1)));
        }
        other => panic!("expected a fixed return, got {:?}", other),
    }
}

#[test]
fn diff_right_to_left_takes_the_other_operand() {
    let out = compute_diff(Computation::DiffRightToLeft(DiffNode {
        left: vec![int_row(1, 1), int_row(1, 2)],
        right: vec![int_row(1, 2), int_row(1, 9)],
    }));
    assert_eq!(out.len(), 1);
    assert!(out[0].pairs[0].1.eq_value(&PrismaValue::Int(9)));
}

#[test]
fn two_result_nodes_fold_into_get_first_non_empty() {
    let mut g = QueryGraph::new();
    let root = g.add_node(query_node());
    let x = g.add_node(query_node());
    let y = g.add_node(query_node());
    g.mark_result(x);
    g.mark_result(y);
    g.add_edge(root, x, QueryGraphDependency::ExecutionOrder);
    g.add_edge(root, y, QueryGraphDependency::ExecutionOrder);
    let expr = Expressionista::translate(g).unwrap();
    match expr {
        Expression::Sequence { seq } => match &seq[0] {
            Expression::Let { bindings, expressions } => {
                assert_eq!(bindings.len(), 1);
                assert_eq!(bindings[0].name, root);
                match &expressions[0] {
                    Expression::Let { bindings: folded, expressions: body } => {
                        assert_eq!(folded.len(), 2);
                        assert_eq!(folded[0].name, x);
                        assert_eq!(folded[1].name, y);
                        assert_eq!(body.len(), 1);
                        match &body[0] {
                            Expression::GetFirstNonEmpty { binding_names } => {
                                assert_eq!(binding_names, &vec![x, y]);
                            }
                            other => panic!("expected first-non-empty, got {:?}", other),
                        }
                    }
                    other => panic!("expected the folded bindings, got {:?}", other),
                }
            }
            other => panic!("expected a let, got {:?}", other),
        },
        other => panic!("expected a sequence, got {:?}", other),
    }
}

#[test]
fn deferred_func_fails_without_its_parent_binding() {
    let mut g = QueryGraph::new();
    let a = g.add_node(query_node());
    let b = g.add_node(query_node());
    g.mark_result(b);
    g.add_edge(
        a,
        b,
        QueryGraphDependency::ProjectedData {
            selection: vec![1],
            transformer: query_compiler::graph::TransformerFn::SetParentResults,
            expectation: None,
        },
    );
    let expr = Expressionista::translate(g).unwrap();
    let func = match expr {
        Expression::Sequence { mut seq } => match seq.remove(0) {
            Expression::Let { mut expressions, .. } => match expressions.remove(0) {
                Expression::Let { mut bindings, .. } => match bindings.remove(0).expr {
                    Expression::Func { func } => func,
                    other => panic!("expected a deferred function, got {:?}", other),
                },
                other => panic!("expected the folded binding, got {:?}", other),
            },
            other => panic!("expected a let, got {:?}", other),
        },
        other => panic!("expected a sequence, got {:?}", other),
    };
    let env = Env::new();
    match resolve_func(func, &env, 0) {
        Err(InterpreterError::EnvVarNotFound { binding_name }) => assert_eq!(binding_name, a),
        other => panic!("expected a missing binding failure, got {:?}", other),
    }
}

#[test]
fn deferred_func_applies_the_parent_rows() {
    let mut g = QueryGraph::new();
    let a = g.add_node(query_node());
    let b = g.add_node(query_node());
    g.mark_result(b);
    g.add_edge(
        a,
        b,
        QueryGraphDependency::ProjectedData {
            selection: vec![1],
            transformer: query_compiler::graph::TransformerFn::SetParentResults,
            expectation: Some(Expectation::RowCountEq(1)),
        },
    );
    let expr = Expressionista::translate(g).unwrap();
    let func = match expr {
        Expression::Sequence { mut seq } => match seq.remove(0) {
            Expression::Let { mut expressions, .. } => match expressions.remove(0) {
                Expression::Let { mut bindings, .. } => match bindings.remove(0).expr {
                    Expression::Func { func } => func,
                    other => panic!("expected a deferred function, got {:?}", other),
                },
                other => panic!("expected the folded binding, got {:?}", other),
            },
            other => panic!("expected a let, got {:?}", other),
        },
        other => panic!("expected a sequence, got {:?}", other),
    };
    let mut env = Env::new();
    env.insert(a, ExpressionResult::FixedResult(vec![int_row(1, 42)]));
    match resolve_func(func, &env, 0).unwrap() {
        Expression::Query { query } => {
            assert_eq!(query.parent_results.len(), 1);
            assert!(query.parent_results[0].pairs[0].1.eq_value(&PrismaValue::Int(42)));
        }
        other => panic!("expected the rewritten query, got {:?}", other),
    }
}

#[test]
fn deferred_func_surfaces_expectation_violations_with_the_binding_name() {
    let mut g = QueryGraph::new();
    let a = g.add_node(query_node());
    let b = g.add_node(query_node());
    g.mark_result(b);
    g.add_edge(
        a,
        b,
        QueryGraphDependency::ProjectedData {
            selection: vec![1],
            transformer: query_compiler::graph::TransformerFn::SetParentResults,
            expectation: Some(Expectation::RowCountEq(2)),
        },
    );
    let expr = Expressionista::translate(g).unwrap();
    let func = match expr {
        Expression::Sequence { mut seq } => match seq.remove(0) {
            Expression::Let { mut expressions, .. } => match expressions.remove(0) {
                Expression::Let { mut bindings, .. } => match bindings.remove(0).expr {
                    Expression::Func { func } => func,
                    other => panic!("expected a deferred function, got {:?}", other),
                },
                other => panic!("expected the folded binding, got {:?}", other),
            },
            other => panic!("expected a let, got {:?}", other),
        },
        other => panic!("expected a sequence, got {:?}", other),
    };
    let mut env = Env::new();
    env.insert(a, ExpressionResult::FixedResult(vec![int_row(1, 42)]));
    match resolve_func(func, &env, 0) {
        Err(InterpreterError::InterpretationError { binding_name, cause }) => {
            assert_eq!(binding_name, a);
            assert!(matches!(
                *cause,
                InterpreterError::ExpectationViolated { actual: 1, .. }
            ));
        }
        other => panic!("expected a wrapped failure, got {:?}", other),
    }
}

#[test]
fn environment_bindings_shadow_and_first_non_empty_skips_empty() {
    let mut env = Env::new();
    env.insert(7, ExpressionResult::FixedResult(Vec::new()));
    env.insert(8, ExpressionResult::FixedResult(vec![int_row(1, 3)]));
    env.insert(7, ExpressionResult::Count(2));
    match env.get(7) {
        Some(ExpressionResult::Count(n)) => assert_eq!(*n, 2),
        other => panic!("expected the shadowing binding, got {:?}", other),
    }
    let names = vec![9, 7, 8];
    match first_non_empty(&env, &names) {
        Some(ExpressionResult::Count(n)) => assert_eq!(*n, 2),
        other => panic!("expected the first non-empty binding, got {:?}", other),
    }
    let empty_only = vec![9];
    assert!(first_non_empty(&env, &empty_only).is_none());
}

#[test]
fn empty_node_compiles_children_into_a_sequence() {
    let mut g = QueryGraph::new();
    let root = g.add_node(Node::Empty);
    let child = g.add_node(query_node());
    g.add_edge(root, child, QueryGraphDependency::ExecutionOrder);
    let expr = Expressionista::translate(g).unwrap();
    match expr {
        Expression::Sequence { seq } => match &seq[0] {
            Expression::Sequence { seq: inner } => {
                assert_eq!(inner.len(), 1);
                assert!(matches!(inner[0], Expression::Query { .. }));
            }
            other => panic!("expected an inner sequence, got {:?}", other),
        },
        other => panic!("expected a sequence, got {:?}", other),
    }
}

#[test]
fn return_node_yields_its_fixed_rows() {
    let mut g = QueryGraph::new();
    let n = g.add_node(Node::Flow(Flow::Return(vec![int_row(2, 11)])));
    g.mark_result(n);
    let expr = Expressionista::translate(g).unwrap();
    match expr {
        Expression::Sequence { seq } => match &seq[0] {
            Expression::Return { result } => {
                assert_eq!(result.rows.len(), 1);
                assert!(result.rows[0].pairs[0].1.eq_value(&PrismaValue::Int(11)));
            }
            other => panic!("expected a return, got {:?}", other),
        },
        other => panic!("expected a sequence, got {:?}", other),
    }
}

#[test]
fn every_root_appears_once_in_graph_order() {
    let mut g = QueryGraph::new();
    let r1 = g.add_node(query_node());
    let r2 = g.add_node(Node::Flow(Flow::Return(Vec::new())));
    let r3 = g.add_node(Node::Empty);
    g.mark_result(r2);
    let _ = (r1, r3);
    let expr = Expressionista::translate(g).unwrap();
    match expr {
        Expression::Sequence { seq } => {
            assert_eq!(seq.len(), 3);
            assert!(matches!(seq[0], Expression::Query { .. }));
            assert!(matches!(seq[1], Expression::Return { .. }));
            assert!(matches!(seq[2], Expression::Sequence { .. }));
        }
        other => panic!("expected a sequence, got {:?}", other),
    }
}

#[test]
fn non_result_children_come_before_the_folded_result() {
    let mut g = QueryGraph::new();
    let root = g.add_node(query_node());
    let plain = g.add_node(Node::Flow(Flow::Return(Vec::new())));
    let result_child = g.add_node(query_node());
    g.mark_result(result_child);
    g.add_edge(root, result_child, QueryGraphDependency::ExecutionOrder);
    g.add_edge(root, plain, QueryGraphDependency::ExecutionOrder);
    let expr = Expressionista::translate(g).unwrap();
    match expr {
        Expression::Sequence { seq } => match &seq[0] {
            Expression::Let { expressions, .. } => {
                assert_eq!(expressions.len(), 2);
                assert!(matches!(expressions[0], Expression::Return { .. }));
                assert!(matches!(expressions[1], Expression::Let { .. }));
            }
            other => panic!("expected a let, got {:?}", other),
        },
        other => panic!("expected a sequence, got {:?}", other),
    }
}

#[test]
fn missing_selection_fields_surface_as_wrapped_failures() {
    let mut g = QueryGraph::new();
    let a = g.add_node(query_node());
    let b = g.add_node(query_node());
    g.mark_result(b);
    g.add_edge(
        a,
        b,
        QueryGraphDependency::ProjectedData {
            selection: vec![99],
            transformer: query_compiler::graph::TransformerFn::SetParentResults,
            expectation: None,
        },
    );
    let expr = Expressionista::translate(g).unwrap();
    let func = match expr {
        Expression::Sequence { mut seq } => match seq.remove(0) {
            Expression::Let { mut expressions, .. } => match expressions.remove(0) {
                Expression::Let { mut bindings, .. } => match bindings.remove(0).expr {
                    Expression::Func { func } => func,
                    other => panic!("expected a deferred function, got {:?}", other),
                },
                other => panic!("expected the folded binding, got {:?}", other),
            },
            other => panic!("expected a let, got {:?}", other),
        },
        other => panic!("expected a sequence, got {:?}", other),
    };
    let mut env = Env::new();
    env.insert(a, ExpressionResult::FixedResult(vec![int_row(1, 42)]));
    match resolve_func(func, &env, 0) {
        Err(InterpreterError::InterpretationError { cause, .. }) => {
            assert!(matches!(*cause, InterpreterError::MissingField { field: 99 }));
        }
        other => panic!("expected a wrapped missing-field failure, got {:?}", other),
    }
}

#[test]
fn empty_parent_rows_fail_a_single_row_sink() {
    let mut g = QueryGraph::new();
    let a = g.add_node(query_node());
    let b = g.add_node(query_node());
    g.mark_result(b);
    g.add_edge(
        a,
        b,
        QueryGraphDependency::ProjectedDataSink {
            selection: vec![1],
            sink: RowSink::Single,
            expectation: None,
        },
    );
    let expr = Expressionista::translate(g).unwrap();
    let func = match expr {
        Expression::Sequence { mut seq } => match seq.remove(0) {
            Expression::Let { mut expressions, .. } => match expressions.remove(0) {
                Expression::Let { mut bindings, .. } => match bindings.remove(0).expr {
                    Expression::Func { func } => func,
                    other => panic!("expected a deferred function, got {:?}", other),
                },
                other => panic!("expected the folded binding, got {:?}", other),
            },
            other => panic!("expected a let, got {:?}", other),
        },
        other => panic!("expected a sequence, got {:?}", other),
    };
    let mut env = Env::new();
    env.insert(a, ExpressionResult::FixedResult(Vec::new()));
    match resolve_func(func, &env, 0) {
        Err(InterpreterError::InterpretationError { cause, .. }) => {
            assert!(matches!(*cause, InterpreterError::EmptyRows));
        }
        other => panic!("expected a wrapped empty-rows failure, got {:?}", other),
    }
}

#[test]
fn a_row_count_binding_cannot_feed_a_projection() {
    let mut g = QueryGraph::new();
    let a = g.add_node(query_node());
    let b = g.add_node(query_node());
    g.mark_result(b);
    g.add_edge(
        a,
        b,
        QueryGraphDependency::ProjectedData {
            selection: vec![1],
            transformer: query_compiler::graph::TransformerFn::SetParentResults,
            expectation: None,
        },
    );
    let expr = Expressionista::translate(g).unwrap();
    let func = match expr {
        Expression::Sequence { mut seq } => match seq.remove(0) {
            Expression::Let { mut expressions, .. } => match expressions.remove(0) {
                Expression::Let { mut bindings, .. } => match bindings.remove(0).expr {
                    Expression::Func { func } => func,
                    other => panic!("expected a deferred function, got {:?}", other),
                },
                other => panic!("expected the folded binding, got {:?}", other),
            },
            other => panic!("expected a let, got {:?}", other),
        },
        other => panic!("expected a sequence, got {:?}", other),
    };
    let mut env = Env::new();
    env.insert(a, ExpressionResult::Count(3));
    match resolve_func(func, &env, 0) {
        Err(InterpreterError::InterpretationError { cause, .. }) => {
            assert!(matches!(*cause, InterpreterError::WrongResultShape));
        }
        other => panic!("expected a wrapped shape failure, got {:?}", other),
    }
}

#[test]
fn revisiting_a_shared_child_is_a_compile_error() {
    let mut g = QueryGraph::new();
    let a = g.add_node(query_node());
    let b = g.add_node(query_node());
    let shared = g.add_node(query_node());
    g.mark_result(shared);
    g.add_edge(a, shared, QueryGraphDependency::ExecutionOrder);
    g.add_edge(b, shared, QueryGraphDependency::ExecutionOrder);
    match Expressionista::translate(g) {
        Err(InterpreterError::NodeContentMissing { node }) => assert_eq!(node, shared),
        Err(InterpreterError::NodeRevisited { node }) => assert_eq!(node, shared),
        other => panic!("expected a consumed-twice failure, got {:?}", other),
    }
}
