//! Error taxonomy of the compiler and of the interpretation-time closures.
use vstd::prelude::*;

use crate::graph::Expectation;

verus! {

/// Failures raised while translating a graph or while resolving a deferred
/// function against a binding environment.
#[derive(Debug)]
pub enum InterpreterError {
    /// A deferred function looked up a binding name absent from the
    /// environment.
    EnvVarNotFound { binding_name: usize },
    /// A failure inside a transformer, wrapped with the parent binding name
    /// for diagnosis.
    InterpretationError { binding_name: usize, cause: Box<InterpreterError> },
    /// A dependency's expectation did not hold of the parent's result.
    ExpectationViolated { expected: Expectation, actual: usize },
    /// A projection asked for a field the parent row does not carry.
    MissingField { field: usize },
    /// A row sink needed at least one row but none was left.
    EmptyRows,
    /// A dependency's result had the wrong shape (a row count where rows were
    /// needed, or a sink aimed at a slot the node does not have).
    WrongResultShape,
    /// The compiler found a node whose payload was already consumed.
    NodeContentMissing { node: usize },
    /// The compiler reached a node a second time.
    NodeRevisited { node: usize },
    /// An `If` node without a `Then` edge.
    MissingThenEdge { node: usize },
    /// A node payload did not match the variant its position requires.
    UnexpectedNodeVariant,
}

/// Failures of the whole compilation entry point.
#[derive(Debug)]
pub enum CompileError {
    /// More than one query was submitted at once.
    UnsupportedRequest,
    /// The translation itself failed.
    TranslateError(InterpreterError),
}

} // verus!
