//! Core of a query compilation runtime: an expression compiler that
//! linearizes a query graph into a tree of let-bindings while preserving
//! ordering, result propagation and parent-to-child transformers, and a
//! dialect-parametric SQL query builder that lowers semantic operations to
//! parametrized templates with a portable placeholder representation.

// The value model and the graph the compiler consumes.
pub mod values;
pub mod filter;
pub mod graph;

// The compiler, its output, and the interpretation-time semantics of the
// deferred functions it emits.
pub mod error;
pub mod expression;
pub mod interpret;
pub mod expressionista;

// The builder side: dialects, per-compilation state, model metadata, the SQL
// AST and its visitor, and the operation builders.
pub mod dialect;
pub mod dynamic_schema;
pub mod context;
pub mod default_value;
pub mod model;
pub mod sql_ast;
pub mod visitor;
pub mod builder;
pub mod update;

// The entry point tying both halves together.
pub mod compile;
