//! The compilation entry point: one query graph in, one expression tree and
//! the query builder that will lower its pending operations out.
use vstd::prelude::*;

use crate::builder::SqlQueryBuilder;
use crate::context::{ConnectionInfo, Context};
use crate::dynamic_schema::DynamicSchema;
use crate::error::CompileError;
use crate::expression::Expression;
use crate::expressionista::Expressionista;
use crate::graph::QueryGraph;

verus! {

/// Compiles a batch of query graphs with an empty dynamic schema; only a
/// single query can be compiled at a time.
pub fn compile(graphs: Vec<QueryGraph>, connection_info: ConnectionInfo) -> (r: Result<
    (Expression, SqlQueryBuilder),
    CompileError,
>)
    requires
        forall|i: int| 0 <= i < graphs@.len() ==> (#[trigger] graphs@[i]).wf(),
    ensures
        graphs@.len() != 1 ==> (r matches Err(e) && e matches CompileError::UnsupportedRequest),
        graphs@.len() == 1 ==> (r matches Err(e) ==> e matches CompileError::TranslateError(_)),
        r matches Ok(p) ==> (p.0 matches Expression::Sequence { .. }),
        r matches Ok(p) ==> (p.1.context.connection_info == connection_info
            && p.1.context.traceparent is None && p.1.context.alias_counter == 0
            && p.1.context.dynamic_schema@.len() == 0),
{
    compile_with_dynamic_schema(graphs, connection_info, DynamicSchema::new())
}

/// Compiles a batch of query graphs against a connection, remapping table
/// schemas through the dynamic schema: only a single query can be compiled
/// at a time; its graph is translated into one expression sequence, and the
/// returned builder lowers the pending operations with the given context.
pub fn compile_with_dynamic_schema(
    graphs: Vec<QueryGraph>,
    connection_info: ConnectionInfo,
    dynamic_schema: DynamicSchema,
) -> (r: Result<(Expression, SqlQueryBuilder), CompileError>)
    requires
        forall|i: int| 0 <= i < graphs@.len() ==> (#[trigger] graphs@[i]).wf(),
    ensures
        graphs@.len() != 1 ==> (r matches Err(e) && e matches CompileError::UnsupportedRequest),
        graphs@.len() == 1 ==> (r matches Err(e) ==> e matches CompileError::TranslateError(_)),
        r matches Ok(p) ==> (p.0 matches Expression::Sequence { .. }),
        r matches Ok(p) ==> (p.1.context.connection_info == connection_info
            && p.1.context.dynamic_schema == dynamic_schema && p.1.context.traceparent is None
            && p.1.context.alias_counter == 0),
{
    if graphs.len() != 1 {
        return Err(CompileError::UnsupportedRequest);
    }
    let ctx = Context::new_with_dynamic_schema(connection_info, dynamic_schema, None);
    let builder = SqlQueryBuilder::new(ctx);
    let mut batch = graphs;
    let graph = match batch.pop() {
        Some(g) => g,
        None => {
            return Err(CompileError::UnsupportedRequest);
        },
    };
    match Expressionista::translate(graph) {
        Ok(expression) => Ok((expression, builder)),
        Err(e) => Err(CompileError::TranslateError(e)),
    }
}

} // verus!
