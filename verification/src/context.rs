//! Per-compilation state: connection info, trace parent, dialect limits, the
//! dynamic schema, and the monotonic alias counter.
use vstd::prelude::*;

use crate::dialect::SqlFamily;
use crate::dynamic_schema::{spec_map_lookup, DynamicSchema};

verus! {

/// What the builder consumes from the connection: dialect family, default
/// schema name, and the dialect's batching limits.
#[derive(Debug)]
pub struct ConnectionInfo {
    pub family: SqlFamily,
    pub schema_name: Option<String>,
    /// Maximum rows allowed at once for an insert query; `None` is unlimited.
    pub max_insert_rows: Option<usize>,
    /// Maximum number of bind parameters allowed for a single query.
    pub max_bind_values: usize,
}

/// A table or join alias issued by the context; aliases from one context
/// never collide because they share one counter.
#[derive(Clone, Copy, Debug, PartialEq, Eq, Structural)]
pub enum Alias {
    Table(usize),
    Join(usize),
}

/// Per-compilation state threaded through the query builder.
#[derive(Debug)]
pub struct Context {
    pub connection_info: ConnectionInfo,
    pub traceparent: Option<String>,
    /// Maximum rows allowed at once for an insert query; `None` is unlimited.
    pub max_insert_rows: Option<usize>,
    /// Maximum number of bind parameters allowed for a single query.
    pub max_bind_values: Option<usize>,
    pub dynamic_schema: DynamicSchema,
    pub alias_counter: usize,
}

/// The model of schema remapping: an empty mapping is the identity; a
/// non-empty mapping resolves only the origins it lists.
pub open spec fn spec_target_schema(
    entries: Seq<(Seq<char>, Seq<char>)>,
    origin: Seq<char>,
) -> Option<Seq<char>> {
    if entries.len() == 0 {
        Some(origin)
    } else {
        spec_map_lookup(entries, origin)
    }
}

impl Context {
    /// Builds a context from the connection info, materializing the dialect
    /// limits, with an empty dynamic schema and the alias counter at zero.
    pub fn new(connection_info: ConnectionInfo, traceparent: Option<String>) -> (r: Context)
        ensures
            r.connection_info == connection_info,
            r.traceparent == traceparent,
            r.max_insert_rows == connection_info.max_insert_rows,
            r.max_bind_values == Some(connection_info.max_bind_values),
            r.dynamic_schema@.len() == 0,
            r.alias_counter == 0,
    {
        let max_insert_rows = connection_info.max_insert_rows;
        let max_bind_values = connection_info.max_bind_values;
        Context {
            connection_info,
            traceparent,
            max_insert_rows,
            max_bind_values: Some(max_bind_values),
            dynamic_schema: DynamicSchema::new(),
            alias_counter: 0,
        }
    }

    /// Builds a context carrying the given dynamic schema.
    pub fn new_with_dynamic_schema(
        connection_info: ConnectionInfo,
        dynamic_schema: DynamicSchema,
        traceparent: Option<String>,
    ) -> (r: Context)
        ensures
            r.connection_info == connection_info,
            r.traceparent == traceparent,
            r.max_insert_rows == connection_info.max_insert_rows,
            r.max_bind_values == Some(connection_info.max_bind_values),
            r.dynamic_schema == dynamic_schema,
            r.alias_counter == 0,
    {
        let mut ctx = Context::new(connection_info, traceparent);
        ctx.dynamic_schema = dynamic_schema;
        ctx
    }

    /// The trace parent of the compilation, if any.
    pub fn traceparent(&self) -> (r: Option<&String>)
        ensures
            r == match self.traceparent {
                Some(ref t) => Some(t),
                None => None::<&String>,
            },
    {
        self.traceparent.as_ref()
    }

    /// The connection's default schema name.
    pub fn schema_name(&self) -> (r: Option<&String>)
        ensures
            r == match self.connection_info.schema_name {
                Some(ref s) => Some(s),
                None => None::<&String>,
            },
    {
        self.connection_info.schema_name.as_ref()
    }

    /// The connection's dialect family.
    pub fn sql_family(&self) -> (r: SqlFamily)
        ensures
            r == self.connection_info.family,
    {
        self.connection_info.family
    }

    /// Maximum rows allowed at once for an insert query.
    pub fn max_insert_rows(&self) -> (r: Option<usize>)
        ensures
            r == self.max_insert_rows,
    {
        self.max_insert_rows
    }

    /// Maximum number of bind parameters allowed for a single query.
    pub fn max_bind_values(&self) -> (r: Option<usize>)
        ensures
            r == self.max_bind_values,
    {
        self.max_bind_values
    }

    /// Issues the next table alias; successive aliases from one context carry
    /// strictly increasing numbers.
    pub fn next_table_alias(&mut self) -> (r: Alias)
        requires
            old(self).alias_counter < usize::MAX,
        ensures
            r == Alias::Table(old(self).alias_counter),
            final(self).alias_counter == old(self).alias_counter + 1,
            final(self).connection_info == old(self).connection_info,
            final(self).traceparent == old(self).traceparent,
            final(self).max_insert_rows == old(self).max_insert_rows,
            final(self).max_bind_values == old(self).max_bind_values,
            final(self).dynamic_schema == old(self).dynamic_schema,
    {
        let n = self.alias_counter;
        self.alias_counter = self.alias_counter + 1;
        Alias::Table(n)
    }

    /// Issues the next join alias from the same counter as table aliases.
    pub fn next_join_alias(&mut self) -> (r: Alias)
        requires
            old(self).alias_counter < usize::MAX,
        ensures
            r == Alias::Join(old(self).alias_counter),
            final(self).alias_counter == old(self).alias_counter + 1,
            final(self).connection_info == old(self).connection_info,
            final(self).traceparent == old(self).traceparent,
            final(self).max_insert_rows == old(self).max_insert_rows,
            final(self).max_bind_values == old(self).max_bind_values,
            final(self).dynamic_schema == old(self).dynamic_schema,
    {
        let n = self.alias_counter;
        self.alias_counter = self.alias_counter + 1;
        Alias::Join(n)
    }

    /// Resolves an origin schema through the dynamic schema: the identity
    /// when the mapping is empty, otherwise the mapped target or `None`.
    pub fn target_schema(&self, origin_schema: &String) -> (r: Option<String>)
        ensures
            match r {
                Some(t) => spec_target_schema(self.dynamic_schema@, origin_schema@) == Some(t@),
                None => spec_target_schema(self.dynamic_schema@, origin_schema@) is None,
            },
    {
        if self.dynamic_schema.is_empty() {
            return Some(String::from_str(origin_schema.as_str()));
        }
        match self.dynamic_schema.get(origin_schema) {
            Some(t) => Some(String::from_str(t.as_str())),
            None => None,
        }
    }
}

/// The number of an alias, whichever kind it is.
pub open spec fn spec_alias_number(a: Alias) -> nat {
    match a {
        Alias::Table(n) => n as nat,
        Alias::Join(n) => n as nat,
    }
}

/// Alias monotonicity: two successive alias issuances from one context, in
/// either kind, return aliases with strictly increasing numbers, so aliases
/// issued within a context never collide.
pub proof fn lemma_alias_monotonic(c0: Context, c1: Context, c2: Context, a1: Alias, a2: Alias)
    requires
        c1.alias_counter == c0.alias_counter + 1,
        spec_alias_number(a1) == c0.alias_counter,
        c2.alias_counter == c1.alias_counter + 1,
        spec_alias_number(a2) == c1.alias_counter,
    ensures
        spec_alias_number(a1) < spec_alias_number(a2),
        a1 != a2,
{
}

} // verus!
