//! Model metadata the builder consumes: table name, origin schema, columns
//! with their database names and defaults, identifiers and indexes.
use vstd::prelude::*;

use crate::default_value::DefaultValue;
use crate::filter::Filter;
use crate::values::PrismaValueType;

verus! {

/// One scalar column of a model.
#[derive(Debug)]
pub struct ColumnDef {
    pub field_id: usize,
    pub db_name: String,
    pub type_tag: PrismaValueType,
    pub nullable: bool,
    pub default: Option<DefaultValue>,
}

/// A model: its table, origin schema, columns and identifiers.
#[derive(Debug)]
pub struct ModelDef {
    pub db_name: String,
    pub origin_schema: Option<String>,
    pub columns: Vec<ColumnDef>,
    /// Field identifiers of the primary identifier, in declaration order.
    pub primary_identifier: Vec<usize>,
    /// Field identifiers of each unique index.
    pub unique_indexes: Vec<Vec<usize>>,
    /// Fields refreshed on every write.
    pub updated_at_fields: Vec<usize>,
}

/// The index of the column of field `f`, if the model has it.
pub open spec fn spec_column_index(columns: Seq<ColumnDef>, f: usize) -> Option<int>
    decreases columns.len(),
{
    if columns.len() == 0 {
        None
    } else if columns[0].field_id == f {
        Some(0int)
    } else {
        match spec_column_index(columns.drop_first(), f) {
            Some(i) => Some(i + 1),
            None => None,
        }
    }
}

impl ModelDef {
    /// The column of field `f`, if the model has it.
    pub fn column(&self, f: usize) -> (r: Option<&ColumnDef>)
        ensures
            match r {
                Some(c) => {
                    &&& spec_column_index(self.columns@, f) matches Some(k)
                    &&& 0 <= spec_column_index(self.columns@, f).unwrap() < self.columns@.len()
                    &&& self.columns@[spec_column_index(self.columns@, f).unwrap()] == *c
                    &&& c.field_id == f
                },
                None => spec_column_index(self.columns@, f) is None,
            },
    {
        let mut i: usize = 0;
        proof {
            assert(self.columns@.skip(0) =~= self.columns@);
        }
        while i < self.columns.len()
            invariant
                i <= self.columns@.len(),
                spec_column_index(self.columns@, f) == match spec_column_index(
                    self.columns@.skip(i as int),
                    f,
                ) {
                    Some(k) => Some(k + i),
                    None => None::<int>,
                },
            decreases self.columns@.len() - i,
        {
            proof {
                assert(self.columns@.skip(i as int)[0] == self.columns@[i as int]);
                assert(self.columns@.skip(i as int).drop_first() =~= self.columns@.skip(i + 1));
            }
            if self.columns[i].field_id == f {
                return Some(&self.columns[i]);
            }
            i = i + 1;
        }
        proof {
            assert(self.columns@.skip(i as int).len() == 0);
        }
        None
    }

    /// The database column names of the given fields, in order; fields the
    /// model does not have are skipped.
    pub fn column_db_names(&self, fields: &Vec<usize>) -> (r: Vec<String>)
        ensures
            names_views(r@) == spec_db_names(self.columns@, fields@),
            r@.len() <= fields@.len(),
    {
        let mut out: Vec<String> = Vec::new();
        let mut i: usize = 0;
        while i < fields.len()
            invariant
                i <= fields@.len(),
                out@.len() <= i,
                names_views(out@) == spec_db_names_upto(self.columns@, fields@, i as int),
            decreases fields@.len() - i,
        {
            match self.column(fields[i]) {
                Some(c) => {
                    out.push(String::from_str(c.db_name.as_str()));
                    proof {
                        assert(names_views(out@) =~= spec_db_names_upto(
                            self.columns@,
                            fields@,
                            i + 1,
                        ));
                    }
                },
                None => {
                    proof {
                        assert(names_views(out@) =~= spec_db_names_upto(
                            self.columns@,
                            fields@,
                            i + 1,
                        ));
                    }
                },
            }
            i = i + 1;
        }
        out
    }
}

/// The views of a name list.
pub open spec fn names_views(s: Seq<String>) -> Seq<Seq<char>> {
    Seq::new(s.len(), |i: int| s[i]@)
}

/// The database names of the fields the model has, among the first `k`, in
/// order; missing fields contribute nothing.
pub open spec fn spec_db_names_upto(columns: Seq<ColumnDef>, fields: Seq<usize>, k: int) -> Seq<
    Seq<char>,
>
    decreases k,
{
    if k <= 0 {
        Seq::empty()
    } else {
        spec_db_names_upto(columns, fields, k - 1) + (match spec_column_index(
            columns,
            fields[k - 1],
        ) {
            Some(ci) => seq![columns[ci].db_name@],
            None => Seq::empty(),
        })
    }
}

/// The database names of the fields the model has, in order.
pub open spec fn spec_db_names(columns: Seq<ColumnDef>, fields: Seq<usize>) -> Seq<Seq<char>> {
    spec_db_names_upto(columns, fields, fields.len() as int)
}

/// Metadata of one column of a result row, so the caller can decode it.
#[derive(Debug)]
pub struct ColumnMetadata {
    pub name: String,
    pub type_tag: PrismaValueType,
    pub nullable: bool,
}

/// The decode metadata of the given fields of a model, in order.
pub fn column_metadata(model: &ModelDef, fields: &Vec<usize>) -> (r: Vec<ColumnMetadata>)
    ensures
        r@.len() <= fields@.len(),
{
    let mut out: Vec<ColumnMetadata> = Vec::new();
    let mut i: usize = 0;
    while i < fields.len()
        invariant
            i <= fields@.len(),
            out@.len() <= i,
        decreases fields@.len() - i,
    {
        match model.column(fields[i]) {
            Some(c) => {
                out.push(
                    ColumnMetadata {
                        name: String::from_str(c.db_name.as_str()),
                        type_tag: c.type_tag,
                        nullable: c.nullable,
                    },
                );
            },
            None => {},
        }
        i = i + 1;
    }
    out
}

/// A many-to-many relation: its link table and the two link columns.
#[derive(Debug)]
pub struct RelationFieldDef {
    pub relation_table: String,
    pub relation_schema: Option<String>,
    pub parent_column: String,
    pub child_column: String,
}

/// One aggregation the caller selects.
#[derive(Debug)]
pub enum AggregationSelection {
    RowCount { field: Option<usize> },
    Average(usize),
    Sum(usize),
    Min(usize),
    Max(usize),
    Field(usize),
}

/// How related records are loaded.
#[derive(Clone, Copy, Debug, PartialEq, Eq, Structural)]
pub enum RelationLoadStrategy {
    /// One query with joins over the related tables.
    Join,
    /// One query per relation level.
    Query,
}

/// The read arguments of a record query.
#[derive(Debug)]
pub struct QueryArguments {
    pub filter: Option<Filter>,
    /// `(field, descending)` pairs.
    pub order_by: Vec<(usize, bool)>,
    pub take: Option<usize>,
    pub skip: Option<usize>,
}

} // verus!
