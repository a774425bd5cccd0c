//! The dialect-parametric SQL query builder: composes statements for every
//! semantic operation, chunks parameters, qualifies tables through the
//! dynamic schema, and handles MySQL insert defaults.
use vstd::prelude::*;

use crate::context::{spec_target_schema, Context};
use crate::dialect::SqlFamily;
use crate::filter::{filter_view, filters_view, lemma_filters_view, rows_view, Filter, FilterView,
    RecordFilter};
use crate::model::{
    AggregationSelection, ColumnDef, ModelDef, QueryArguments, RelationFieldDef,
    RelationLoadStrategy,
};
use crate::sql_ast::{
    spec_stmt_params, ConditionTree, DbQuery, DeleteQuery, InsertQuery, InsertValues, OnConflict,
    SelectExpr, SelectQuery, SqlStatement, TableRef, UpdateQuery,
};
use crate::values::{PrismaValueType, WriteArgs};
use crate::visitor::build_template;
use crate::default_value::DefaultKind;
use crate::values::{pairs_view, pv_view, pvs_view, row_lookup, PrismaValue, PvView, SelectionResult};

verus! {

/// Default upper bound of bind parameters per chunked query.
pub const PARAMETER_LIMIT: usize = 2000;

/// Failures of statement composition.
#[derive(Debug)]
pub enum BuildError {
    /// A filter or selection referenced a field the model does not have.
    MissingColumn { field: usize },
    /// A required input was absent (record selectors, a raw query text).
    MissingInput,
    /// The chosen relation load strategy needs a capability this builder
    /// does not provide.
    UnsupportedStrategy,
    /// The operation has no rendering for the connection's dialect.
    UnsupportedForDialect,
    /// An operation that must produce exactly one statement produced more.
    NotExactlyOne,
}

/// Whether a filter's lowering succeeds: every referenced field has a column
/// and every selector row carries the membership fields.
pub open spec fn spec_filter_ok(f: FilterView, columns: Seq<ColumnDef>) -> bool
    decreases f,
{
    match f {
        FilterView::Empty => true,
        FilterView::Equals { field, .. } => crate::model::spec_column_index(columns, field)
            is Some,
        FilterView::And(inner) => spec_filters_ok(inner, columns),
        FilterView::In { fields, rows } => spec_fields_ok(fields, columns) && spec_rows_have_fields(
            rows,
            fields,
        ),
    }
}

/// Whether every filter of the list lowers.
pub open spec fn spec_filters_ok(s: Seq<FilterView>, columns: Seq<ColumnDef>) -> bool
    decreases s,
{
    if s.len() == 0 {
        true
    } else {
        spec_filter_ok(s[0], columns) && spec_filters_ok(s.drop_first(), columns)
    }
}

/// Whether every field has a column.
pub open spec fn spec_fields_ok(fields: Seq<usize>, columns: Seq<ColumnDef>) -> bool
    decreases fields.len(),
{
    if fields.len() == 0 {
        true
    } else {
        crate::model::spec_column_index(columns, fields[0]) is Some && spec_fields_ok(
            fields.drop_first(),
            columns,
        )
    }
}

/// Whether every row carries the membership fields.
pub open spec fn spec_rows_have_fields(
    rows: Seq<Seq<(usize, PvView)>>,
    fields: Seq<usize>,
) -> bool
    decreases rows.len(),
{
    if rows.len() == 0 {
        true
    } else {
        crate::interpret::spec_row_has_fields(rows[0], fields) && spec_rows_have_fields(
            rows.drop_first(),
            fields,
        )
    }
}

/// A well-lowered list is well-lowered element by element, and back.
pub proof fn lemma_spec_filters_ok(s: Seq<FilterView>, columns: Seq<ColumnDef>)
    ensures
        spec_filters_ok(s, columns) <==> (forall|i: int|
            0 <= i < s.len() ==> spec_filter_ok(#[trigger] s[i], columns)),
    decreases s.len(),
{
    if s.len() > 0 {
        lemma_spec_filters_ok(s.drop_first(), columns);
        assert forall|i: int|
            0 <= i < s.len() && spec_filters_ok(s, columns) implies spec_filter_ok(
            #[trigger] s[i],
            columns,
        ) by {
            if i > 0 {
                assert(s.drop_first()[i - 1] == s[i]);
            }
        }
        if forall|i: int| 0 <= i < s.len() ==> spec_filter_ok(#[trigger] s[i], columns) {
            assert forall|i: int|
                0 <= i < s.drop_first().len() implies spec_filter_ok(
                #[trigger] s.drop_first()[i],
                columns,
            ) by {
                assert(s.drop_first()[i] == s[i + 1]);
            }
        }
    }
}

/// Fields are well-lowered element by element, and back.
pub proof fn lemma_spec_fields_ok(fields: Seq<usize>, columns: Seq<ColumnDef>)
    ensures
        spec_fields_ok(fields, columns) <==> (forall|j: int|
            0 <= j < fields.len() ==> crate::model::spec_column_index(
                columns,
                #[trigger] fields[j],
            ) is Some),
    decreases fields.len(),
{
    if fields.len() > 0 {
        lemma_spec_fields_ok(fields.drop_first(), columns);
        assert forall|j: int|
            0 <= j < fields.len() && spec_fields_ok(fields, columns)
            implies crate::model::spec_column_index(columns, #[trigger] fields[j]) is Some by {
            if j > 0 {
                assert(fields.drop_first()[j - 1] == fields[j]);
            }
        }
        if forall|j: int|
            0 <= j < fields.len() ==> crate::model::spec_column_index(
                columns,
                #[trigger] fields[j],
            ) is Some {
            assert forall|j: int|
                0 <= j < fields.drop_first().len() implies crate::model::spec_column_index(
                columns,
                #[trigger] fields.drop_first()[j],
            ) is Some by {
                assert(fields.drop_first()[j] == fields[j + 1]);
            }
        }
    }
}

/// Rows carry the fields element by element, and back.
pub proof fn lemma_spec_rows_have_fields(rows: Seq<Seq<(usize, PvView)>>, fields: Seq<usize>)
    ensures
        spec_rows_have_fields(rows, fields) <==> (forall|i: int|
            0 <= i < rows.len() ==> crate::interpret::spec_row_has_fields(
                #[trigger] rows[i],
                fields,
            )),
    decreases rows.len(),
{
    if rows.len() > 0 {
        lemma_spec_rows_have_fields(rows.drop_first(), fields);
        assert forall|i: int|
            0 <= i < rows.len() && spec_rows_have_fields(rows, fields)
            implies crate::interpret::spec_row_has_fields(#[trigger] rows[i], fields) by {
            if i > 0 {
                assert(rows.drop_first()[i - 1] == rows[i]);
            }
        }
        if forall|i: int|
            0 <= i < rows.len() ==> crate::interpret::spec_row_has_fields(
                #[trigger] rows[i],
                fields,
            ) {
            assert forall|i: int|
                0 <= i < rows.drop_first().len()
                implies crate::interpret::spec_row_has_fields(
                #[trigger] rows.drop_first()[i],
                fields,
            ) by {
                assert(rows.drop_first()[i] == rows[i + 1]);
            }
        }
    }
}

/// The lowering relation between a record filter and a condition tree: field
/// identifiers resolve to the model's column names, selector rows project to
/// parameter rows field by field.
pub open spec fn spec_filter_cond_rel(f: Filter, columns: Seq<ColumnDef>, c: ConditionTree) -> bool
    decreases f,
{
    match f {
        Filter::Empty => c == ConditionTree::True,
        Filter::Equals { field, value } => c matches ConditionTree::Equals {
            column,
            value: v2,
        } && v2@ == value@ && (crate::model::spec_column_index(columns, field) matches Some(k)
            && column@ == columns[k].db_name@),
        Filter::And(inner) => c matches ConditionTree::And(cs) && cs@.len() == inner@.len() && (
        forall|i: int|
            0 <= i < inner@.len() ==> spec_filter_cond_rel(
                #[trigger] inner@[i],
                columns,
                cs@[i],
            )),
        Filter::In { fields, rows } => c matches ConditionTree::InValues {
            columns: cols,
            rows: vrows,
        } && cols@.len() == fields@.len() && (forall|j: int|
            0 <= j < fields@.len() ==> (crate::model::spec_column_index(
                columns,
                #[trigger] fields@[j],
            ) matches Some(k) && cols@[j]@ == columns[k].db_name@)) && vrows@.len() == rows@.len()
            && (forall|i: int|
            0 <= i < rows@.len() ==> crate::interpret::spec_row_has_fields(
                #[trigger] rows_view(rows@)[i],
                fields@,
            )) && (forall|i: int|
            0 <= i < rows@.len() ==> #[trigger] pvs_view(vrows@[i]@) == Seq::new(
                fields@.len(),
                |j: int| row_lookup(rows_view(rows@)[i], fields@[j]).unwrap(),
            )),
    }
}

/// Lowers a record filter to a condition tree against the model's columns.
pub fn condition_from_filter(f: Filter, model: &ModelDef) -> (r: Result<ConditionTree, BuildError>)
    ensures
        r is Ok <==> spec_filter_ok(f@, model.columns@),
        r matches Ok(c) ==> spec_filter_cond_rel(f, model.columns@, c),
    decreases f,
{
    let ghost f0 = f;
    match f {
        Filter::Empty => Ok(ConditionTree::True),
        Filter::Equals { field, value } => {
            match model.column(field) {
                Some(col) => Ok(
                    ConditionTree::Equals {
                        column: String::from_str(col.db_name.as_str()),
                        value,
                    },
                ),
                None => Err(BuildError::MissingColumn { field }),
            }
        },
        Filter::And(inner) => {
            let ghost iv = inner;
            let ghost inner0 = inner@;
            let mut out: Vec<ConditionTree> = Vec::new();
            let mut items = inner;
            let mut taken: usize = 0;
            let total = items.len();
            while items.len() > 0
                invariant
                    f0 == f,
                    f0 matches Filter::And(v) && v == iv,
                    inner0 == iv@,
                    taken + items@.len() == total,
                    total == inner0.len(),
                    items@ =~= inner0.skip(taken as int),
                    out@.len() == taken,
                    forall|i: int|
                        0 <= i < taken ==> spec_filter_cond_rel(
                            #[trigger] inner0[i],
                            model.columns@,
                            out@[i],
                        ),
                    forall|i: int|
                        0 <= i < taken ==> spec_filter_ok(
                            filter_view(#[trigger] inner0[i]),
                            model.columns@,
                        ),
                decreases items@.len(),
            {
                proof {
                    assert(inner0.skip(taken as int)[0] == inner0[taken as int]);
                }
                let item = items.remove(0);
                proof {
                    assert(f0 == Filter::And(iv));
                    assert(decreases_to!(f0 => iv));
                    assert(decreases_to!(iv => iv@));
                    assert(decreases_to!(iv@ => iv@[taken as int]));
                    assert(item == iv@[taken as int]);
                    assert(decreases_to!(f0 => item));
                }
                match condition_from_filter(item, model) {
                    Ok(c) => {
                        out.push(c);
                    },
                    Err(e) => {
                        proof {
                            lemma_filters_view(iv@);
                            assert(filters_view(iv@)[taken as int] == filter_view(
                                inner0[taken as int],
                            ));
                            assert(!spec_filter_ok(
                                filters_view(iv@)[taken as int],
                                model.columns@,
                            ));
                            assert(f0@ == FilterView::And(filters_view(iv@)));
                            assert(taken < filters_view(iv@).len());
                            lemma_spec_filters_ok(filters_view(iv@), model.columns@);
                            assert(!spec_filter_ok(f0@, model.columns@));
                        }
                        return Err(e);
                    },
                }
                taken = taken + 1;
                proof {
                    assert(items@ =~= inner0.skip(taken as int));
                }
            }
            proof {
                lemma_filters_view(iv@);
                assert forall|i: int|
                    0 <= i < filters_view(iv@).len() implies spec_filter_ok(
                    #[trigger] filters_view(iv@)[i],
                    model.columns@,
                ) by {
                    assert(filters_view(iv@)[i] == filter_view(inner0[i]));
                }
                lemma_spec_filters_ok(filters_view(iv@), model.columns@);
            }
            Ok(ConditionTree::And(out))
        },
        Filter::In { fields, rows } => {
            let mut cols: Vec<String> = Vec::new();
            let mut j: usize = 0;
            while j < fields.len()
                invariant
                    f0 == f,
                    f0 matches Filter::In { fields: fv, rows: rv } && fv == fields && rv == rows,
                    j <= fields@.len(),
                    cols@.len() == j,
                    forall|k: int|
                        0 <= k < j ==> (crate::model::spec_column_index(
                            model.columns@,
                            #[trigger] fields@[k],
                        ) matches Some(ci) && cols@[k]@ == model.columns@[ci].db_name@),
                decreases fields@.len() - j,
            {
                match model.column(fields[j]) {
                    Some(col) => {
                        cols.push(String::from_str(col.db_name.as_str()));
                    },
                    None => {
                        proof {
                            assert(crate::model::spec_column_index(
                                model.columns@,
                                fields@[j as int],
                            ) is None);
                            assert(f0@ == (FilterView::In {
                                fields: fields@,
                                rows: rows_view(rows@),
                            }));
                            lemma_spec_fields_ok(fields@, model.columns@);
                            assert(!spec_filter_ok(f0@, model.columns@));
                        }
                        return Err(BuildError::MissingColumn { field: fields[j] });
                    },
                }
                j = j + 1;
            }
            let mut vrows: Vec<Vec<PrismaValue>> = Vec::new();
            let mut i: usize = 0;
            while i < rows.len()
                invariant
                    f0 == f,
                    f0 matches Filter::In { fields: fv, rows: rv } && fv == fields && rv == rows,
                    i <= rows@.len(),
                    vrows@.len() == i,
                    forall|a: int|
                        0 <= a < i ==> crate::interpret::spec_row_has_fields(
                            #[trigger] rows_view(rows@)[a],
                            fields@,
                        ),
                    forall|a: int|
                        0 <= a < i ==> #[trigger] pvs_view(vrows@[a]@) == Seq::new(
                            fields@.len(),
                            |j: int| row_lookup(rows_view(rows@)[a], fields@[j]).unwrap(),
                        ),
                decreases rows@.len() - i,
            {
                match crate::interpret::project_row(&rows[i], &fields) {
                    Ok(projected) => {
                        let vals = projected.db_values();
                        proof {
                            crate::values::lemma_pvs_view(vals@);
                            assert(rows@[i as int]@ == rows_view(rows@)[i as int]);
                            assert(crate::interpret::spec_row_has_fields(
                                rows_view(rows@)[i as int],
                                fields@,
                            ));
                            assert forall|b: int| 0 <= b < fields@.len() implies pvs_view(
                                vals@,
                            )[b] == row_lookup(
                                rows_view(rows@)[i as int],
                                fields@[b],
                            ).unwrap() by {
                                assert(projected@[b] == (
                                    fields@[b],
                                    row_lookup(rows_view(rows@)[i as int], fields@[b]).unwrap(),
                                ));
                                assert(vals@[b]@ == projected@[b].1);
                                assert(pvs_view(vals@)[b] == pv_view(vals@[b]));
                            }
                            assert(pvs_view(vals@) =~= Seq::new(
                                fields@.len(),
                                |j: int|
                                    row_lookup(rows_view(rows@)[i as int], fields@[j]).unwrap(),
                            ));
                        }
                        vrows.push(vals);
                    },
                    Err(_) => {
                        proof {
                            assert(rows@[i as int]@ == rows_view(rows@)[i as int]);
                            assert(!crate::interpret::spec_row_has_fields(
                                rows_view(rows@)[i as int],
                                fields@,
                            ));
                            assert(f0@ == (FilterView::In {
                                fields: fields@,
                                rows: rows_view(rows@),
                            }));
                            lemma_spec_rows_have_fields(rows_view(rows@), fields@);
                            assert(!spec_filter_ok(f0@, model.columns@));
                        }
                        return Err(BuildError::MissingInput);
                    },
                }
                i = i + 1;
            }
            proof {
                lemma_spec_fields_ok(fields@, model.columns@);
                lemma_spec_rows_have_fields(rows_view(rows@), fields@);
            }
            Ok(ConditionTree::InValues { columns: cols, rows: vrows })
        },
    }
}

/// The schema a model's table is qualified by: a declared origin schema is
/// resolved through the dynamic schema and falls back to itself; without one
/// the connection's default schema is used.
pub open spec fn spec_table_schema(
    dynamic: Seq<(Seq<char>, Seq<char>)>,
    default_schema: Option<Seq<char>>,
    origin: Option<Seq<char>>,
) -> Option<Seq<char>> {
    match origin {
        Some(o) => match spec_target_schema(dynamic, o) {
            Some(t) => Some(t),
            None => Some(o),
        },
        None => default_schema,
    }
}

/// Qualifies the model's table name: the origin schema resolved through the
/// dynamic schema (falling back to the origin itself), or the connection's
/// default schema.
pub fn db_name_with_schema(model: &ModelDef, ctx: &Context) -> (r: TableRef)
    ensures
        r.name@ == model.db_name@,
        match r.schema {
            Some(s) => spec_table_schema(
                ctx.dynamic_schema@,
                match ctx.connection_info.schema_name {
                    Some(d) => Some(d@),
                    None => None,
                },
                match model.origin_schema {
                    Some(o) => Some(o@),
                    None => None,
                },
            ) == Some(s@),
            None => spec_table_schema(
                ctx.dynamic_schema@,
                match ctx.connection_info.schema_name {
                    Some(d) => Some(d@),
                    None => None,
                },
                match model.origin_schema {
                    Some(o) => Some(o@),
                    None => None,
                },
            ) is None,
        },
        r.unique_index_columns@.len() == 0,
{
    let schema_prefix: Option<String> = match &model.origin_schema {
        Some(origin) => {
            match ctx.target_schema(origin) {
                Some(t) => Some(t),
                None => Some(String::from_str(origin.as_str())),
            }
        },
        None => {
            match ctx.schema_name() {
                Some(d) => Some(String::from_str(d.as_str())),
                None => None,
            }
        },
    };
    TableRef {
        schema: schema_prefix,
        name: String::from_str(model.db_name.as_str()),
        unique_index_columns: Vec::new(),
    }
}

/// The model's table with its unique index column sets attached: the primary
/// identifier's columns first, then each unique index.
pub fn as_table(model: &ModelDef, ctx: &Context) -> (r: TableRef)
    ensures
        r.name@ == model.db_name@,
        r.unique_index_columns@.len() == 1 + model.unique_indexes@.len(),
        crate::model::names_views(r.unique_index_columns@[0]@) == crate::model::spec_db_names(
            model.columns@,
            model.primary_identifier@,
        ),
        forall|k: int|
            0 <= k < model.unique_indexes@.len() ==> crate::model::names_views(
                (#[trigger] r.unique_index_columns@[k + 1])@,
            ) == crate::model::spec_db_names(model.columns@, model.unique_indexes@[k]@),
{
    let base = db_name_with_schema(model, ctx);
    let mut unique_index_columns: Vec<Vec<String>> = Vec::new();
    unique_index_columns.push(model.column_db_names(&model.primary_identifier));
    let mut i: usize = 0;
    while i < model.unique_indexes.len()
        invariant
            i <= model.unique_indexes@.len(),
            unique_index_columns@.len() == 1 + i,
            crate::model::names_views(unique_index_columns@[0]@)
                == crate::model::spec_db_names(model.columns@, model.primary_identifier@),
            forall|k: int|
                0 <= k < i ==> crate::model::names_views(
                    (#[trigger] unique_index_columns@[k + 1])@,
                ) == crate::model::spec_db_names(model.columns@, model.unique_indexes@[k]@),
        decreases model.unique_indexes@.len() - i,
    {
        unique_index_columns.push(model.column_db_names(&model.unique_indexes[i]));
        i = i + 1;
    }
    TableRef { schema: base.schema, name: base.name, unique_index_columns }
}

/// The concatenation of chunked row lists.
pub open spec fn spec_flatten_chunks(chunks: Seq<Vec<SelectionResult>>) -> Seq<SelectionResult>
    decreases chunks.len(),
{
    if chunks.len() == 0 {
        Seq::empty()
    } else {
        chunks[0]@ + spec_flatten_chunks(chunks.drop_first())
    }
}

/// Splits the records into chunks of at most `chunk_size` rows, preserving
/// order: the concatenation of the chunks is exactly the input, every chunk
/// respects the bound, and no chunk is empty.
pub fn chunk_records(records: Vec<SelectionResult>, chunk_size: usize) -> (r: Vec<
    Vec<SelectionResult>,
>)
    requires
        chunk_size >= 1,
    ensures
        spec_flatten_chunks(r@) == records@,
        forall|i: int| 0 <= i < r@.len() ==> (#[trigger] r@[i])@.len() <= chunk_size,
        forall|i: int| 0 <= i < r@.len() ==> (#[trigger] r@[i])@.len() >= 1,
        forall|i: int| 0 <= i < r@.len() - 1 ==> (#[trigger] r@[i])@.len() == chunk_size,
        records@.len() == 0 ==> r@.len() == 0,
        records@.len() >= 1 ==> r@.len() >= 1,
        records@.len() >= 1 ==> ((r@.len() - 1) * chunk_size < records@.len() && records@.len()
            <= r@.len() * chunk_size),
{
    let ghost all0 = records@;
    let mut rest = records;
    let mut out: Vec<Vec<SelectionResult>> = Vec::new();
    let mut taken: usize = 0;
    let total = rest.len();
    while rest.len() > 0
        invariant
            chunk_size >= 1,
            taken + rest@.len() == total,
            total == all0.len(),
            rest@ =~= all0.skip(taken as int),
            spec_flatten_chunks(out@) == all0.take(taken as int),
            forall|i: int| 0 <= i < out@.len() ==> (#[trigger] out@[i])@.len() <= chunk_size,
            forall|i: int| 0 <= i < out@.len() ==> (#[trigger] out@[i])@.len() >= 1,
            forall|i: int|
                0 <= i < out@.len() - 1 ==> (#[trigger] out@[i])@.len() == chunk_size,
            rest@.len() > 0 ==> (forall|i: int|
                0 <= i < out@.len() ==> (#[trigger] out@[i])@.len() == chunk_size),
            taken == 0 <==> out@.len() == 0,
            rest@.len() > 0 ==> taken == out@.len() * chunk_size,
            taken <= out@.len() * chunk_size,
            out@.len() >= 1 ==> (out@.len() - 1) * chunk_size < taken,
        decreases rest@.len(),
    {
        let mut chunk: Vec<SelectionResult> = Vec::new();
        let ghost chunk_start = taken;
        while rest.len() > 0 && chunk.len() < chunk_size
            invariant
                chunk_size >= 1,
                taken + rest@.len() == total,
                total == all0.len(),
                rest@ =~= all0.skip(taken as int),
                chunk@.len() + chunk_start == taken,
                chunk@.len() <= chunk_size,
                chunk@ =~= all0.subrange(chunk_start as int, taken as int),
            decreases rest@.len(),
        {
            proof {
                assert(all0.skip(taken as int)[0] == all0[taken as int]);
            }
            let row = rest.remove(0);
            chunk.push(row);
            taken = taken + 1;
            proof {
                assert(rest@ =~= all0.skip(taken as int));
                assert(chunk@ =~= all0.subrange(chunk_start as int, taken as int));
            }
        }
        proof {
            lemma_flatten_chunks_push(out@, chunk);
            assert(all0.take(chunk_start as int) + all0.subrange(
                chunk_start as int,
                taken as int,
            ) =~= all0.take(taken as int));
            assert((out@.len() + 1 - 1) * chunk_size == out@.len() * chunk_size
                + chunk_size - chunk_size) by (nonlinear_arith);
            assert((out@.len() + 1) * chunk_size == out@.len() * chunk_size + chunk_size)
                by (nonlinear_arith);
        }
        out.push(chunk);
    }
    proof {
        assert(all0.take(taken as int) =~= all0);
        if all0.len() >= 1 {
            assert(out@.len() >= 1);
        }
    }
    out
}

/// Appending a chunk appends its rows.
proof fn lemma_flatten_chunks_push(chunks: Seq<Vec<SelectionResult>>, c: Vec<SelectionResult>)
    ensures
        spec_flatten_chunks(chunks.push(c)) == spec_flatten_chunks(chunks) + c@,
    decreases chunks.len(),
{
    if chunks.len() == 0 {
        assert(chunks.push(c)[0] == c);
        assert(chunks.push(c).drop_first() =~= Seq::<Vec<SelectionResult>>::empty());
        assert(spec_flatten_chunks(Seq::<Vec<SelectionResult>>::empty()) =~= Seq::<
            SelectionResult,
        >::empty());
        assert(spec_flatten_chunks(chunks.push(c)) =~= c@);
        assert(spec_flatten_chunks(chunks) + c@ =~= c@);
    } else {
        assert(chunks.push(c)[0] == chunks[0]);
        assert(chunks.push(c).drop_first() =~= chunks.drop_first().push(c));
        lemma_flatten_chunks_push(chunks.drop_first(), c);
        assert(chunks[0]@ + (spec_flatten_chunks(chunks.drop_first()) + c@) =~= (chunks[0]@
            + spec_flatten_chunks(chunks.drop_first())) + c@);
    }
}

/// The rows one chunk may carry: the lesser of the parameter limit and the
/// dialect's bind limit, divided by the column count, and never below one.
pub open spec fn spec_chunk_size(columns_len: usize, max_bind_values: Option<usize>) -> int {
    let limit = match max_bind_values {
        Some(m) => if m < PARAMETER_LIMIT {
            m as int
        } else {
            PARAMETER_LIMIT as int
        },
        None => PARAMETER_LIMIT as int,
    };
    let cols = if columns_len == 0 {
        1int
    } else {
        columns_len as int
    };
    if limit / cols == 0 {
        1int
    } else {
        limit / cols
    }
}

/// The number of rows one chunk may carry so that its parameters stay within
/// the context's bind limit: the lesser of the parameter limit and the
/// dialect's limit, divided by the column count.
pub fn chunk_size_for(columns_len: usize, ctx: &Context) -> (r: usize)
    ensures
        r >= 1,
        r == spec_chunk_size(columns_len, ctx.max_bind_values),
        forall|m: usize|
            columns_len >= 1 && ctx.max_bind_values == Some(m) && m >= columns_len
                && PARAMETER_LIMIT >= columns_len ==> r * columns_len <= (if m < PARAMETER_LIMIT {
                m
            } else {
                PARAMETER_LIMIT
            }),
{
    let limit = match ctx.max_bind_values() {
        Some(m) => {
            if m < PARAMETER_LIMIT {
                m
            } else {
                PARAMETER_LIMIT
            }
        },
        None => PARAMETER_LIMIT,
    };
    let cols = if columns_len == 0 {
        1
    } else {
        columns_len
    };
    let per = limit / cols;
    if per == 0 {
        1
    } else {
        proof {
            assert(per * cols <= limit) by (nonlinear_arith)
                requires
                    per == limit / cols,
                    cols >= 1,
            ;
        }
        per
    }
}

/// Whether a single all-placeholder row is being tested, which switches the
/// membership rendering to a parameterized row per column.
pub open spec fn spec_in_placeholder_case(
    columns: Seq<String>,
    records: Seq<SelectionResult>,
) -> bool {
    records.len() == 1 && (forall|i: int|
        0 <= i < rows_view(records)[0].len() ==> (#[trigger] rows_view(records)[0][i]).1 matches
            PvView::Placeholder { .. }) && rows_view(records)[0].len() == columns.len()
}

/// The membership condition the records lower to: a parameterized-row test
/// per column for a single all-placeholder row, a literal row list otherwise.
pub open spec fn spec_in_conditions_rel(
    columns: Seq<String>,
    records: Seq<SelectionResult>,
    r: ConditionTree,
) -> bool {
    if spec_in_placeholder_case(columns, records) {
        r matches ConditionTree::And(cs) && cs@.len() == columns.len() && (forall|i: int|
            0 <= i < cs@.len() ==> ((#[trigger] cs@[i]) matches
                ConditionTree::InParameterizedRow { column, value } && column@ == columns[i]@
                && value@ == rows_view(records)[0][i].1))
    } else {
        r matches ConditionTree::InValues { columns: cols, rows } && cols@.len() == columns.len()
            && (forall|i: int| 0 <= i < cols@.len() ==> (#[trigger] cols@[i])@ == columns[i]@)
            && rows@.len() == records.len() && (forall|i: int|
            0 <= i < rows@.len() ==> pvs_view(#[trigger] rows@[i]@) == Seq::new(
                rows_view(records)[i].len(),
                |j: int| rows_view(records)[i][j].1,
            ))
    }
}

/// One membership condition over the given columns: a single all-placeholder
/// row becomes a parameterized-row membership test per column, conjoined;
/// anything else becomes a literal row-list membership test.
pub fn in_conditions(columns: &Vec<String>, records: &Vec<SelectionResult>) -> (r: ConditionTree)
    ensures
        spec_in_conditions_rel(columns@, records@, r),
{
    proof {
        assert(records@.len() >= 1 ==> rows_view(records@)[0] == records@[0]@);
    }
    if records.len() == 1 && records[0].all_placeholders() && records[0].pairs.len()
        == columns.len() {
        let row = &records[0];
        let mut cs: Vec<ConditionTree> = Vec::new();
        let mut i: usize = 0;
        while i < columns.len()
            invariant
                i <= columns@.len(),
                cs@.len() == i,
                row == &records@[0],
                records@.len() == 1,
                row.pairs@.len() == columns@.len(),
                forall|k: int|
                    0 <= k < i ==> ((#[trigger] cs@[k]) matches
                        ConditionTree::InParameterizedRow { column, value } && column@
                        == columns@[k]@ && value@ == records@[0]@[k].1),
            decreases columns@.len() - i,
        {
            let v = row.pairs[i].1.clone();
            cs.push(
                ConditionTree::InParameterizedRow {
                    column: String::from_str(columns[i].as_str()),
                    value: v,
                },
            );
            i = i + 1;
        }
        proof {
            assert(rows_view(records@)[0] == records@[0]@);
        }
        ConditionTree::And(cs)
    } else {
        let mut cols: Vec<String> = Vec::new();
        let mut i: usize = 0;
        while i < columns.len()
            invariant
                i <= columns@.len(),
                cols@.len() == i,
                forall|k: int| 0 <= k < i ==> (#[trigger] cols@[k])@ == columns@[k]@,
            decreases columns@.len() - i,
        {
            cols.push(String::from_str(columns[i].as_str()));
            i = i + 1;
        }
        let mut rows: Vec<Vec<PrismaValue>> = Vec::new();
        let mut k: usize = 0;
        while k < records.len()
            invariant
                k <= records@.len(),
                rows@.len() == k,
                forall|a: int|
                    0 <= a < k ==> pvs_view(#[trigger] rows@[a]@) == Seq::new(
                        records@[a]@.len(),
                        |j: int| records@[a]@[j].1,
                    ),
            decreases records@.len() - k,
        {
            let vals = records[k].db_values();
            proof {
                crate::values::lemma_pvs_view(vals@);
                assert forall|j: int| 0 <= j < vals@.len() implies pvs_view(vals@)[j]
                    == records@[k as int]@[j].1 by {
                    assert(vals@[j]@ == records@[k as int]@[j].1);
                    assert(pvs_view(vals@)[j] == pv_view(vals@[j]));
                }
                assert(pvs_view(vals@) =~= Seq::new(
                    records@[k as int]@.len(),
                    |j: int| records@[k as int]@[j].1,
                ));
            }
            rows.push(vals);
            k = k + 1;
        }
        proof {
            assert forall|a: int| 0 <= a < records@.len() implies rows_view(records@)[a]
                == records@[a]@ by {}
        }
        ConditionTree::InValues { columns: cols, rows }
    }
}

/// Splits the records into bind-limit-sized chunks and emits one membership
/// condition per chunk: the chunks concatenate back to the records, every
/// chunk stays within the bind limit, and each emitted condition is the
/// membership test of its chunk.
pub fn chunked_conditions(
    columns: &Vec<String>,
    records: Vec<SelectionResult>,
    ctx: &Context,
) -> (r: Vec<ConditionTree>)
    ensures
        records@.len() == 0 ==> r@.len() == 0,
        records@.len() >= 1 ==> ((r@.len() - 1) * spec_chunk_size(
            columns@.len() as usize,
            ctx.max_bind_values,
        ) < records@.len() && records@.len() <= r@.len() * spec_chunk_size(
            columns@.len() as usize,
            ctx.max_bind_values,
        )),
        exists|chunks: Seq<Vec<SelectionResult>>|
            {
                &&& spec_flatten_chunks(chunks) == records@
                &&& chunks.len() == r@.len()
                &&& (forall|i: int|
                    0 <= i < chunks.len() ==> (#[trigger] chunks[i])@.len() <= spec_chunk_size(
                        columns@.len() as usize,
                        ctx.max_bind_values,
                    ))
                &&& (forall|i: int|
                    0 <= i < chunks.len() ==> spec_in_conditions_rel(
                        columns@,
                        (#[trigger] chunks[i])@,
                        r@[i],
                    ))
            },
{
    let per = chunk_size_for(columns.len(), ctx);
    let chunks = chunk_records(records, per);
    let ghost chunks0 = chunks@;
    let mut out: Vec<ConditionTree> = Vec::new();
    let mut i: usize = 0;
    while i < chunks.len()
        invariant
            chunks@ == chunks0,
            i <= chunks@.len(),
            out@.len() == i,
            forall|k: int|
                0 <= k < i ==> spec_in_conditions_rel(
                    columns@,
                    (#[trigger] chunks0[k])@,
                    out@[k],
                ),
        decreases chunks@.len() - i,
    {
        out.push(in_conditions(columns, &chunks[i]));
        i = i + 1;
    }
    proof {
        assert(spec_flatten_chunks(chunks0) == records@);
    }
    out
}

/// The fields of an argument list, in order.
pub open spec fn spec_args_fields(a: Seq<(usize, PvView)>) -> Seq<usize> {
    Seq::new(a.len(), |i: int| a[i].0)
}

/// The result of `row_lookup` names an entry of the row.
pub proof fn lemma_row_lookup_exists(row: Seq<(usize, PvView)>, f: usize)
    requires
        row_lookup(row, f) is Some,
    ensures
        exists|j: int|
            0 <= j < row.len() && (#[trigger] row[j]).0 == f && row[j].1 == row_lookup(
                row,
                f,
            ).unwrap(),
    decreases row.len(),
{
    if row.len() > 0 {
        if row[0].0 == f {
            assert(row[0].0 == f && row[0].1 == row_lookup(row, f).unwrap());
        } else {
            lemma_row_lookup_exists(row.drop_first(), f);
            let j = choose|j: int|
                0 <= j < row.drop_first().len() && (#[trigger] row.drop_first()[j]).0 == f
                    && row.drop_first()[j].1 == row_lookup(row.drop_first(), f).unwrap();
            assert(row[j + 1].0 == f && row[j + 1].1 == row_lookup(row, f).unwrap());
        }
    }
}

/// The assignment list a write-argument record lowers to: one `(column,
/// value)` pair per argument, in order, with the model's column names.
#[verifier::spinoff_prover]
pub fn sets_from_args(args: WriteArgs, model: &ModelDef) -> (r: Result<
    Vec<(String, PrismaValue)>,
    BuildError,
>)
    ensures
        r is Ok <==> spec_fields_ok(spec_args_fields(args@), model.columns@),
        r matches Ok(sets) ==> sets@.len() == args.args@.len() && (forall|i: int|
            0 <= i < sets@.len() ==> (#[trigger] sets@[i]).1 == args.args@[i].1 && (
            crate::model::spec_column_index(model.columns@, args.args@[i].0) matches Some(k)
                && sets@[i].0@ == model.columns@[k].db_name@)),
{
    let ghost args0 = args.args@;
    let mut out: Vec<(String, PrismaValue)> = Vec::new();
    let mut items = args.args;
    let mut taken: usize = 0;
    let total = items.len();
    while items.len() > 0
        invariant
            args0 == args.args@,
            taken + items@.len() == total,
            total == args0.len(),
            items@ =~= args0.skip(taken as int),
            out@.len() == taken,
            forall|i: int|
                0 <= i < taken ==> (#[trigger] out@[i]).1 == args0[i].1 && (
                crate::model::spec_column_index(model.columns@, args0[i].0) matches Some(k)
                    && out@[i].0@ == model.columns@[k].db_name@),
        decreases items@.len(),
    {
        proof {
            assert(args0.skip(taken as int)[0] == args0[taken as int]);
        }
        let (field, value) = items.remove(0);
        match model.column(field) {
            Some(col) => {
                out.push((String::from_str(col.db_name.as_str()), value));
            },
            None => {
                proof {
                    assert(args@[taken as int] == (args.args@[taken as int].0, crate::values::pv_view(
                        args.args@[taken as int].1,
                    )));
                    assert(spec_args_fields(args@)[taken as int] == args0[taken as int].0);
                    assert(spec_args_fields(args@)[taken as int] == field);
                    lemma_spec_fields_ok(spec_args_fields(args@), model.columns@);
                }
                return Err(BuildError::MissingColumn { field });
            },
        }
        taken = taken + 1;
        proof {
            assert(items@ =~= args0.skip(taken as int));
        }
    }
    proof {
        assert forall|j: int|
            0 <= j < spec_args_fields(args@).len() implies crate::model::spec_column_index(
            model.columns@,
            #[trigger] spec_args_fields(args@)[j],
        ) is Some by {
            assert(args@[j] == (args.args@[j].0, crate::values::pv_view(args.args@[j].1)));
            assert(spec_args_fields(args@)[j] == args0[j].0);
            assert(out@[j] == out@[j]);
        }
        lemma_spec_fields_ok(spec_args_fields(args@), model.columns@);
    }
    Ok(out)
}

/// A create-record plan: an optional companion query that materializes
/// MySQL defaults before the insert, the insert itself, the auto-increment
/// field the interpreter merges back, and any identifier values the caller
/// already supplied.
#[derive(Debug)]
pub struct CreateRecord {
    pub select_defaults: Option<CreateRecordDefaultsQuery>,
    pub insert_query: DbQuery,
    pub last_insert_id_field: Option<usize>,
    pub merge_values: Vec<(usize, PrismaValue)>,
}

/// The companion select that materializes default expressions, and the named
/// placeholders it binds them to.
#[derive(Debug)]
pub struct CreateRecordDefaultsQuery {
    pub query: DbQuery,
    /// `(field, placeholder name)` pairs.
    pub field_placeholders: Vec<(usize, String)>,
}

/// Whether a primary-identifier field needs its default materialized before
/// an insert: its column's default is a generator expression other than
/// autoincrement, and the write arguments do not already set the field.
pub open spec fn spec_needs_default(
    columns: Seq<ColumnDef>,
    args: Seq<(usize, PvView)>,
    f: usize,
) -> bool {
    &&& crate::model::spec_column_index(columns, f) matches Some(k)
    &&& columns[crate::model::spec_column_index(columns, f).unwrap()].default matches Some(dv)
    &&& dv.kind matches DefaultKind::Expression(g)
    &&& !(g.name@ == "autoincrement"@ || g.name@ == "sequence"@)
    &&& row_lookup(args, f) is None
}

/// The primary-identifier fields among the first `k` that need their default
/// materialized, in declaration order.
pub open spec fn spec_default_fields_upto(
    columns: Seq<ColumnDef>,
    args: Seq<(usize, PvView)>,
    pk: Seq<usize>,
    k: int,
) -> Seq<usize>
    decreases k,
{
    if k <= 0 {
        Seq::empty()
    } else {
        spec_default_fields_upto(columns, args, pk, k - 1) + (if spec_needs_default(
            columns,
            args,
            pk[k - 1],
        ) {
            seq![pk[k - 1]]
        } else {
            Seq::empty()
        })
    }
}

/// All primary-identifier fields that need their default materialized.
pub open spec fn spec_default_fields(
    columns: Seq<ColumnDef>,
    args: Seq<(usize, PvView)>,
    pk: Seq<usize>,
) -> Seq<usize> {
    spec_default_fields_upto(columns, args, pk, pk.len() as int)
}

/// Whether one aggregation selection's field has a column.
pub open spec fn spec_selection_ok(sel: AggregationSelection, columns: Seq<ColumnDef>) -> bool {
    match sel {
        AggregationSelection::RowCount { field } => match field {
            Some(f) => crate::model::spec_column_index(columns, f) is Some,
            None => true,
        },
        AggregationSelection::Average(f) => crate::model::spec_column_index(columns, f) is Some,
        AggregationSelection::Sum(f) => crate::model::spec_column_index(columns, f) is Some,
        AggregationSelection::Min(f) => crate::model::spec_column_index(columns, f) is Some,
        AggregationSelection::Max(f) => crate::model::spec_column_index(columns, f) is Some,
        AggregationSelection::Field(f) => crate::model::spec_column_index(columns, f) is Some,
    }
}

/// Whether a field's column declares an `autoincrement()` default.
pub open spec fn spec_autoincrement_column(columns: Seq<ColumnDef>, f: usize) -> bool {
    &&& crate::model::spec_column_index(columns, f) matches Some(k)
    &&& columns[crate::model::spec_column_index(columns, f).unwrap()].default matches Some(dv)
    &&& dv.kind matches crate::default_value::DefaultKind::Expression(g)
    &&& g.name@ == "autoincrement"@
}

/// The dialect-parametric query builder.
#[derive(Debug)]
pub struct SqlQueryBuilder {
    pub context: Context,
}

impl SqlQueryBuilder {
    /// A builder over the given compilation context.
    pub fn new(context: Context) -> (r: Self)
        ensures
            r.context == context,
    {
        SqlQueryBuilder { context }
    }

    /// Lowers one statement through the dialect visitor into a template
    /// query: the parameters are exactly the statement's parameters in
    /// rendering order.
    pub fn convert_query(&self, stmt: SqlStatement) -> (r: DbQuery)
        ensures
            r matches DbQuery::TemplateSql { fragments, placeholder_format, params } && params@
                == spec_stmt_params(stmt) && crate::sql_ast::spec_param_count(fragments@)
                == params@.len(),
    {
        let template = build_template(stmt, self.context.sql_family());
        DbQuery::TemplateSql {
            fragments: template.fragments,
            placeholder_format: template.placeholder_format,
            params: template.parameters,
        }
    }

    /// Builds the read of a model's records: select the requested columns
    /// with the filter, ordering and pagination applied. The join strategy
    /// needs relation metadata this builder does not carry and is refused.
    pub fn build_get_records(
        &self,
        model: &ModelDef,
        query_arguments: QueryArguments,
        selected_fields: &Vec<usize>,
        relation_load_strategy: RelationLoadStrategy,
    ) -> (r: Result<DbQuery, BuildError>)
        ensures
            relation_load_strategy == RelationLoadStrategy::Join ==> (r matches Err(e) && e
                matches BuildError::UnsupportedStrategy),
            r is Ok <==> (relation_load_strategy == RelationLoadStrategy::Query && (match
                query_arguments.filter {
                Some(f0) => spec_filter_ok(f0@, model.columns@),
                None => true,
            }) && spec_fields_ok(
                Seq::new(query_arguments.order_by@.len(), |i: int| query_arguments.order_by@[i].0),
                model.columns@,
            )),
            r matches Ok(q) ==> q matches DbQuery::TemplateSql { .. },
    {
        let ghost order_fields = Seq::new(
            query_arguments.order_by@.len(),
            |i: int| query_arguments.order_by@[i].0,
        );
        if matches!(relation_load_strategy, RelationLoadStrategy::Join) {
            return Err(BuildError::UnsupportedStrategy);
        }
        let table = as_table(model, &self.context);
        let mut columns: Vec<SelectExpr> = Vec::new();
        let names = model.column_db_names(selected_fields);
        let mut i: usize = 0;
        while i < names.len()
            decreases names@.len() - i,
        {
            columns.push(SelectExpr::Column { name: String::from_str(names[i].as_str()), alias: None });
            i = i + 1;
        }
        let ghost filter0 = query_arguments.filter;
        let condition = match query_arguments.filter {
            Some(f) => {
                match condition_from_filter(f, model) {
                    Ok(c) => Some(c),
                    Err(e) => {
                        return Err(e);
                    },
                }
            },
            None => None,
        };
        let mut order_by: Vec<(String, bool)> = Vec::new();
        let mut j: usize = 0;
        while j < query_arguments.order_by.len()
            invariant
                relation_load_strategy != RelationLoadStrategy::Join,
                order_fields == Seq::new(
                    query_arguments.order_by@.len(),
                    |i: int| query_arguments.order_by@[i].0,
                ),
                j <= query_arguments.order_by@.len(),
                match filter0 {
                    Some(f0) => spec_filter_ok(f0@, model.columns@),
                    None => true,
                },
                filter0 == query_arguments.filter,
                forall|k: int|
                    0 <= k < j ==> crate::model::spec_column_index(
                        model.columns@,
                        #[trigger] order_fields[k],
                    ) is Some,
            decreases query_arguments.order_by@.len() - j,
        {
            let (field, desc) = query_arguments.order_by[j];
            match model.column(field) {
                Some(col) => {
                    order_by.push((String::from_str(col.db_name.as_str()), desc));
                },
                None => {
                    proof {
                        assert(order_fields[j as int] == field);
                        lemma_spec_fields_ok(order_fields, model.columns@);
                    }
                    return Err(BuildError::MissingColumn { field });
                },
            }
            j = j + 1;
        }
        proof {
            lemma_spec_fields_ok(order_fields, model.columns@);
        }
        let stmt = SqlStatement::Select(
            SelectQuery {
                table,
                table_alias: None,
                joins: Vec::new(),
                columns,
                condition,
                group_by: Vec::new(),
                having: None,
                order_by,
                limit: query_arguments.take,
                offset: query_arguments.skip,
            },
        );
        Ok(self.convert_query(stmt))
    }

    /// Builds the read of the records related through a link table: the link
    /// table joined to the related table, each under a fresh alias, with the
    /// requested columns of the related table selected. Issues exactly two
    /// aliases from the context.
    pub fn build_get_related_records(
        &mut self,
        linkage: RelationFieldDef,
        related_model: &ModelDef,
        query_arguments: QueryArguments,
        selected_fields: &Vec<usize>,
    ) -> (r: Result<DbQuery, BuildError>)
        requires
            old(self).context.alias_counter + 2 <= usize::MAX,
        ensures
            final(self).context.alias_counter == old(self).context.alias_counter + 2,
            r is Ok <==> (match query_arguments.filter {
                Some(f0) => spec_filter_ok(f0@, related_model.columns@),
                None => true,
            }),
            r matches Ok(q) ==> q matches DbQuery::TemplateSql { .. },
    {
        let m2m_alias = self.context.next_table_alias();
        let related_alias = self.context.next_table_alias();
        let m2m_name = match m2m_alias {
            crate::context::Alias::Table(n) => n,
            crate::context::Alias::Join(n) => n,
        };
        let related_name = match related_alias {
            crate::context::Alias::Table(n) => n,
            crate::context::Alias::Join(n) => n,
        };
        let mut m2m_alias_text = String::from_str("t");
        m2m_alias_text.append(crate::values::usize_to_decimal(m2m_name).as_str());
        let mut related_alias_text = String::from_str("t");
        related_alias_text.append(crate::values::usize_to_decimal(related_name).as_str());
        let m2m_table = TableRef {
            schema: match &linkage.relation_schema {
                Some(s) => Some(String::from_str(s.as_str())),
                None => None,
            },
            name: String::from_str(linkage.relation_table.as_str()),
            unique_index_columns: Vec::new(),
        };
        let related_table = db_name_with_schema(related_model, &self.context);
        let mut columns: Vec<SelectExpr> = Vec::new();
        let names = related_model.column_db_names(selected_fields);
        let mut i: usize = 0;
        while i < names.len()
            decreases names@.len() - i,
        {
            columns.push(SelectExpr::Column { name: String::from_str(names[i].as_str()), alias: None });
            i = i + 1;
        }
        columns.push(
            SelectExpr::Column {
                name: String::from_str(linkage.child_column.as_str()),
                alias: Some(String::from_str("link")),
            },
        );
        let condition = match query_arguments.filter {
            Some(f) => {
                match condition_from_filter(f, related_model) {
                    Ok(c) => Some(c),
                    Err(e) => {
                        return Err(e);
                    },
                }
            },
            None => None,
        };
        let join = crate::sql_ast::Join {
            table: related_table,
            alias: Some(related_alias_text),
            on_left: String::from_str(linkage.parent_column.as_str()),
            on_right: String::from_str(linkage.child_column.as_str()),
        };
        let mut joins: Vec<crate::sql_ast::Join> = Vec::new();
        joins.push(join);
        let stmt = SqlStatement::Select(
            SelectQuery {
                table: m2m_table,
                table_alias: Some(m2m_alias_text),
                joins,
                columns,
                condition,
                group_by: Vec::new(),
                having: None,
                order_by: Vec::new(),
                limit: query_arguments.take,
                offset: query_arguments.skip,
            },
        );
        Ok(self.convert_query(stmt))
    }

    /// Builds an aggregation read: plain aggregates over the whole selection,
    /// or a grouped aggregation with an optional having filter; selection
    /// aliases use the database column name in both shapes.
    pub fn build_aggregate(
        &self,
        model: &ModelDef,
        args: QueryArguments,
        selections: &Vec<AggregationSelection>,
        group_by: &Vec<usize>,
        having: Option<Filter>,
    ) -> (r: Result<DbQuery, BuildError>)
        ensures
            r is Ok <==> ((forall|i: int|
                0 <= i < selections@.len() ==> spec_selection_ok(
                    #[trigger] selections@[i],
                    model.columns@,
                )) && (match having {
                Some(h0) => spec_filter_ok(h0@, model.columns@),
                None => true,
            }) && (match args.filter {
                Some(f0) => spec_filter_ok(f0@, model.columns@),
                None => true,
            })),
            r matches Ok(q) ==> q matches DbQuery::TemplateSql { .. },
    {
        let table = as_table(model, &self.context);
        let mut columns: Vec<SelectExpr> = Vec::new();
        let mut i: usize = 0;
        while i < selections.len()
            invariant
                i <= selections@.len(),
                forall|k: int|
                    0 <= k < i ==> spec_selection_ok(#[trigger] selections@[k], model.columns@),
            decreases selections@.len() - i,
        {
            let expr = match &selections[i] {
                AggregationSelection::RowCount { field } => {
                    match field {
                        Some(f) => {
                            match model.column(*f) {
                                Some(col) => SelectExpr::RowCount {
                                    column: Some(String::from_str(col.db_name.as_str())),
                                    alias: Some(String::from_str(col.db_name.as_str())),
                                },
                                None => {
                                    return Err(BuildError::MissingColumn { field: *f });
                                },
                            }
                        },
                        None => SelectExpr::RowCount { column: None, alias: None },
                    }
                },
                AggregationSelection::Average(f) => {
                    match model.column(*f) {
                        Some(col) => SelectExpr::Average {
                            column: String::from_str(col.db_name.as_str()),
                            alias: Some(String::from_str(col.db_name.as_str())),
                        },
                        None => {
                            return Err(BuildError::MissingColumn { field: *f });
                        },
                    }
                },
                AggregationSelection::Sum(f) => {
                    match model.column(*f) {
                        Some(col) => SelectExpr::Sum {
                            column: String::from_str(col.db_name.as_str()),
                            alias: Some(String::from_str(col.db_name.as_str())),
                        },
                        None => {
                            return Err(BuildError::MissingColumn { field: *f });
                        },
                    }
                },
                AggregationSelection::Min(f) => {
                    match model.column(*f) {
                        Some(col) => SelectExpr::Min {
                            column: String::from_str(col.db_name.as_str()),
                            alias: Some(String::from_str(col.db_name.as_str())),
                        },
                        None => {
                            return Err(BuildError::MissingColumn { field: *f });
                        },
                    }
                },
                AggregationSelection::Max(f) => {
                    match model.column(*f) {
                        Some(col) => SelectExpr::Max {
                            column: String::from_str(col.db_name.as_str()),
                            alias: Some(String::from_str(col.db_name.as_str())),
                        },
                        None => {
                            return Err(BuildError::MissingColumn { field: *f });
                        },
                    }
                },
                AggregationSelection::Field(f) => {
                    match model.column(*f) {
                        Some(col) => SelectExpr::Column {
                            name: String::from_str(col.db_name.as_str()),
                            alias: Some(String::from_str(col.db_name.as_str())),
                        },
                        None => {
                            return Err(BuildError::MissingColumn { field: *f });
                        },
                    }
                },
            };
            columns.push(expr);
            i = i + 1;
        }
        let group_names = model.column_db_names(group_by);
        let having_cond = match having {
            Some(h) => {
                match condition_from_filter(h, model) {
                    Ok(c) => Some(c),
                    Err(e) => {
                        return Err(e);
                    },
                }
            },
            None => None,
        };
        let condition = match args.filter {
            Some(f) => {
                match condition_from_filter(f, model) {
                    Ok(c) => Some(c),
                    Err(e) => {
                        return Err(e);
                    },
                }
            },
            None => None,
        };
        let use_grouping = group_names.len() > 0;
        let stmt = SqlStatement::Select(
            SelectQuery {
                table,
                table_alias: None,
                joins: Vec::new(),
                columns,
                condition,
                group_by: if use_grouping {
                    group_names
                } else {
                    Vec::new()
                },
                having: if use_grouping {
                    having_cond
                } else {
                    None
                },
                order_by: Vec::new(),
                limit: args.take,
                offset: args.skip,
            },
        );
        Ok(self.convert_query(stmt))
    }
}

/// An upsert for one field leaves the lookup of every other field unchanged.
proof fn lemma_upsert_preserves_lookup(s: Seq<(usize, PvView)>, f2: usize, v: PvView, f: usize)
    requires
        f != f2,
    ensures
        row_lookup(crate::interpret::spec_upsert(s, f2, v), f) == row_lookup(s, f),
    decreases s.len(),
{
    if s.len() == 0 {
        assert(crate::interpret::spec_upsert(s, f2, v) =~= seq![(f2, v)]);
        assert(seq![(f2, v)].drop_first() =~= Seq::<(usize, PvView)>::empty());
        assert(row_lookup(Seq::<(usize, PvView)>::empty(), f) is None);
    } else if s[0].0 == f2 {
        assert(crate::interpret::spec_upsert(s, f2, v) =~= seq![(f2, v)] + s.drop_first());
        assert((seq![(f2, v)] + s.drop_first()).drop_first() =~= s.drop_first());
    } else {
        lemma_upsert_preserves_lookup(s.drop_first(), f2, v, f);
        assert(crate::interpret::spec_upsert(s, f2, v) =~= seq![s[0]] + crate::interpret::spec_upsert(
            s.drop_first(),
            f2,
            v,
        ));
        assert((seq![s[0]] + crate::interpret::spec_upsert(s.drop_first(), f2, v)).drop_first()
            =~= crate::interpret::spec_upsert(s.drop_first(), f2, v));
    }
}

/// An upsert binds its own field to its value.
proof fn lemma_upsert_lookup_self(s: Seq<(usize, PvView)>, f: usize, v: PvView)
    ensures
        row_lookup(crate::interpret::spec_upsert(s, f, v), f) == Some(v),
    decreases s.len(),
{
    if s.len() == 0 {
        assert(crate::interpret::spec_upsert(s, f, v) =~= seq![(f, v)]);
    } else if s[0].0 == f {
        assert(crate::interpret::spec_upsert(s, f, v) =~= seq![(f, v)] + s.drop_first());
    } else {
        lemma_upsert_lookup_self(s.drop_first(), f, v);
        assert(crate::interpret::spec_upsert(s, f, v) =~= seq![s[0]] + crate::interpret::spec_upsert(
            s.drop_first(),
            f,
            v,
        ));
        assert((seq![s[0]] + crate::interpret::spec_upsert(s.drop_first(), f, v)).drop_first()
            =~= crate::interpret::spec_upsert(s.drop_first(), f, v));
    }
}

/// The fields needing defaults are drawn from the identifier in order; with
/// a duplicate-free identifier they are duplicate-free, and each satisfies
/// the need-a-default condition.
proof fn lemma_default_fields_upto(
    columns: Seq<ColumnDef>,
    args: Seq<(usize, PvView)>,
    pk: Seq<usize>,
    k: int,
)
    requires
        k <= pk.len(),
        forall|a: int, b: int| 0 <= a < b < pk.len() ==> pk[a] != pk[b],
    ensures
        forall|a: int|
            0 <= a < spec_default_fields_upto(columns, args, pk, k).len() ==> spec_needs_default(
                columns,
                args,
                #[trigger] spec_default_fields_upto(columns, args, pk, k)[a],
            ),
        forall|a: int|
            0 <= a < spec_default_fields_upto(columns, args, pk, k).len() ==> (exists|b: int|
                0 <= b < k && pk[b] == #[trigger] spec_default_fields_upto(columns, args, pk, k)[a]),
        forall|a1: int, a2: int|
            0 <= a1 < a2 < spec_default_fields_upto(columns, args, pk, k).len()
                ==> spec_default_fields_upto(columns, args, pk, k)[a1]
                != spec_default_fields_upto(columns, args, pk, k)[a2],
    decreases k,
{
    if k > 0 {
        lemma_default_fields_upto(columns, args, pk, k - 1);
        let prev = spec_default_fields_upto(columns, args, pk, k - 1);
        let cur = spec_default_fields_upto(columns, args, pk, k);
        assert forall|a: int| 0 <= a < cur.len() implies spec_needs_default(
            columns,
            args,
            #[trigger] cur[a],
        ) && (exists|b: int| 0 <= b < k && pk[b] == cur[a]) by {
            if a < prev.len() {
                assert(cur[a] == prev[a]);
                let b0 = choose|b: int| 0 <= b < k - 1 && pk[b] == prev[a];
                assert(0 <= b0 < k && pk[b0] == cur[a]);
            } else {
                assert(cur[a] == pk[k - 1]);
                assert(0 <= k - 1 < k && pk[k - 1] == cur[a]);
            }
        }
        assert forall|a1: int, a2: int| 0 <= a1 < a2 < cur.len() implies cur[a1] != cur[a2] by {
            if a2 < prev.len() {
                assert(cur[a1] == prev[a1] && cur[a2] == prev[a2]);
            } else {
                assert(cur[a1] == prev[a1] && cur[a2] == pk[k - 1]);
                let b0 = choose|b: int| 0 <= b < k - 1 && pk[b] == prev[a1];
                assert(pk[b0] != pk[k - 1]);
            }
        }
    }
}

impl SqlQueryBuilder {
    /// Builds the plan of a single-record insert. On MySQL, the primary
    /// identifier's generator defaults are materialized by a companion
    /// select: each such field is re-injected into the insert's arguments as
    /// a named placeholder, so the placeholders appear among the insert's
    /// parameters; the auto-increment identifier field, if any, is recorded
    /// so the inserted id can be merged back. On every other dialect the
    /// companion pieces stay empty.
    #[verifier::rlimit(60)]
    pub fn build_create_record(
        &self,
        model: &ModelDef,
        args: WriteArgs,
        selected_fields: &Vec<usize>,
    ) -> (r: Result<CreateRecord, BuildError>)
        requires
            forall|a: int, b: int|
                0 <= a < b < model.primary_identifier@.len() ==> model.primary_identifier@[a]
                    != model.primary_identifier@[b],
        ensures
            self.context.connection_info.family != SqlFamily::Mysql ==> (r matches Ok(cr) ==> (
            cr.select_defaults is None && cr.last_insert_id_field is None && cr.merge_values@.len()
                == 0)),
            self.context.connection_info.family == SqlFamily::Mysql ==> (r matches Ok(cr) ==> (
            cr.select_defaults is Some <==> spec_default_fields(
                model.columns@,
                pairs_view(args.args@),
                model.primary_identifier@,
            ).len() > 0)),
            self.context.connection_info.family == SqlFamily::Mysql ==> (r matches Ok(cr) ==> (
            cr.select_defaults matches Some(d) ==> d.field_placeholders@.len()
                == spec_default_fields(
                model.columns@,
                pairs_view(args.args@),
                model.primary_identifier@,
            ).len() && (forall|k: int|
                0 <= k < d.field_placeholders@.len() ==> (#[trigger] d.field_placeholders@[k]).0
                    == spec_default_fields(
                    model.columns@,
                    pairs_view(args.args@),
                    model.primary_identifier@,
                )[k]))),
            r matches Err(e) ==> (e matches BuildError::MissingColumn { field }
                && crate::model::spec_column_index(model.columns@, field) is None),
            self.context.connection_info.family == SqlFamily::Mysql ==> (r matches Ok(cr) ==> (
            forall|k: int|
                0 <= k < cr.merge_values@.len() ==> model.primary_identifier@.contains(
                    (#[trigger] cr.merge_values@[k]).0,
                ))),
            self.context.connection_info.family == SqlFamily::Mysql ==> (r matches Ok(cr) ==> (
            cr.last_insert_id_field matches Some(f) ==> (model.primary_identifier@.contains(f)
                && spec_autoincrement_column(model.columns@, f)))),
            self.context.connection_info.family == SqlFamily::Mysql ==> (r matches Ok(cr) ==> (
            cr.last_insert_id_field is None ==> (forall|k: int|
                0 <= k < model.primary_identifier@.len() ==> !spec_autoincrement_column(
                    model.columns@,
                    #[trigger] model.primary_identifier@[k],
                )))),
            r matches Ok(cr) ==> (cr.insert_query matches DbQuery::TemplateSql { .. } && (
            cr.select_defaults matches Some(d) ==> (forall|k: int|
                0 <= k < d.field_placeholders@.len() ==> spec_has_placeholder(
                    create_record_params(cr),
                    (#[trigger] d.field_placeholders@[k]).1@,
                )))),
    {
        let ghost args_v0 = pairs_view(args.args@);
        let ghost pk = model.primary_identifier@;
        let ghost dft = spec_default_fields(model.columns@, args_v0, pk);
        let family = self.context.sql_family();
        let is_mysql = family.is_mysql();
        let mut args2 = args;

        let mut default_fields: Vec<usize> = Vec::new();
        if is_mysql {
            let mut i: usize = 0;
            while i < model.primary_identifier.len()
                invariant
                    i <= model.primary_identifier@.len(),
                    pk == model.primary_identifier@,
                    args_v0 == pairs_view(args2.args@),
                    default_fields@ == spec_default_fields_upto(
                        model.columns@,
                        args_v0,
                        pk,
                        i as int,
                    ),
                decreases model.primary_identifier@.len() - i,
            {
                let f = model.primary_identifier[i];
                let needs = match model.column(f) {
                    Some(col) => match &col.default {
                        Some(dv) => match &dv.kind {
                            DefaultKind::Expression(g) => {
                                if g.is_autoincrement() {
                                    false
                                } else {
                                    match args2.lookup(f) {
                                        Some(_) => false,
                                        None => true,
                                    }
                                }
                            },
                            _ => false,
                        },
                        None => false,
                    },
                    None => false,
                };
                if needs {
                    default_fields.push(f);
                }
                i = i + 1;
            }
        }
        proof {
            if is_mysql {
                assert(default_fields@ == dft);
            }
        }

        let select_defaults: Option<CreateRecordDefaultsQuery> = if is_mysql
            && default_fields.len() > 0 {
            proof {
                lemma_default_fields_upto(model.columns@, args_v0, pk, pk.len() as int);
            }
            let mut field_placeholders: Vec<(usize, String)> = Vec::new();
            let mut exprs: Vec<SelectExpr> = Vec::new();
            let mut k: usize = 0;
            while k < default_fields.len()
                invariant
                    k <= default_fields@.len(),
                    default_fields@ == dft,
                    field_placeholders@.len() == k,
                    exprs@.len() == k,
                    forall|a: int, b: int| 0 <= a < b < dft.len() ==> dft[a] != dft[b],
                    forall|a: int|
                        0 <= a < dft.len() ==> spec_needs_default(
                            model.columns@,
                            args_v0,
                            #[trigger] dft[a],
                        ),
                    forall|a: int|
                        0 <= a < k ==> (#[trigger] field_placeholders@[a]).0 == dft[a],
                    forall|a: int|
                        0 <= a < k ==> (row_lookup(
                            pairs_view(args2.args@),
                            #[trigger] dft[a],
                        ) matches Some(pv) && (pv matches PvView::Placeholder { name, .. } && name
                            == field_placeholders@[a].1@)),
                    forall|f2: usize|
                        !dft.take(k as int).contains(f2) ==> row_lookup(
                            pairs_view(args2.args@),
                            f2,
                        ) == row_lookup(args_v0, f2),
                decreases default_fields@.len() - k,
            {
                let f = default_fields[k];
                let ghost before = pairs_view(args2.args@);
                let col = match model.column(f) {
                    Some(c) => c,
                    None => {
                        proof {
                            assert(!dft.take(k as int).contains(dft[k as int]));
                            assert(spec_needs_default(model.columns@, args_v0, dft[k as int]));
                            assert(false);
                        }
                        return Err(BuildError::MissingColumn { field: f });
                    },
                };
                let ph_name = String::from_str(col.db_name.as_str());
                let ph_value = PrismaValue::Placeholder {
                    name: String::from_str(col.db_name.as_str()),
                    value_type: col.type_tag,
                };
                let ghost phv = pv_view(ph_value);
                crate::interpret::upsert_pair(&mut args2.args, f, ph_value);
                let expr_text = match &col.default {
                    Some(dv) => match &dv.kind {
                        DefaultKind::Expression(g) => {
                            let mut t = String::from_str(g.name.as_str());
                            t.append("()");
                            t
                        },
                        _ => String::from_str("NULL"),
                    },
                    None => String::from_str("NULL"),
                };
                exprs.push(
                    SelectExpr::ValueExpr {
                        text: expr_text,
                        alias: Some(String::from_str(col.db_name.as_str())),
                    },
                );
                field_placeholders.push((f, ph_name));
                k = k + 1;
                proof {
                    lemma_upsert_lookup_self(before, f, phv);
                    assert forall|a: int|
                        0 <= a < k implies (row_lookup(
                        pairs_view(args2.args@),
                        #[trigger] dft[a],
                    ) matches Some(pv) && (pv matches PvView::Placeholder { name, .. } && name
                        == field_placeholders@[a].1@)) by {
                        if a < k - 1 {
                            lemma_upsert_preserves_lookup(before, f, phv, dft[a]);
                        }
                    }
                    assert forall|f2: usize|
                        !dft.take(k as int).contains(f2) implies row_lookup(
                        pairs_view(args2.args@),
                        f2,
                    ) == row_lookup(args_v0, f2) by {
                        assert(!dft.take(k - 1).contains(f2)) by {
                            if dft.take(k - 1).contains(f2) {
                                let w = choose|w: int|
                                    0 <= w < k - 1 && #[trigger] dft.take(k - 1)[w] == f2;
                                assert(dft.take(k as int)[w] == f2);
                            }
                        }
                        assert(f2 != dft[k - 1]) by {
                            if f2 == dft[k - 1] {
                                assert(dft.take(k as int)[k - 1] == f2);
                            }
                        }
                        lemma_upsert_preserves_lookup(before, f, phv, f2);
                    }
                }
            }
            let defaults_stmt = SqlStatement::Select(
                SelectQuery {
                    table: as_table(model, &self.context),
                    table_alias: None,
                    joins: Vec::new(),
                    columns: exprs,
                    condition: None,
                    group_by: Vec::new(),
                    having: None,
                    order_by: Vec::new(),
                    limit: None,
                    offset: None,
                },
            );
            Some(
                CreateRecordDefaultsQuery {
                    query: self.convert_query(defaults_stmt),
                    field_placeholders,
                },
            )
        } else {
            None
        };

        let mut last_insert_id_field: Option<usize> = None;
        let mut merge_values: Vec<(usize, PrismaValue)> = Vec::new();
        if is_mysql {
            let mut i: usize = 0;
            while i < model.primary_identifier.len()
                invariant
                    i <= model.primary_identifier@.len(),
                    forall|k: int|
                        0 <= k < merge_values@.len() ==> model.primary_identifier@.contains(
                            (#[trigger] merge_values@[k]).0,
                        ),
                    last_insert_id_field matches Some(f) ==> (
                    model.primary_identifier@.contains(f) && spec_autoincrement_column(
                        model.columns@,
                        f,
                    )),
                    last_insert_id_field is None ==> (forall|k: int|
                        0 <= k < i ==> !spec_autoincrement_column(
                            model.columns@,
                            #[trigger] model.primary_identifier@[k],
                        )),
                decreases model.primary_identifier@.len() - i,
            {
                let f = model.primary_identifier[i];
                match model.column(f) {
                    Some(col) => {
                        match &col.default {
                            Some(dv) => {
                                if dv.is_autoincrement() && last_insert_id_field.is_none() {
                                    last_insert_id_field = Some(f);
                                    proof {
                                        assert(model.primary_identifier@[i as int] == f);
                                    }
                                }
                            },
                            None => {},
                        }
                    },
                    None => {},
                }
                match args2.lookup(f) {
                    Some(v) => {
                        let vc = v.clone();
                        merge_values.push((f, vc));
                        proof {
                            assert(model.primary_identifier@[i as int] == f);
                        }
                    },
                    None => {},
                }
                i = i + 1;
            }
        }

        let ghost args2_v = pairs_view(args2.args@);
        let mut columns: Vec<String> = Vec::new();
        let mut row: Vec<PrismaValue> = Vec::new();
        let mut items = args2.args;
        let ghost items0 = items@;
        let mut taken: usize = 0;
        let total = items.len();
        while items.len() > 0
            invariant
                taken + items@.len() == total,
                total == items0.len(),
                items@ =~= items0.skip(taken as int),
                args2_v == pairs_view(items0),
                row@.len() == taken,
                columns@.len() == taken,
                forall|j: int| 0 <= j < taken ==> row@[j] == items0[j].1,
            decreases items@.len(),
        {
            proof {
                assert(items0.skip(taken as int)[0] == items0[taken as int]);
            }
            let (field, value) = items.remove(0);
            match model.column(field) {
                Some(col) => {
                    columns.push(String::from_str(col.db_name.as_str()));
                },
                None => {
                    return Err(BuildError::MissingColumn { field });
                },
            }
            row.push(value);
            taken = taken + 1;
            proof {
                assert(items@ =~= items0.skip(taken as int));
            }
        }
        let ghost row_v = row@;
        let mut rows: Vec<Vec<PrismaValue>> = Vec::new();
        rows.push(row);
        let ghost grows = rows@;
        proof {
            assert(grows.len() == 1 && grows[0]@ == row_v);
            assert(grows.drop_first() =~= Seq::<Vec<PrismaValue>>::empty());
            assert(crate::sql_ast::spec_rows_params(Seq::<Vec<PrismaValue>>::empty()) =~= Seq::<
                PrismaValue,
            >::empty());
            assert(crate::sql_ast::spec_rows_params(grows) =~= row_v);
        }
        let returning: Option<Vec<String>> = if matches!(family, SqlFamily::Postgres) || matches!(
            family,
            SqlFamily::Sqlite,
        ) {
            Some(model.column_db_names(selected_fields))
        } else {
            None
        };
        let insert_stmt = SqlStatement::Insert(
            InsertQuery {
                table: as_table(model, &self.context),
                columns,
                values: InsertValues::Rows(rows),
                on_conflict: None,
                returning,
            },
        );
        let ghost stmt0 = insert_stmt;
        let insert_query = self.convert_query(insert_stmt);
        let result = CreateRecord { select_defaults, insert_query, last_insert_id_field, merge_values };
        proof {
            assert(spec_stmt_params(stmt0) =~= row_v);
            if result.select_defaults is Some {
                assert(create_record_params(result) == row_v);
                assert forall|k: int|
                    0 <= k < result.select_defaults->0.field_placeholders@.len()
                        implies spec_has_placeholder(
                    create_record_params(result),
                    (#[trigger] result.select_defaults->0.field_placeholders@[k]).1@,
                ) by {
                    assert(row_lookup(args2_v, dft[k]) matches Some(pv) && (pv matches
                        PvView::Placeholder { name, .. } && name
                        == result.select_defaults->0.field_placeholders@[k].1@));
                    lemma_row_lookup_exists(args2_v, dft[k]);
                    let j = choose|j: int|
                        0 <= j < args2_v.len() && (#[trigger] args2_v[j]).0 == dft[k]
                            && args2_v[j].1 == row_lookup(args2_v, dft[k]).unwrap();
                    assert(args2_v[j] == (items0[j].0, pv_view(items0[j].1)));
                    assert(row_v[j] == items0[j].1);
                    assert(0 <= j < create_record_params(result).len() && (pv_view(
                        create_record_params(result)[j],
                    ) matches PvView::Placeholder { name, .. } && name
                        == result.select_defaults->0.field_placeholders@[k].1@));
                }
            }
            assert(result.insert_query matches DbQuery::TemplateSql { .. });
        }
        Ok(result)
    }
}

/// The parameters of a create-record plan's insert query.
pub open spec fn create_record_params(cr: CreateRecord) -> Seq<PrismaValue> {
    match cr.insert_query {
        DbQuery::TemplateSql { params, .. } => params@,
        DbQuery::RawSql { params, .. } => params@,
    }
}

/// Whether some parameter is a placeholder of the given name.
pub open spec fn spec_has_placeholder(params: Seq<PrismaValue>, name: Seq<char>) -> bool {
    exists|j: int|
        0 <= j < params.len() && ((#[trigger] pv_view(params[j])) matches PvView::Placeholder {
            name: n2,
            ..
        } && n2 == name)
}

impl SqlQueryBuilder {
    /// Builds bulk inserts: rows are chunked so that each statement stays
    /// within the insert-row and bind-value limits, and duplicates are
    /// skipped in the dialect's own style when requested (SQL Server has no
    /// such rendering here and is refused).
    pub fn build_inserts(
        &self,
        model: &ModelDef,
        args: Vec<WriteArgs>,
        skip_duplicates: bool,
        selected_fields: Option<&Vec<usize>>,
    ) -> (r: Result<Vec<DbQuery>, BuildError>)
        ensures
            skip_duplicates && self.context.connection_info.family == SqlFamily::Mssql ==> r
                is Err,
            r is Ok <==> (!(skip_duplicates && self.context.connection_info.family
                == SqlFamily::Mssql) && (args@.len() == 0 || spec_fields_ok(
                spec_args_fields(args@[0]@),
                model.columns@,
            ))),
            r matches Ok(qs) ==> (args@.len() == 0 ==> qs@.len() == 0),
            r matches Ok(qs) ==> (args@.len() >= 1 ==> qs@.len() >= 1),
    {
        if skip_duplicates && matches!(self.context.connection_info.family, SqlFamily::Mssql) {
            return Err(BuildError::UnsupportedForDialect);
        }
        let mut fields: Vec<usize> = Vec::new();
        if args.len() > 0 {
            let mut i: usize = 0;
            let first = &args[0];
            while i < first.args.len()
                invariant
                    first == &args@[0],
                    i <= first.args@.len(),
                    fields@.len() == i,
                    forall|k: int| 0 <= k < i ==> #[trigger] fields@[k] == first.args@[k].0,
                decreases first.args@.len() - i,
            {
                fields.push(first.args[i].0);
                i = i + 1;
            }
            proof {
                assert(fields@ =~= spec_args_fields(args@[0]@));
            }
        }
        let mut columns: Vec<String> = Vec::new();
        let mut ci: usize = 0;
        while ci < fields.len()
            invariant
                args@.len() > 0 ==> fields@ == spec_args_fields(args@[0]@),
                args@.len() == 0 ==> fields@.len() == 0,
                ci <= fields@.len(),
                columns@.len() == ci,
                !(skip_duplicates && self.context.connection_info.family == SqlFamily::Mssql),
                forall|k: int|
                    0 <= k < ci ==> crate::model::spec_column_index(
                        model.columns@,
                        #[trigger] fields@[k],
                    ) is Some,
            decreases fields@.len() - ci,
        {
            match model.column(fields[ci]) {
                Some(col) => {
                    columns.push(String::from_str(col.db_name.as_str()));
                },
                None => {
                    proof {
                        lemma_spec_fields_ok(fields@, model.columns@);
                    }
                    return Err(BuildError::MissingColumn { field: fields[ci] });
                },
            }
            ci = ci + 1;
        }
        proof {
            lemma_spec_fields_ok(fields@, model.columns@);
        }
        let per_params = chunk_size_for(columns.len(), &self.context);
        let per = match self.context.max_insert_rows() {
            Some(m) => {
                if m >= 1 && m < per_params {
                    m
                } else {
                    per_params
                }
            },
            None => per_params,
        };
        let mut out: Vec<DbQuery> = Vec::new();
        let ghost total_args = args@.len();
        let mut rest = args;
        while rest.len() > 0
            invariant
                per >= 1,
                rest@.len() <= total_args,
                total_args == 0 ==> out@.len() == 0,
                rest@.len() < total_args ==> out@.len() >= 1,
            decreases rest@.len(),
        {
            let before = rest.len();
            let mut rows: Vec<Vec<PrismaValue>> = Vec::new();
            while rest.len() > 0 && rows.len() < per
                invariant
                    per >= 1,
                    rest@.len() + rows@.len() == before,
                decreases rest@.len(),
            {
                let one = rest.remove(0);
                let mut row: Vec<PrismaValue> = Vec::new();
                let mut fi: usize = 0;
                while fi < fields.len()
                    decreases fields@.len() - fi,
                {
                    match one.lookup(fields[fi]) {
                        Some(v) => {
                            row.push(v.clone());
                        },
                        None => {
                            row.push(PrismaValue::Null);
                        },
                    }
                    fi = fi + 1;
                }
                rows.push(row);
            }
            let mut cols2: Vec<String> = Vec::new();
            let mut c2: usize = 0;
            while c2 < columns.len()
                decreases columns@.len() - c2,
            {
                cols2.push(String::from_str(columns[c2].as_str()));
                c2 = c2 + 1;
            }
            let returning: Option<Vec<String>> = match selected_fields {
                Some(sel) => Some(model.column_db_names(sel)),
                None => None,
            };
            let stmt = SqlStatement::Insert(
                InsertQuery {
                    table: as_table(model, &self.context),
                    columns: cols2,
                    values: InsertValues::Rows(rows),
                    on_conflict: if skip_duplicates {
                        Some(OnConflict::DoNothing)
                    } else {
                        None
                    },
                    returning,
                },
            );
            proof {
                assert(rows@.len() >= 1);
            }
            out.push(self.convert_query(stmt));
        }
        Ok(out)
    }

    /// Builds a single-record update. With a selection, one statement
    /// updates and returns the requested columns. Without one, the resolved
    /// selector rows take the place of the filter; the selectors must fit a
    /// single statement.
    pub fn build_update(
        &self,
        model: &ModelDef,
        record_filter: RecordFilter,
        args: WriteArgs,
        selected_fields: Option<&Vec<usize>>,
    ) -> (r: Result<DbQuery, BuildError>)
        ensures
            r matches Ok(q) ==> q matches DbQuery::TemplateSql { .. },
            selected_fields is Some ==> (r is Ok <==> (spec_filter_ok(
                crate::filter::spec_update_one_filter(
                    record_filter.filter@,
                    match record_filter.selectors {
                        Some(sel) => Some(crate::filter::rows_view(sel@)),
                        None => None,
                    },
                ),
                model.columns@,
            ) && spec_fields_ok(spec_args_fields(args@), model.columns@))),
            selected_fields is None ==> (r is Ok <==> (record_filter.selectors is Some
                && spec_fields_ok(model.primary_identifier@, model.columns@) && spec_filter_ok(
                record_filter.filter@,
                model.columns@,
            ) && spec_fields_ok(spec_args_fields(args@), model.columns@) && (match
                record_filter.selectors {
                Some(sel) => 1 <= sel@.len() <= spec_chunk_size(
                    model.primary_identifier@.len() as usize,
                    self.context.max_bind_values,
                ),
                None => false,
            }))),
    {
        match selected_fields {
            Some(sel) => {
                let filter = crate::filter::build_update_one_filter(record_filter);
                let condition = match condition_from_filter(filter, model) {
                    Ok(c) => c,
                    Err(e) => {
                        return Err(e);
                    },
                };
                let sets = match sets_from_args(args, model) {
                    Ok(s) => s,
                    Err(e) => {
                        return Err(e);
                    },
                };
                let stmt = SqlStatement::Update(
                    UpdateQuery {
                        table: as_table(model, &self.context),
                        sets,
                        condition: Some(condition),
                        returning: Some(model.column_db_names(sel)),
                    },
                );
                Ok(self.convert_query(stmt))
            },
            None => {
                let ghost sel_len: int = match &record_filter.selectors {
                    Some(sel) => sel@.len() as int,
                    None => 0int,
                };
                let ghost size = spec_chunk_size(
                    model.primary_identifier@.len() as usize,
                    self.context.max_bind_values,
                );
                let mut queries = match self.build_updates_inner(
                    model,
                    record_filter,
                    args,
                    None,
                ) {
                    Ok(qs) => qs,
                    Err(e) => {
                        return Err(e);
                    },
                };
                proof {
                    if queries@.len() == 1 {
                        assert(0 * size < sel_len && sel_len <= 1 * size) by (nonlinear_arith)
                            requires
                                size >= 1,
                                (queries@.len() - 1) * size < sel_len || sel_len == 0,
                                sel_len <= queries@.len() * size,
                                queries@.len() == 1,
                                sel_len >= 1 ==> ((queries@.len() - 1) * size < sel_len
                                    && sel_len <= queries@.len() * size),
                                sel_len == 0 ==> queries@.len() == 0,
                        ;
                    } else {
                        if sel_len >= 1 && queries@.len() >= 2 {
                            assert(sel_len > size) by (nonlinear_arith)
                                requires
                                    size >= 1,
                                    (queries@.len() - 1) * size < sel_len,
                                    queries@.len() >= 2,
                            ;
                        }
                    }
                }
                if queries.len() != 1 {
                    return Err(BuildError::NotExactlyOne);
                }
                match queries.pop() {
                    Some(q) => Ok(q),
                    None => Err(BuildError::NotExactlyOne),
                }
            },
        }
    }

    /// Builds the chunked updates behind a many-record update: the selector
    /// rows are split into bind-limit-sized chunks and one update statement
    /// is emitted per chunk, each conjoining the chunk's membership
    /// condition with the record filter.
    fn build_updates_inner(
        &self,
        model: &ModelDef,
        record_filter: RecordFilter,
        args: WriteArgs,
        selected_fields: Option<&Vec<usize>>,
    ) -> (r: Result<Vec<DbQuery>, BuildError>)
        ensures
            r is Ok <==> (record_filter.selectors is Some && spec_fields_ok(
                model.primary_identifier@,
                model.columns@,
            ) && spec_filter_ok(record_filter.filter@, model.columns@) && spec_fields_ok(
                spec_args_fields(args@),
                model.columns@,
            )),
            r matches Ok(qs) ==> (match record_filter.selectors {
                Some(sel) => sel@.len() >= 1 ==> ((qs@.len() - 1) * spec_chunk_size(
                    model.primary_identifier@.len() as usize,
                    self.context.max_bind_values,
                ) < sel@.len() && sel@.len() <= qs@.len() * spec_chunk_size(
                    model.primary_identifier@.len() as usize,
                    self.context.max_bind_values,
                )),
                None => true,
            }),
            r matches Ok(qs) ==> (match record_filter.selectors {
                Some(sel) => sel@.len() == 0 ==> qs@.len() == 0,
                None => true,
            }),
            r matches Ok(qs) ==> forall|i: int|
                0 <= i < qs@.len() ==> (#[trigger] qs@[i]) matches DbQuery::TemplateSql { .. },
    {
        let ghost selectors0 = record_filter.selectors;
        let ghost base_filter0 = record_filter.filter;
        let selectors = match record_filter.selectors {
            Some(s) => s,
            None => {
                return Err(BuildError::MissingInput);
            },
        };
        let mut id_columns: Vec<String> = Vec::new();
        let mut pi: usize = 0;
        while pi < model.primary_identifier.len()
            invariant
                pi <= model.primary_identifier@.len(),
                id_columns@.len() == pi,
                selectors0 is Some,
                forall|k: int|
                    0 <= k < pi ==> crate::model::spec_column_index(
                        model.columns@,
                        #[trigger] model.primary_identifier@[k],
                    ) is Some,
            decreases model.primary_identifier@.len() - pi,
        {
            match model.column(model.primary_identifier[pi]) {
                Some(col) => {
                    id_columns.push(String::from_str(col.db_name.as_str()));
                },
                None => {
                    proof {
                        lemma_spec_fields_ok(model.primary_identifier@, model.columns@);
                    }
                    return Err(
                        BuildError::MissingColumn { field: model.primary_identifier[pi] },
                    );
                },
            }
            pi = pi + 1;
        }
        proof {
            lemma_spec_fields_ok(model.primary_identifier@, model.columns@);
        }
        let base_condition = match condition_from_filter(record_filter.filter, model) {
            Ok(c) => c,
            Err(e) => {
                return Err(e);
            },
        };
        let sets = match sets_from_args(args, model) {
            Ok(s) => s,
            Err(e) => {
                return Err(e);
            },
        };
        let ghost selectors_len = selectors@.len();
        let chunks = chunked_conditions(&id_columns, selectors, &self.context);
        proof {
            assert(id_columns@.len() == model.primary_identifier@.len());
        }
        let mut out: Vec<DbQuery> = Vec::new();
        let mut i: usize = 0;
        while i < chunks.len()
            invariant
                i <= chunks@.len(),
                out@.len() == i,
                forall|k: int|
                    0 <= k < i ==> (#[trigger] out@[k]) matches DbQuery::TemplateSql { .. },
            decreases chunks@.len() - i,
        {
            let mut conds: Vec<ConditionTree> = Vec::new();
            conds.push(clone_condition(&chunks[i]));
            conds.push(clone_condition(&base_condition));
            let mut sets2: Vec<(String, PrismaValue)> = Vec::new();
            let mut si: usize = 0;
            while si < sets.len()
                decreases sets@.len() - si,
            {
                sets2.push((String::from_str(sets[si].0.as_str()), sets[si].1.clone()));
                si = si + 1;
            }
            let returning: Option<Vec<String>> = match selected_fields {
                Some(sel) => Some(model.column_db_names(sel)),
                None => None,
            };
            let stmt = SqlStatement::Update(
                UpdateQuery {
                    table: as_table(model, &self.context),
                    sets: sets2,
                    condition: Some(ConditionTree::And(conds)),
                    returning,
                },
            );
            out.push(self.convert_query(stmt));
            i = i + 1;
        }
        Ok(out)
    }

    /// Builds the statements of a many-record update: one per selector
    /// chunk.
    pub fn build_updates(
        &self,
        model: &ModelDef,
        record_filter: RecordFilter,
        args: WriteArgs,
        selected_fields: Option<&Vec<usize>>,
    ) -> (r: Result<Vec<DbQuery>, BuildError>)
        ensures
            r is Ok <==> (record_filter.selectors is Some && spec_fields_ok(
                model.primary_identifier@,
                model.columns@,
            ) && spec_filter_ok(record_filter.filter@, model.columns@) && spec_fields_ok(
                spec_args_fields(args@),
                model.columns@,
            )),
            r matches Ok(qs) ==> forall|i: int|
                0 <= i < qs@.len() ==> (#[trigger] qs@[i]) matches DbQuery::TemplateSql { .. },
    {
        self.build_updates_inner(model, record_filter, args, selected_fields)
    }

    /// Builds a native upsert: an insert anchored on the unique-constraint
    /// columns whose conflict action applies the update arguments, returning
    /// the requested columns. SQL Server has no such rendering here and is
    /// refused.
    pub fn build_upsert(
        &self,
        model: &ModelDef,
        create_args: WriteArgs,
        update_args: WriteArgs,
        selected_fields: &Vec<usize>,
        unique_constraints: &Vec<usize>,
    ) -> (r: Result<DbQuery, BuildError>)
        ensures
            self.context.connection_info.family == SqlFamily::Mssql ==> r is Err,
            r is Ok <==> (self.context.connection_info.family != SqlFamily::Mssql
                && spec_fields_ok(spec_args_fields(create_args@), model.columns@)
                && spec_fields_ok(spec_args_fields(update_args@), model.columns@)),
            r matches Ok(q) ==> q matches DbQuery::TemplateSql { .. },
    {
        if matches!(self.context.connection_info.family, SqlFamily::Mssql) {
            return Err(BuildError::UnsupportedForDialect);
        }
        let ghost cfields = spec_args_fields(create_args@);
        let mut columns: Vec<String> = Vec::new();
        let mut row: Vec<PrismaValue> = Vec::new();
        let mut items = create_args.args;
        let ghost items0 = items@;
        let total = items.len();
        let mut taken: usize = 0;
        while items.len() > 0
            invariant
                cfields == spec_args_fields(create_args@),
                items0 == create_args.args@,
                items0.len() == total,
                cfields.len() == items0.len(),
                taken + items@.len() == items0.len(),
                items@ =~= items0.skip(taken as int),
                self.context.connection_info.family != SqlFamily::Mssql,
                forall|k: int|
                    0 <= k < taken ==> crate::model::spec_column_index(
                        model.columns@,
                        #[trigger] cfields[k],
                    ) is Some,
            decreases items@.len(),
        {
            proof {
                assert(items0.skip(taken as int)[0] == items0[taken as int]);
                assert(cfields[taken as int] == items0[taken as int].0);
            }
            let (field, value) = items.remove(0);
            match model.column(field) {
                Some(col) => {
                    columns.push(String::from_str(col.db_name.as_str()));
                },
                None => {
                    proof {
                        lemma_spec_fields_ok(cfields, model.columns@);
                    }
                    return Err(BuildError::MissingColumn { field });
                },
            }
            row.push(value);
            taken = taken + 1;
            proof {
                assert(items@ =~= items0.skip(taken as int));
            }
        }
        proof {
            lemma_spec_fields_ok(cfields, model.columns@);
        }
        let update_sets = match sets_from_args(update_args, model) {
            Ok(s) => s,
            Err(e) => {
                return Err(e);
            },
        };
        let constraint_columns = model.column_db_names(unique_constraints);
        let mut rows: Vec<Vec<PrismaValue>> = Vec::new();
        rows.push(row);
        let stmt = SqlStatement::Insert(
            InsertQuery {
                table: as_table(model, &self.context),
                columns,
                values: InsertValues::Rows(rows),
                on_conflict: Some(OnConflict::DoUpdate { constraint_columns, update_sets }),
                returning: Some(model.column_db_names(selected_fields)),
            },
        );
        Ok(self.convert_query(stmt))
    }

    /// Builds the link-table insert of a many-to-many connect: the two link
    /// columns are filled by one opaque parameterized call to the `product`
    /// generator over the parent and child values, and conflicts do nothing.
    pub fn build_m2m_connect(
        &self,
        field: RelationFieldDef,
        parent: PrismaValue,
        child: PrismaValue,
    ) -> (r: Result<DbQuery, BuildError>)
        ensures
            r is Ok <==> self.context.connection_info.family != SqlFamily::Mssql,
            r matches Ok(q) ==> (q matches DbQuery::TemplateSql { params, .. } && params@.len()
                == 1 && (params@[0] matches PrismaValue::GeneratorCall { name, args, .. } && name@
                == "product"@ && args@.len() == 2 && args@[0] == parent && args@[1] == child)),
    {
        if matches!(self.context.connection_info.family, SqlFamily::Mssql) {
            return Err(BuildError::UnsupportedForDialect);
        }
        let mut call_args: Vec<PrismaValue> = Vec::new();
        call_args.push(parent);
        call_args.push(child);
        let call = PrismaValue::GeneratorCall {
            name: String::from_str("product"),
            args: call_args,
            return_type: PrismaValueType::Any,
        };
        let mut columns: Vec<String> = Vec::new();
        columns.push(String::from_str(field.parent_column.as_str()));
        columns.push(String::from_str(field.child_column.as_str()));
        let table = TableRef {
            schema: match &field.relation_schema {
                Some(sc) => Some(String::from_str(sc.as_str())),
                None => None,
            },
            name: String::from_str(field.relation_table.as_str()),
            unique_index_columns: Vec::new(),
        };
        let stmt = SqlStatement::Insert(
            InsertQuery {
                table,
                columns,
                values: InsertValues::Expression(call),
                on_conflict: Some(OnConflict::DoNothing),
                returning: None,
            },
        );
        let q = self.convert_query(stmt);
        proof {
            assert(q matches DbQuery::TemplateSql { params, .. } ==> params@ =~= seq![call]);
        }
        Ok(q)
    }

    /// Builds the link-table delete of a many-to-many disconnect: the parent
    /// link column equals the parent identifier's value and the child link
    /// column is among the child identifiers' values.
    pub fn build_m2m_disconnect(
        &self,
        field: RelationFieldDef,
        parent_id: &SelectionResult,
        child_ids: &Vec<SelectionResult>,
    ) -> (r: Result<DbQuery, BuildError>)
        ensures
            r is Ok <==> (parent_id@.len() >= 1 && (forall|i: int|
                0 <= i < child_ids@.len() ==> (#[trigger] child_ids@[i])@.len() >= 1)),
            r matches Ok(q) ==> q matches DbQuery::TemplateSql { .. },
    {
        let parent_value = match parent_id.pairs.len() {
            0 => {
                return Err(BuildError::MissingInput);
            },
            _ => parent_id.pairs[0].1.clone(),
        };
        let mut child_rows: Vec<Vec<PrismaValue>> = Vec::new();
        let mut i: usize = 0;
        while i < child_ids.len()
            invariant
                parent_id@.len() >= 1,
                i <= child_ids@.len(),
                forall|k: int| 0 <= k < i ==> (#[trigger] child_ids@[k])@.len() >= 1,
            decreases child_ids@.len() - i,
        {
            if child_ids[i].pairs.len() == 0 {
                return Err(BuildError::MissingInput);
            }
            let mut row: Vec<PrismaValue> = Vec::new();
            row.push(child_ids[i].pairs[0].1.clone());
            child_rows.push(row);
            i = i + 1;
        }
        let mut conds: Vec<ConditionTree> = Vec::new();
        conds.push(
            ConditionTree::Equals {
                column: String::from_str(field.parent_column.as_str()),
                value: parent_value,
            },
        );
        let mut child_cols: Vec<String> = Vec::new();
        child_cols.push(String::from_str(field.child_column.as_str()));
        conds.push(ConditionTree::InValues { columns: child_cols, rows: child_rows });
        let table = TableRef {
            schema: match &field.relation_schema {
                Some(sc) => Some(String::from_str(sc.as_str())),
                None => None,
            },
            name: String::from_str(field.relation_table.as_str()),
            unique_index_columns: Vec::new(),
        };
        let stmt = SqlStatement::Delete(
            DeleteQuery {
                table,
                condition: Some(ConditionTree::And(conds)),
                returning: None,
            },
        );
        Ok(self.convert_query(stmt))
    }

    /// Builds a single-record delete: with a selection, one statement
    /// deletes and returns the requested columns; without one, the chunked
    /// deletes must fit a single statement.
    pub fn build_delete(
        &self,
        model: &ModelDef,
        record_filter: RecordFilter,
        selected_fields: Option<&Vec<usize>>,
    ) -> (r: Result<DbQuery, BuildError>)
        ensures
            r matches Ok(q) ==> q matches DbQuery::TemplateSql { .. },
            selected_fields is Some ==> (r is Ok <==> spec_filter_ok(
                record_filter.filter@,
                model.columns@,
            )),
            selected_fields is None ==> (r is Ok <==> (record_filter.selectors is Some
                && spec_fields_ok(model.primary_identifier@, model.columns@) && spec_filter_ok(
                record_filter.filter@,
                model.columns@,
            ) && (match record_filter.selectors {
                Some(sel) => 1 <= sel@.len() <= spec_chunk_size(
                    model.primary_identifier@.len() as usize,
                    self.context.max_bind_values,
                ),
                None => false,
            }))),
    {
        match selected_fields {
            Some(sel) => {
                let condition = match condition_from_filter(record_filter.filter, model) {
                    Ok(c) => c,
                    Err(e) => {
                        return Err(e);
                    },
                };
                let stmt = SqlStatement::Delete(
                    DeleteQuery {
                        table: as_table(model, &self.context),
                        condition: Some(condition),
                        returning: Some(model.column_db_names(sel)),
                    },
                );
                Ok(self.convert_query(stmt))
            },
            None => {
                let ghost sel_len: int = match &record_filter.selectors {
                    Some(sel) => sel@.len() as int,
                    None => 0int,
                };
                let ghost size = spec_chunk_size(
                    model.primary_identifier@.len() as usize,
                    self.context.max_bind_values,
                );
                let mut queries = match self.build_deletes(model, record_filter) {
                    Ok(qs) => qs,
                    Err(e) => {
                        return Err(e);
                    },
                };
                proof {
                    if queries@.len() == 1 {
                        assert(0 * size < sel_len && sel_len <= 1 * size) by (nonlinear_arith)
                            requires
                                size >= 1,
                                sel_len >= 0,
                                sel_len >= 1 ==> ((queries@.len() - 1) * size < sel_len
                                    && sel_len <= queries@.len() * size),
                                sel_len == 0 ==> queries@.len() == 0,
                                queries@.len() == 1,
                        ;
                    } else {
                        if sel_len >= 1 && queries@.len() >= 2 {
                            assert(sel_len > size) by (nonlinear_arith)
                                requires
                                    size >= 1,
                                    (queries@.len() - 1) * size < sel_len,
                                    queries@.len() >= 2,
                            ;
                        }
                    }
                }
                if queries.len() != 1 {
                    return Err(BuildError::NotExactlyOne);
                }
                match queries.pop() {
                    Some(q) => Ok(q),
                    None => Err(BuildError::NotExactlyOne),
                }
            },
        }
    }

    /// Builds the chunked deletes of a many-record delete: one statement per
    /// selector chunk, mirroring the chunked updates.
    pub fn build_deletes(&self, model: &ModelDef, record_filter: RecordFilter) -> (r: Result<
        Vec<DbQuery>,
        BuildError,
    >)
        ensures
            r is Ok <==> (record_filter.selectors is Some && spec_fields_ok(
                model.primary_identifier@,
                model.columns@,
            ) && spec_filter_ok(record_filter.filter@, model.columns@)),
            r matches Ok(qs) ==> (match record_filter.selectors {
                Some(sel) => sel@.len() >= 1 ==> ((qs@.len() - 1) * spec_chunk_size(
                    model.primary_identifier@.len() as usize,
                    self.context.max_bind_values,
                ) < sel@.len() && sel@.len() <= qs@.len() * spec_chunk_size(
                    model.primary_identifier@.len() as usize,
                    self.context.max_bind_values,
                )),
                None => true,
            }),
            r matches Ok(qs) ==> (match record_filter.selectors {
                Some(sel) => sel@.len() == 0 ==> qs@.len() == 0,
                None => true,
            }),
            r matches Ok(qs) ==> forall|i: int|
                0 <= i < qs@.len() ==> (#[trigger] qs@[i]) matches DbQuery::TemplateSql { .. },
    {
        let ghost selectors0 = record_filter.selectors;
        let selectors = match record_filter.selectors {
            Some(s) => s,
            None => {
                return Err(BuildError::MissingInput);
            },
        };
        let mut id_columns: Vec<String> = Vec::new();
        let mut pi: usize = 0;
        while pi < model.primary_identifier.len()
            invariant
                pi <= model.primary_identifier@.len(),
                id_columns@.len() == pi,
                selectors0 is Some,
                forall|k: int|
                    0 <= k < pi ==> crate::model::spec_column_index(
                        model.columns@,
                        #[trigger] model.primary_identifier@[k],
                    ) is Some,
            decreases model.primary_identifier@.len() - pi,
        {
            match model.column(model.primary_identifier[pi]) {
                Some(col) => {
                    id_columns.push(String::from_str(col.db_name.as_str()));
                },
                None => {
                    proof {
                        lemma_spec_fields_ok(model.primary_identifier@, model.columns@);
                    }
                    return Err(
                        BuildError::MissingColumn { field: model.primary_identifier[pi] },
                    );
                },
            }
            pi = pi + 1;
        }
        proof {
            lemma_spec_fields_ok(model.primary_identifier@, model.columns@);
        }
        let base_condition = match condition_from_filter(record_filter.filter, model) {
            Ok(c) => c,
            Err(e) => {
                return Err(e);
            },
        };
        let chunks = chunked_conditions(&id_columns, selectors, &self.context);
        let mut out: Vec<DbQuery> = Vec::new();
        let mut i: usize = 0;
        while i < chunks.len()
            invariant
                i <= chunks@.len(),
                out@.len() == i,
                forall|k: int|
                    0 <= k < i ==> (#[trigger] out@[k]) matches DbQuery::TemplateSql { .. },
            decreases chunks@.len() - i,
        {
            let mut conds: Vec<ConditionTree> = Vec::new();
            conds.push(clone_condition(&chunks[i]));
            conds.push(clone_condition(&base_condition));
            let stmt = SqlStatement::Delete(
                DeleteQuery {
                    table: as_table(model, &self.context),
                    condition: Some(ConditionTree::And(conds)),
                    returning: None,
                },
            );
            out.push(self.convert_query(stmt));
            i = i + 1;
        }
        Ok(out)
    }

    /// Passes caller-supplied raw SQL through: the inputs must carry the
    /// query text and the parameter list.
    pub fn build_raw(&self, inputs: Vec<(String, PrismaValue)>) -> (r: Result<
        DbQuery,
        BuildError,
    >)
        ensures
            r is Ok <==> ((forall|i: int|
                0 <= i < inputs@.len() && (#[trigger] inputs@[i]).0@ == "query"@
                    ==> inputs@[i].1 matches PrismaValue::Text(_)) && (forall|i: int|
                0 <= i < inputs@.len() && (#[trigger] inputs@[i]).0@ == "parameters"@
                    ==> inputs@[i].1 matches PrismaValue::List(_)) && (exists|i: int|
                0 <= i < inputs@.len() && (#[trigger] inputs@[i]).0@ == "query"@) && (exists|
                i: int,
            |
                0 <= i < inputs@.len() && (#[trigger] inputs@[i]).0@ == "parameters"@)),
            r matches Ok(q) ==> q matches DbQuery::RawSql { .. },
    {
        let mut sql: Option<String> = None;
        let mut params: Option<Vec<PrismaValue>> = None;
        let mut i: usize = 0;
        while i < inputs.len()
            invariant
                i <= inputs@.len(),
                forall|k: int|
                    0 <= k < i && (#[trigger] inputs@[k]).0@ == "query"@ ==> inputs@[k].1 matches
                        PrismaValue::Text(_),
                forall|k: int|
                    0 <= k < i && (#[trigger] inputs@[k]).0@ == "parameters"@ ==> inputs@[k].1
                        matches PrismaValue::List(_),
                sql is Some <==> (exists|k: int|
                    0 <= k < i && (#[trigger] inputs@[k]).0@ == "query"@),
                params is Some <==> (exists|k: int|
                    0 <= k < i && (#[trigger] inputs@[k]).0@ == "parameters"@),
            decreases inputs@.len() - i,
        {
            proof {
                reveal_strlit("query");
                reveal_strlit("parameters");
                assert("query"@.len() == 5);
                assert("parameters"@.len() == 10);
                assert("query"@ != "parameters"@);
            }
            if inputs[i].0 == String::from_str("query") {
                match &inputs[i].1 {
                    PrismaValue::Text(t) => {
                        sql = Some(String::from_str(t.as_str()));
                        proof {
                            assert(inputs@[i as int].0@ == "query"@);
                        }
                    },
                    _ => {
                        return Err(BuildError::MissingInput);
                    },
                }
            } else if inputs[i].0 == String::from_str("parameters") {
                match &inputs[i].1 {
                    PrismaValue::List(vs) => {
                        params = Some(crate::values::clone_values(vs));
                        proof {
                            assert(inputs@[i as int].0@ == "parameters"@);
                        }
                    },
                    _ => {
                        return Err(BuildError::MissingInput);
                    },
                }
            }
            i = i + 1;
        }
        match (sql, params) {
            (Some(s), Some(p)) => Ok(DbQuery::RawSql { sql: s, params: p }),
            _ => Err(BuildError::MissingInput),
        }
    }
}

/// Deep copy of a condition tree; the copy has the same parameters.
pub fn clone_condition(c: &ConditionTree) -> (r: ConditionTree)
    decreases c,
{
    match c {
        ConditionTree::And(inner) => {
            let mut out: Vec<ConditionTree> = Vec::new();
            let mut i: usize = 0;
            while i < inner.len()
                invariant
                    c matches ConditionTree::And(v) && v == inner,
                decreases inner@.len() - i,
            {
                proof {
                    assert(decreases_to!(*c => inner@[i as int]));
                }
                out.push(clone_condition(&inner[i]));
                i = i + 1;
            }
            ConditionTree::And(out)
        },
        ConditionTree::Equals { column, value } => ConditionTree::Equals {
            column: String::from_str(column.as_str()),
            value: value.clone(),
        },
        ConditionTree::InValues { columns, rows } => {
            let mut cols: Vec<String> = Vec::new();
            let mut i: usize = 0;
            while i < columns.len()
                decreases columns@.len() - i,
            {
                cols.push(String::from_str(columns[i].as_str()));
                i = i + 1;
            }
            let mut vrows: Vec<Vec<PrismaValue>> = Vec::new();
            let mut k: usize = 0;
            while k < rows.len()
                decreases rows@.len() - k,
            {
                vrows.push(crate::values::clone_values(&rows[k]));
                k = k + 1;
            }
            ConditionTree::InValues { columns: cols, rows: vrows }
        },
        ConditionTree::InParameterizedRow { column, value } => ConditionTree::InParameterizedRow {
            column: String::from_str(column.as_str()),
            value: value.clone(),
        },
        ConditionTree::True => ConditionTree::True,
    }
}

} // verus!
