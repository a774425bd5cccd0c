//! The dialect-agnostic SQL query AST the builder composes, the portable
//! template the visitor lowers it to, and the parameter-sequence model that
//! ties the two together.
use vstd::prelude::*;

use crate::dialect::PlaceholderFormat;
use crate::values::PrismaValue;

verus! {

/// A qualified table reference, with the unique index column sets the update
/// strategies consult.
#[derive(Debug)]
pub struct TableRef {
    pub schema: Option<String>,
    pub name: String,
    pub unique_index_columns: Vec<Vec<String>>,
}

/// A condition over a table's rows, with concrete column names.
#[derive(Debug)]
pub enum ConditionTree {
    /// Every inner condition holds.
    And(Vec<ConditionTree>),
    /// The column equals a parameter.
    Equals { column: String, value: PrismaValue },
    /// The column tuple is one of the parameter rows.
    InValues { columns: Vec<String>, rows: Vec<Vec<PrismaValue>> },
    /// The column is in a late-bound parameterized row.
    InParameterizedRow { column: String, value: PrismaValue },
    /// No condition.
    True,
}

/// One expression of a select list.
#[derive(Debug)]
pub enum SelectExpr {
    Column { name: String, alias: Option<String> },
    RowCount { column: Option<String>, alias: Option<String> },
    Average { column: String, alias: Option<String> },
    Sum { column: String, alias: Option<String> },
    Min { column: String, alias: Option<String> },
    Max { column: String, alias: Option<String> },
    ValueExpr { text: String, alias: Option<String> },
}

/// An inner join.
#[derive(Debug)]
pub struct Join {
    pub table: TableRef,
    pub alias: Option<String>,
    pub on_left: String,
    pub on_right: String,
}

/// A select statement.
#[derive(Debug)]
pub struct SelectQuery {
    pub table: TableRef,
    pub table_alias: Option<String>,
    pub joins: Vec<Join>,
    pub columns: Vec<SelectExpr>,
    pub condition: Option<ConditionTree>,
    pub group_by: Vec<String>,
    pub having: Option<ConditionTree>,
    /// `(column, descending)` pairs.
    pub order_by: Vec<(String, bool)>,
    /// Row limit, bound as a parameter.
    pub limit: Option<usize>,
    /// Row offset, bound as a parameter.
    pub offset: Option<usize>,
}

/// The conflict policy of an insert.
#[derive(Debug)]
pub enum OnConflict {
    DoNothing,
    DoUpdate { constraint_columns: Vec<String>, update_sets: Vec<(String, PrismaValue)> },
}

/// What an insert writes: literal parameter rows, or one opaque parameterized
/// expression.
#[derive(Debug)]
pub enum InsertValues {
    Rows(Vec<Vec<PrismaValue>>),
    Expression(PrismaValue),
}

/// An insert statement.
#[derive(Debug)]
pub struct InsertQuery {
    pub table: TableRef,
    pub columns: Vec<String>,
    pub values: InsertValues,
    pub on_conflict: Option<OnConflict>,
    pub returning: Option<Vec<String>>,
}

/// An update statement.
#[derive(Debug)]
pub struct UpdateQuery {
    pub table: TableRef,
    pub sets: Vec<(String, PrismaValue)>,
    pub condition: Option<ConditionTree>,
    pub returning: Option<Vec<String>>,
}

/// A delete statement.
#[derive(Debug)]
pub struct DeleteQuery {
    pub table: TableRef,
    pub condition: Option<ConditionTree>,
    pub returning: Option<Vec<String>>,
}

/// A statement of any of the four shapes.
#[derive(Debug)]
pub enum SqlStatement {
    Select(SelectQuery),
    Insert(InsertQuery),
    Update(UpdateQuery),
    Delete(DeleteQuery),
}

/// One chunk of a lowered statement: literal SQL text, or the position of the
/// next bind parameter.
#[derive(Debug)]
pub enum Fragment {
    Literal(String),
    Parameter,
}

/// The builder's emitted SQL unit: a parametrized template, or raw SQL.
#[derive(Debug)]
pub enum DbQuery {
    TemplateSql {
        fragments: Vec<Fragment>,
        placeholder_format: PlaceholderFormat,
        params: Vec<PrismaValue>,
    },
    RawSql { sql: String, params: Vec<PrismaValue> },
}

/// The parameters of a condition, in rendering order.
pub open spec fn spec_cond_params(c: ConditionTree) -> Seq<PrismaValue>
    decreases c,
{
    match c {
        ConditionTree::And(inner) => spec_conds_params(inner@),
        ConditionTree::Equals { column, value } => seq![value],
        ConditionTree::InValues { columns, rows } => spec_rows_params(rows@),
        ConditionTree::InParameterizedRow { column, value } => seq![value],
        ConditionTree::True => Seq::empty(),
    }
}

/// The parameters of a condition list, in order.
pub open spec fn spec_conds_params(s: Seq<ConditionTree>) -> Seq<PrismaValue>
    decreases s,
{
    if s.len() == 0 {
        Seq::empty()
    } else {
        spec_cond_params(s[0]) + spec_conds_params(s.drop_first())
    }
}

/// The parameters of a literal row list, row by row.
pub open spec fn spec_rows_params(rows: Seq<Vec<PrismaValue>>) -> Seq<PrismaValue>
    decreases rows.len(),
{
    if rows.len() == 0 {
        Seq::empty()
    } else {
        rows[0]@ + spec_rows_params(rows.drop_first())
    }
}

/// The parameters of an optional condition.
pub open spec fn spec_opt_cond_params(c: Option<ConditionTree>) -> Seq<PrismaValue> {
    match c {
        Some(cond) => spec_cond_params(cond),
        None => Seq::empty(),
    }
}

/// The parameters of an update's assignment list, in order.
pub open spec fn spec_sets_params(s: Seq<(String, PrismaValue)>) -> Seq<PrismaValue> {
    Seq::new(s.len(), |i: int| s[i].1)
}

/// The parameters of a whole statement, in rendering order: a select binds
/// its condition, having, then limit and offset; an insert binds its values
/// and any conflict-update assignments; an update binds its assignments then
/// its condition; a delete binds its condition.
pub open spec fn spec_stmt_params(s: SqlStatement) -> Seq<PrismaValue> {
    match s {
        SqlStatement::Select(q) => spec_opt_cond_params(q.condition) + spec_opt_cond_params(
            q.having,
        ) + (match q.limit {
            Some(n) => seq![PrismaValue::Int(n as i64)],
            None => Seq::empty(),
        }) + (match q.offset {
            Some(n) => seq![PrismaValue::Int(n as i64)],
            None => Seq::empty(),
        }),
        SqlStatement::Insert(q) => (match q.values {
            InsertValues::Rows(rows) => spec_rows_params(rows@),
            InsertValues::Expression(v) => seq![v],
        }) + (match q.on_conflict {
            Some(OnConflict::DoUpdate { constraint_columns, update_sets }) => spec_sets_params(
                update_sets@,
            ),
            _ => Seq::empty(),
        }),
        SqlStatement::Update(q) => spec_sets_params(q.sets@) + spec_opt_cond_params(q.condition),
        SqlStatement::Delete(q) => spec_opt_cond_params(q.condition),
    }
}

/// The number of parameter positions among the fragments.
pub open spec fn spec_param_count(frags: Seq<Fragment>) -> nat
    decreases frags.len(),
{
    if frags.len() == 0 {
        0
    } else {
        (match frags[0] {
            Fragment::Parameter => 1nat,
            Fragment::Literal(_) => 0nat,
        }) + spec_param_count(frags.drop_first())
    }
}

/// Appending a fragment adds its own contribution to the parameter count.
pub proof fn lemma_spec_param_count_push(frags: Seq<Fragment>, f: Fragment)
    ensures
        spec_param_count(frags.push(f)) == spec_param_count(frags) + (match f {
            Fragment::Parameter => 1nat,
            Fragment::Literal(_) => 0nat,
        }),
    decreases frags.len(),
{
    if frags.len() == 0 {
        assert(frags.push(f)[0] == f);
        assert(frags.push(f).drop_first() =~= Seq::<Fragment>::empty());
        assert(spec_param_count(Seq::<Fragment>::empty()) == 0);
        assert(spec_param_count(frags) == 0);
    } else {
        assert(frags.push(f)[0] == frags[0]);
        assert(frags.push(f).drop_first() =~= frags.drop_first().push(f));
        lemma_spec_param_count_push(frags.drop_first(), f);
        assert(spec_param_count(frags.push(f)) == (match frags[0] {
            Fragment::Parameter => 1nat,
            Fragment::Literal(_) => 0nat,
        }) + spec_param_count(frags.drop_first().push(f)));
    }
}

} // verus!
