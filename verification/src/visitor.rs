//! The dialect visitor: lowers a statement to a template of literal SQL
//! fragments interleaved with parameter positions, collecting the bind
//! parameters in rendering order, and re-renders templates to final SQL with
//! the dialect's placeholder syntax.
use vstd::prelude::*;

use crate::dialect::{PlaceholderFormat, SqlFamily};
use crate::sql_ast::{
    lemma_spec_param_count_push, spec_cond_params, spec_conds_params, spec_opt_cond_params,
    spec_param_count, spec_rows_params, spec_sets_params, spec_stmt_params, ConditionTree,
    DeleteQuery, Fragment, InsertQuery, InsertValues, OnConflict, SelectExpr, SelectQuery,
    SqlStatement, TableRef, UpdateQuery,
};
use crate::values::{usize_to_decimal, PrismaValue};

verus! {

/// Appends literal SQL text; binds nothing.
fn lit(frags: &mut Vec<Fragment>, text: &str)
    ensures
        spec_param_count(final(frags)@) == spec_param_count(old(frags)@),
{
    let t = String::from_str(text);
    proof {
        lemma_spec_param_count_push(frags@, Fragment::Literal(t));
    }
    frags.push(Fragment::Literal(t));
}

/// Appends an owned piece of literal SQL text; binds nothing.
fn lit_string(frags: &mut Vec<Fragment>, text: String)
    ensures
        spec_param_count(final(frags)@) == spec_param_count(old(frags)@),
{
    proof {
        lemma_spec_param_count_push(frags@, Fragment::Literal(text));
    }
    frags.push(Fragment::Literal(text));
}

/// Appends one parameter position bound to the value.
fn param(frags: &mut Vec<Fragment>, params: &mut Vec<PrismaValue>, v: PrismaValue)
    ensures
        final(params)@ == old(params)@ + seq![v],
        spec_param_count(final(frags)@) == spec_param_count(old(frags)@) + 1,
{
    proof {
        lemma_spec_param_count_push(frags@, Fragment::Parameter);
        assert(old(params)@.push(v) =~= old(params)@ + seq![v]);
    }
    frags.push(Fragment::Parameter);
    params.push(v);
}

/// Appends a quoted identifier.
fn ident(frags: &mut Vec<Fragment>, family: SqlFamily, name: &String)
    ensures
        spec_param_count(final(frags)@) == spec_param_count(old(frags)@),
{
    lit_string(frags, family.quote_ident(name));
}

/// Appends a table reference, qualified by its schema when present.
fn table_ref(frags: &mut Vec<Fragment>, family: SqlFamily, table: &TableRef)
    ensures
        spec_param_count(final(frags)@) == spec_param_count(old(frags)@),
{
    match &table.schema {
        Some(schema) => {
            ident(frags, family, schema);
            lit(frags, ".");
            ident(frags, family, &table.name);
        },
        None => {
            ident(frags, family, &table.name);
        },
    }
}

/// Appends a comma-separated quoted column list; binds nothing.
fn column_list(frags: &mut Vec<Fragment>, family: SqlFamily, columns: &Vec<String>)
    ensures
        spec_param_count(final(frags)@) == spec_param_count(old(frags)@),
{
    let mut i: usize = 0;
    while i < columns.len()
        invariant
            i <= columns@.len(),
            spec_param_count(frags@) == spec_param_count(old(frags)@),
        decreases columns@.len() - i,
    {
        if i > 0 {
            lit(frags, ", ");
        }
        ident(frags, family, &columns[i]);
        i = i + 1;
    }
}

/// Lowers a condition, appending its text and binding its parameters in
/// rendering order.
fn visit_condition(
    c: ConditionTree,
    family: SqlFamily,
    frags: &mut Vec<Fragment>,
    params: &mut Vec<PrismaValue>,
)
    ensures
        final(params)@ == old(params)@ + spec_cond_params(c),
        spec_param_count(final(frags)@) == spec_param_count(old(frags)@) + spec_cond_params(
            c,
        ).len(),
    decreases c,
{
    let ghost c0 = c;
    match c {
        ConditionTree::And(inner) => {
            let ghost iv = inner;
            let ghost inner0 = inner@;
            lit(frags, "(");
            let mut items = inner;
            let mut taken: usize = 0;
            let total = items.len();
            while items.len() > 0
                invariant
                    c0 == c,
                    c0 matches ConditionTree::And(v) && v == iv,
                    inner0 == iv@,
                    taken + items@.len() == total,
                    total == inner0.len(),
                    items@ =~= inner0.skip(taken as int),
                    params@ == old(params)@ + spec_conds_params(inner0.take(taken as int)),
                    spec_param_count(frags@) == spec_param_count(old(frags)@) + spec_conds_params(
                        inner0.take(taken as int),
                    ).len(),
                decreases items@.len(),
            {
                proof {
                    assert(inner0.skip(taken as int)[0] == inner0[taken as int]);
                }
                let item = items.remove(0);
                if taken > 0 {
                    lit(frags, " AND ");
                }
                proof {
                    assert(c0 == ConditionTree::And(iv));
                    assert(decreases_to!(c0 => iv));
                    assert(decreases_to!(iv => iv@));
                    assert(decreases_to!(iv@ => iv@[taken as int]));
                    assert(item == iv@[taken as int]);
                    assert(decreases_to!(c0 => item));
                }
                visit_condition(item, family, frags, params);
                taken = taken + 1;
                proof {
                    assert(items@ =~= inner0.skip(taken as int));
                    lemma_spec_conds_params_take(inner0, taken as int);
                }
            }
            lit(frags, ")");
            proof {
                assert(inner0.take(taken as int) =~= inner0);
            }
        },
        ConditionTree::Equals { column, value } => {
            ident(frags, family, &column);
            lit(frags, " = ");
            param(frags, params, value);
        },
        ConditionTree::InValues { columns, rows } => {
            let ghost rows0 = rows@;
            lit(frags, "(");
            column_list(frags, family, &columns);
            lit(frags, ") IN (VALUES ");
            let mut items = rows;
            let mut taken: usize = 0;
            let total = items.len();
            while items.len() > 0
                invariant
                    taken + items@.len() == total,
                    total == rows0.len(),
                    items@ =~= rows0.skip(taken as int),
                    params@ == old(params)@ + spec_rows_params(rows0.take(taken as int)),
                    spec_param_count(frags@) == spec_param_count(old(frags)@) + spec_rows_params(
                        rows0.take(taken as int),
                    ).len(),
                decreases items@.len(),
            {
                proof {
                    assert(rows0.skip(taken as int)[0] == rows0[taken as int]);
                }
                let row = items.remove(0);
                if taken > 0 {
                    lit(frags, ", ");
                }
                lit(frags, "(");
                let ghost row0 = row@;
                let mut vals = row;
                let mut vtaken: usize = 0;
                let vtotal = vals.len();
                while vals.len() > 0
                    invariant
                        vtaken + vals@.len() == vtotal,
                        vtotal == row0.len(),
                        vals@ =~= row0.skip(vtaken as int),
                        params@ == old(params)@ + spec_rows_params(rows0.take(taken as int))
                            + row0.take(vtaken as int),
                        spec_param_count(frags@) == spec_param_count(old(frags)@)
                            + spec_rows_params(rows0.take(taken as int)).len() + vtaken,
                    decreases vals@.len(),
                {
                    proof {
                        assert(row0.skip(vtaken as int)[0] == row0[vtaken as int]);
                    }
                    let v = vals.remove(0);
                    if vtaken > 0 {
                        lit(frags, ", ");
                    }
                    param(frags, params, v);
                    vtaken = vtaken + 1;
                    proof {
                        assert(vals@ =~= row0.skip(vtaken as int));
                        assert(old(params)@ + spec_rows_params(rows0.take(taken as int))
                            + row0.take(vtaken - 1) + seq![row0[vtaken - 1]] =~= old(params)@
                            + spec_rows_params(rows0.take(taken as int)) + row0.take(
                            vtaken as int,
                        ));
                    }
                }
                lit(frags, ")");
                taken = taken + 1;
                proof {
                    assert(row0.take(vtaken as int) =~= row0);
                    assert(items@ =~= rows0.skip(taken as int));
                    lemma_spec_rows_params_take(rows0, taken as int);
                    assert(rows0[taken - 1]@ == row0);
                }
            }
            lit(frags, ")");
            proof {
                assert(rows0.take(taken as int) =~= rows0);
            }
        },
        ConditionTree::InParameterizedRow { column, value } => {
            ident(frags, family, &column);
            lit(frags, " IN ");
            param(frags, params, value);
        },
        ConditionTree::True => {
            lit(frags, "1=1");
        },
    }
}

/// Taking one more condition appends its parameters.
proof fn lemma_spec_conds_params_take(s: Seq<ConditionTree>, k: int)
    requires
        0 < k <= s.len(),
    ensures
        spec_conds_params(s.take(k)) == spec_conds_params(s.take(k - 1)) + spec_cond_params(
            s[k - 1],
        ),
    decreases k,
{
    if k == 1 {
        assert(s.take(1)[0] == s[0]);
        assert(s.take(1).drop_first() =~= Seq::empty());
        assert(s.take(0) =~= Seq::empty());
        assert(spec_conds_params(Seq::empty()) =~= Seq::<PrismaValue>::empty());
        assert(spec_conds_params(s.take(1)) =~= spec_cond_params(s[0]));
        assert(spec_conds_params(s.take(0)) + spec_cond_params(s[0]) =~= spec_cond_params(s[0]));
    } else {
        lemma_spec_conds_params_take(s.drop_first(), k - 1);
        assert(s.take(k)[0] == s[0]);
        assert(s.take(k).drop_first() =~= s.drop_first().take(k - 1));
        assert(s.take(k - 1)[0] == s[0]);
        assert(s.take(k - 1).drop_first() =~= s.drop_first().take(k - 2));
        assert(s.drop_first()[k - 2] == s[k - 1]);
        assert(spec_cond_params(s[0]) + (spec_conds_params(s.drop_first().take(k - 2))
            + spec_cond_params(s[k - 1])) =~= (spec_cond_params(s[0]) + spec_conds_params(
            s.drop_first().take(k - 2),
        )) + spec_cond_params(s[k - 1]));
    }
}

/// Taking one more row appends its parameters.
proof fn lemma_spec_rows_params_take(s: Seq<Vec<PrismaValue>>, k: int)
    requires
        0 < k <= s.len(),
    ensures
        spec_rows_params(s.take(k)) == spec_rows_params(s.take(k - 1)) + s[k - 1]@,
    decreases k,
{
    if k == 1 {
        assert(s.take(1)[0] == s[0]);
        assert(s.take(1).drop_first() =~= Seq::<Vec<PrismaValue>>::empty());
        assert(s.take(0) =~= Seq::<Vec<PrismaValue>>::empty());
        assert(spec_rows_params(Seq::<Vec<PrismaValue>>::empty()) =~= Seq::<PrismaValue>::empty());
        assert(spec_rows_params(s.take(1)) =~= s[0]@);
        assert(spec_rows_params(s.take(0)) + s[0]@ =~= s[0]@);
    } else {
        lemma_spec_rows_params_take(s.drop_first(), k - 1);
        assert(s.take(k)[0] == s[0]);
        assert(s.take(k).drop_first() =~= s.drop_first().take(k - 1));
        assert(s.take(k - 1)[0] == s[0]);
        assert(s.take(k - 1).drop_first() =~= s.drop_first().take(k - 2));
        assert(s.drop_first()[k - 2] == s[k - 1]);
        assert(s[0]@ + (spec_rows_params(s.drop_first().take(k - 2)) + s[k - 1]@) =~= (s[0]@
            + spec_rows_params(s.drop_first().take(k - 2))) + s[k - 1]@);
    }
}

/// Appends an optional `WHERE` clause.
fn visit_where(
    c: Option<ConditionTree>,
    family: SqlFamily,
    frags: &mut Vec<Fragment>,
    params: &mut Vec<PrismaValue>,
)
    ensures
        final(params)@ == old(params)@ + spec_opt_cond_params(c),
        spec_param_count(final(frags)@) == spec_param_count(old(frags)@) + spec_opt_cond_params(
            c,
        ).len(),
{
    match c {
        Some(cond) => {
            lit(frags, " WHERE ");
            visit_condition(cond, family, frags, params);
        },
        None => {
            proof {
                assert(old(params)@ + Seq::<PrismaValue>::empty() =~= old(params)@);
            }
        },
    }
}

/// Appends one select expression; binds nothing.
fn visit_select_expr(e: SelectExpr, family: SqlFamily, frags: &mut Vec<Fragment>)
    ensures
        spec_param_count(final(frags)@) == spec_param_count(old(frags)@),
{
    let alias = match e {
        SelectExpr::Column { name, alias } => {
            ident(frags, family, &name);
            alias
        },
        SelectExpr::RowCount { column, alias } => {
            lit(frags, "COUNT(");
            match column {
                Some(name) => ident(frags, family, &name),
                None => lit(frags, "*"),
            }
            lit(frags, ")");
            alias
        },
        SelectExpr::Average { column, alias } => {
            lit(frags, "AVG(");
            ident(frags, family, &column);
            lit(frags, ")");
            alias
        },
        SelectExpr::Sum { column, alias } => {
            lit(frags, "SUM(");
            ident(frags, family, &column);
            lit(frags, ")");
            alias
        },
        SelectExpr::Min { column, alias } => {
            lit(frags, "MIN(");
            ident(frags, family, &column);
            lit(frags, ")");
            alias
        },
        SelectExpr::Max { column, alias } => {
            lit(frags, "MAX(");
            ident(frags, family, &column);
            lit(frags, ")");
            alias
        },
        SelectExpr::ValueExpr { text, alias } => {
            lit_string(frags, text);
            alias
        },
    };
    match alias {
        Some(a) => {
            lit(frags, " AS ");
            ident(frags, family, &a);
        },
        None => {},
    }
}

/// Lowers a select statement.
fn visit_select(q: SelectQuery, family: SqlFamily, frags: &mut Vec<Fragment>, params: &mut Vec<
    PrismaValue,
>)
    ensures
        final(params)@ == old(params)@ + spec_stmt_params(SqlStatement::Select(q)),
        spec_param_count(final(frags)@) == spec_param_count(old(frags)@) + spec_stmt_params(
            SqlStatement::Select(q),
        ).len(),
{
    lit(frags, "SELECT ");
    let mut exprs = q.columns;
    if exprs.len() == 0 {
        lit(frags, "*");
    }
    let mut first = true;
    while exprs.len() > 0
        invariant
            spec_param_count(frags@) == spec_param_count(old(frags)@),
            params@ == old(params)@,
        decreases exprs@.len(),
    {
        let e = exprs.remove(0);
        if !first {
            lit(frags, ", ");
        }
        first = false;
        visit_select_expr(e, family, frags);
    }
    lit(frags, " FROM ");
    table_ref(frags, family, &q.table);
    match &q.table_alias {
        Some(a) => {
            lit(frags, " AS ");
            ident(frags, family, a);
        },
        None => {},
    }
    let mut joins = q.joins;
    while joins.len() > 0
        invariant
            spec_param_count(frags@) == spec_param_count(old(frags)@),
            params@ == old(params)@,
        decreases joins@.len(),
    {
        let j = joins.remove(0);
        lit(frags, " INNER JOIN ");
        table_ref(frags, family, &j.table);
        match &j.alias {
            Some(a) => {
                lit(frags, " AS ");
                ident(frags, family, a);
            },
            None => {},
        }
        lit(frags, " ON ");
        lit_string(frags, j.on_left);
        lit(frags, " = ");
        lit_string(frags, j.on_right);
    }
    visit_where(q.condition, family, frags, params);
    if q.group_by.len() > 0 {
        lit(frags, " GROUP BY ");
        column_list(frags, family, &q.group_by);
    }
    match q.having {
        Some(h) => {
            lit(frags, " HAVING ");
            visit_condition(h, family, frags, params);
        },
        None => {},
    }
    if q.order_by.len() > 0 {
        lit(frags, " ORDER BY ");
        let mut obs = q.order_by;
        let mut ofirst = true;
        while obs.len() > 0
            invariant
                spec_param_count(frags@) == spec_param_count(old(frags)@) + spec_opt_cond_params(
                    q.condition,
                ).len() + spec_opt_cond_params(q.having).len(),
                params@ == old(params)@ + spec_opt_cond_params(q.condition) + spec_opt_cond_params(
                    q.having,
                ),
            decreases obs@.len(),
        {
            let (col, desc) = obs.remove(0);
            if !ofirst {
                lit(frags, ", ");
            }
            ofirst = false;
            ident(frags, family, &col);
            if desc {
                lit(frags, " DESC");
            }
        }
    }
    match q.limit {
        Some(n) => {
            lit(frags, " LIMIT ");
            param(frags, params, PrismaValue::Int(n as i64));
        },
        None => {},
    }
    match q.offset {
        Some(n) => {
            lit(frags, " OFFSET ");
            param(frags, params, PrismaValue::Int(n as i64));
        },
        None => {},
    }
    proof {
        assert(final(params)@ =~= old(params)@ + spec_stmt_params(SqlStatement::Select(q)));
    }
}

/// Lowers an insert statement; the conflict policy renders in the dialect's
/// own style (`ON CONFLICT DO NOTHING`, `INSERT IGNORE`, `INSERT OR IGNORE`).
fn visit_insert(q: InsertQuery, family: SqlFamily, frags: &mut Vec<Fragment>, params: &mut Vec<
    PrismaValue,
>)
    ensures
        final(params)@ == old(params)@ + spec_stmt_params(SqlStatement::Insert(q)),
        spec_param_count(final(frags)@) == spec_param_count(old(frags)@) + spec_stmt_params(
            SqlStatement::Insert(q),
        ).len(),
{
    let skip_conflict = matches!(q.on_conflict, Some(OnConflict::DoNothing));
    if skip_conflict && matches!(family, SqlFamily::Mysql) {
        lit(frags, "INSERT IGNORE INTO ");
    } else if skip_conflict && matches!(family, SqlFamily::Sqlite) {
        lit(frags, "INSERT OR IGNORE INTO ");
    } else {
        lit(frags, "INSERT INTO ");
    }
    table_ref(frags, family, &q.table);
    lit(frags, " (");
    column_list(frags, family, &q.columns);
    lit(frags, ") ");
    match q.values {
        InsertValues::Rows(rows) => {
            lit(frags, "VALUES ");
            let ghost rows0 = rows@;
            let mut items = rows;
            let mut taken: usize = 0;
            let total = items.len();
            while items.len() > 0
                invariant
                    taken + items@.len() == total,
                    total == rows0.len(),
                    items@ =~= rows0.skip(taken as int),
                    params@ == old(params)@ + spec_rows_params(rows0.take(taken as int)),
                    spec_param_count(frags@) == spec_param_count(old(frags)@) + spec_rows_params(
                        rows0.take(taken as int),
                    ).len(),
                decreases items@.len(),
            {
                proof {
                    assert(rows0.skip(taken as int)[0] == rows0[taken as int]);
                }
                let row = items.remove(0);
                if taken > 0 {
                    lit(frags, ", ");
                }
                lit(frags, "(");
                let ghost row0 = row@;
                let mut vals = row;
                let mut vtaken: usize = 0;
                let vtotal = vals.len();
                while vals.len() > 0
                    invariant
                        vtaken + vals@.len() == vtotal,
                        vtotal == row0.len(),
                        vals@ =~= row0.skip(vtaken as int),
                        params@ == old(params)@ + spec_rows_params(rows0.take(taken as int))
                            + row0.take(vtaken as int),
                        spec_param_count(frags@) == spec_param_count(old(frags)@)
                            + spec_rows_params(rows0.take(taken as int)).len() + vtaken,
                    decreases vals@.len(),
                {
                    proof {
                        assert(row0.skip(vtaken as int)[0] == row0[vtaken as int]);
                    }
                    let v = vals.remove(0);
                    if vtaken > 0 {
                        lit(frags, ", ");
                    }
                    param(frags, params, v);
                    vtaken = vtaken + 1;
                    proof {
                        assert(vals@ =~= row0.skip(vtaken as int));
                        assert(old(params)@ + spec_rows_params(rows0.take(taken as int))
                            + row0.take(vtaken - 1) + seq![row0[vtaken - 1]] =~= old(params)@
                            + spec_rows_params(rows0.take(taken as int)) + row0.take(
                            vtaken as int,
                        ));
                    }
                }
                lit(frags, ")");
                taken = taken + 1;
                proof {
                    assert(row0.take(vtaken as int) =~= row0);
                    assert(items@ =~= rows0.skip(taken as int));
                    lemma_spec_rows_params_take(rows0, taken as int);
                    assert(rows0[taken - 1]@ == row0);
                }
            }
            proof {
                assert(rows0.take(taken as int) =~= rows0);
            }
        },
        InsertValues::Expression(v) => {
            lit(frags, "VALUES (");
            param(frags, params, v);
            lit(frags, ")");
        },
    }
    match q.on_conflict {
        Some(OnConflict::DoNothing) => {
            if matches!(family, SqlFamily::Postgres) {
                lit(frags, " ON CONFLICT DO NOTHING");
            }
            proof {
                assert(final(params)@ =~= old(params)@ + spec_stmt_params(
                    SqlStatement::Insert(q),
                ));
            }
        },
        Some(OnConflict::DoUpdate { constraint_columns, update_sets }) => {
            if matches!(family, SqlFamily::Mysql) {
                lit(frags, " ON DUPLICATE KEY UPDATE ");
            } else {
                lit(frags, " ON CONFLICT (");
                column_list(frags, family, &constraint_columns);
                lit(frags, ") DO UPDATE SET ");
            }
            let ghost sets0 = update_sets@;
            let mut sets = update_sets;
            let mut taken: usize = 0;
            let total = sets.len();
            while sets.len() > 0
                invariant
                    taken + sets@.len() == total,
                    total == sets0.len(),
                    sets@ =~= sets0.skip(taken as int),
                    params@ == old(params)@ + spec_stmt_params_insert_prefix(q) + spec_sets_params(
                        sets0.take(taken as int),
                    ),
                    spec_param_count(frags@) == spec_param_count(old(frags)@)
                        + spec_stmt_params_insert_prefix(q).len() + taken,
                decreases sets@.len(),
            {
                proof {
                    assert(sets0.skip(taken as int)[0] == sets0[taken as int]);
                }
                let (col, v) = sets.remove(0);
                if taken > 0 {
                    lit(frags, ", ");
                }
                ident(frags, family, &col);
                lit(frags, " = ");
                param(frags, params, v);
                taken = taken + 1;
                proof {
                    assert(sets@ =~= sets0.skip(taken as int));
                    assert(spec_sets_params(sets0.take(taken as int)) =~= spec_sets_params(
                        sets0.take(taken - 1),
                    ) + seq![sets0[taken - 1].1]);
                    assert(old(params)@ + spec_stmt_params_insert_prefix(q) + spec_sets_params(
                        sets0.take(taken - 1),
                    ) + seq![sets0[taken - 1].1] =~= old(params)@ + spec_stmt_params_insert_prefix(
                        q,
                    ) + spec_sets_params(sets0.take(taken as int)));
                }
            }
            proof {
                assert(spec_sets_params(sets0.take(taken as int)) =~= spec_sets_params(sets0));
                assert(final(params)@ =~= old(params)@ + spec_stmt_params(
                    SqlStatement::Insert(q),
                ));
            }
        },
        None => {
            proof {
                assert(final(params)@ =~= old(params)@ + spec_stmt_params(
                    SqlStatement::Insert(q),
                ));
            }
        },
    }
    match &q.returning {
        Some(cols) => {
            lit(frags, " RETURNING ");
            column_list(frags, family, cols);
        },
        None => {},
    }
}

/// The insert's parameters before any conflict-update assignments.
pub open spec fn spec_stmt_params_insert_prefix(q: InsertQuery) -> Seq<PrismaValue> {
    match q.values {
        InsertValues::Rows(rows) => spec_rows_params(rows@),
        InsertValues::Expression(v) => seq![v],
    }
}

/// Lowers an update statement.
fn visit_update(q: UpdateQuery, family: SqlFamily, frags: &mut Vec<Fragment>, params: &mut Vec<
    PrismaValue,
>)
    ensures
        final(params)@ == old(params)@ + spec_stmt_params(SqlStatement::Update(q)),
        spec_param_count(final(frags)@) == spec_param_count(old(frags)@) + spec_stmt_params(
            SqlStatement::Update(q),
        ).len(),
{
    lit(frags, "UPDATE ");
    table_ref(frags, family, &q.table);
    lit(frags, " SET ");
    let ghost sets0 = q.sets@;
    let mut sets = q.sets;
    let mut taken: usize = 0;
    let total = sets.len();
    while sets.len() > 0
        invariant
            taken + sets@.len() == total,
            total == sets0.len(),
            sets@ =~= sets0.skip(taken as int),
            params@ == old(params)@ + spec_sets_params(sets0.take(taken as int)),
            spec_param_count(frags@) == spec_param_count(old(frags)@) + taken,
        decreases sets@.len(),
    {
        proof {
            assert(sets0.skip(taken as int)[0] == sets0[taken as int]);
        }
        let (col, v) = sets.remove(0);
        if taken > 0 {
            lit(frags, ", ");
        }
        ident(frags, family, &col);
        lit(frags, " = ");
        param(frags, params, v);
        taken = taken + 1;
        proof {
            assert(sets@ =~= sets0.skip(taken as int));
            assert(old(params)@ + spec_sets_params(sets0.take(taken - 1)) + seq![sets0[taken
                - 1].1] =~= old(params)@ + spec_sets_params(sets0.take(taken as int)));
        }
    }
    proof {
        assert(spec_sets_params(sets0.take(taken as int)) =~= spec_sets_params(sets0));
    }
    visit_where(q.condition, family, frags, params);
    match &q.returning {
        Some(cols) => {
            lit(frags, " RETURNING ");
            column_list(frags, family, cols);
        },
        None => {},
    }
    proof {
        assert(final(params)@ =~= old(params)@ + spec_stmt_params(SqlStatement::Update(q)));
    }
}

/// Lowers a delete statement.
fn visit_delete(q: DeleteQuery, family: SqlFamily, frags: &mut Vec<Fragment>, params: &mut Vec<
    PrismaValue,
>)
    ensures
        final(params)@ == old(params)@ + spec_stmt_params(SqlStatement::Delete(q)),
        spec_param_count(final(frags)@) == spec_param_count(old(frags)@) + spec_stmt_params(
            SqlStatement::Delete(q),
        ).len(),
{
    lit(frags, "DELETE FROM ");
    table_ref(frags, family, &q.table);
    visit_where(q.condition, family, frags, params);
    match &q.returning {
        Some(cols) => {
            lit(frags, " RETURNING ");
            column_list(frags, family, cols);
        },
        None => {},
    }
}

/// The lowered form of one statement.
pub struct SqlTemplate {
    pub fragments: Vec<Fragment>,
    pub placeholder_format: PlaceholderFormat,
    pub parameters: Vec<PrismaValue>,
}

/// Lowers a statement to a template: the collected parameters are exactly
/// the statement's parameters in rendering order, one per parameter position,
/// and the placeholder format is the dialect's.
pub fn build_template(stmt: SqlStatement, family: SqlFamily) -> (r: SqlTemplate)
    ensures
        r.parameters@ == spec_stmt_params(stmt),
        spec_param_count(r.fragments@) == r.parameters@.len(),
        family == SqlFamily::Postgres ==> r.placeholder_format.prefix@ == "$"@
            && r.placeholder_format.base_index == Some(1usize),
        family == SqlFamily::Mysql ==> r.placeholder_format.prefix@ == "?"@
            && r.placeholder_format.base_index is None,
        family == SqlFamily::Sqlite ==> r.placeholder_format.prefix@ == "?"@
            && r.placeholder_format.base_index is None,
        family == SqlFamily::Mssql ==> r.placeholder_format.prefix@ == "@P"@
            && r.placeholder_format.base_index == Some(1usize),
{
    let mut fragments: Vec<Fragment> = Vec::new();
    let mut parameters: Vec<PrismaValue> = Vec::new();
    match stmt {
        SqlStatement::Select(q) => visit_select(q, family, &mut fragments, &mut parameters),
        SqlStatement::Insert(q) => visit_insert(q, family, &mut fragments, &mut parameters),
        SqlStatement::Update(q) => visit_update(q, family, &mut fragments, &mut parameters),
        SqlStatement::Delete(q) => visit_delete(q, family, &mut fragments, &mut parameters),
    }
    proof {
        assert(Seq::<PrismaValue>::empty() + spec_stmt_params(stmt) =~= spec_stmt_params(stmt));
    }
    SqlTemplate { fragments, placeholder_format: family.placeholder_format(), parameters }
}

/// The SQL text a template renders to: literal fragments concatenated, each
/// parameter position replaced by the placeholder prefix, followed by the
/// running index when the dialect numbers its placeholders.
pub open spec fn spec_render(
    frags: Seq<Fragment>,
    prefix: Seq<char>,
    numbered: bool,
    idx: int,
) -> Seq<char>
    decreases frags.len(),
{
    if frags.len() == 0 {
        Seq::empty()
    } else {
        match frags[0] {
            Fragment::Literal(t) => t@ + spec_render(frags.drop_first(), prefix, numbered, idx),
            Fragment::Parameter => prefix + (if numbered {
                crate::values::spec_decimal(idx as nat)
            } else {
                Seq::empty()
            }) + spec_render(frags.drop_first(), prefix, numbered, idx + 1),
        }
    }
}

/// Renders a template to final SQL: literal fragments in order, each
/// parameter position replaced by the dialect's placeholder, numbered from
/// the format's base index when the dialect numbers its placeholders.
pub fn render_sql(fragments: &Vec<Fragment>, format: &PlaceholderFormat) -> (r: String)
    requires
        (match format.base_index {
            Some(b) => b as int,
            None => 0int,
        }) + spec_param_count(fragments@) <= usize::MAX,
    ensures
        r@ == spec_render(
            fragments@,
            format.prefix@,
            format.base_index is Some,
            match format.base_index {
                Some(b) => b as int,
                None => 0int,
            },
        ),
{
    let mut out = String::new();
    let mut index: usize = match format.base_index {
        Some(b) => b,
        None => 0,
    };
    let ghost idx0: int = index as int;
    let ghost numbered = format.base_index is Some;
    let mut i: usize = 0;
    proof {
        assert(fragments@.skip(0) =~= fragments@);
    }
    while i < fragments.len()
        invariant
            i <= fragments@.len(),
            numbered == (format.base_index is Some),
            index as int == idx0 + spec_param_count(fragments@.take(i as int)),
            idx0 + spec_param_count(fragments@) <= usize::MAX,
            out@ + spec_render(fragments@.skip(i as int), format.prefix@, numbered, index as int)
                == spec_render(fragments@, format.prefix@, numbered, idx0),
        decreases fragments@.len() - i,
    {
        proof {
            assert(fragments@.skip(i as int)[0] == fragments@[i as int]);
            assert(fragments@.skip(i as int).drop_first() =~= fragments@.skip(i + 1));
            assert(fragments@.take(i + 1) =~= fragments@.take(i as int).push(
                fragments@[i as int],
            ));
            crate::sql_ast::lemma_spec_param_count_push(
                fragments@.take(i as int),
                fragments@[i as int],
            );
            lemma_spec_param_count_prefix(fragments@, i as int);
            lemma_spec_param_count_prefix(fragments@, i + 1);
        }
        match &fragments[i] {
            Fragment::Literal(text) => {
                out.append(text.as_str());
                proof {
                    assert(out@ + spec_render(
                        fragments@.skip(i + 1),
                        format.prefix@,
                        numbered,
                        index as int,
                    ) =~= spec_render(fragments@, format.prefix@, numbered, idx0));
                }
            },
            Fragment::Parameter => {
                out.append(format.prefix.as_str());
                if format.base_index.is_some() {
                    let digits = usize_to_decimal(index);
                    out.append(digits.as_str());
                }
                index = index + 1;
                proof {
                    assert(out@ + spec_render(
                        fragments@.skip(i + 1),
                        format.prefix@,
                        numbered,
                        index as int,
                    ) =~= spec_render(fragments@, format.prefix@, numbered, idx0));
                }
            },
        }
        i = i + 1;
    }
    proof {
        assert(fragments@.skip(i as int).len() == 0);
        assert(out@ =~= spec_render(fragments@, format.prefix@, numbered, idx0));
    }
    out
}

/// The parameters among a prefix never exceed the whole count.
proof fn lemma_spec_param_count_prefix(frags: Seq<Fragment>, i: int)
    requires
        0 <= i <= frags.len(),
    ensures
        spec_param_count(frags.take(i)) <= spec_param_count(frags),
    decreases i,
{
    if i > 0 {
        lemma_spec_param_count_prefix(frags, i - 1);
        assert(frags.take(i) =~= frags.take(i - 1).push(frags[i - 1]));
        crate::sql_ast::lemma_spec_param_count_push(frags.take(i - 1), frags[i - 1]);
        lemma_spec_param_count_drop(frags, i);
    }
}

/// Dropping a prefix bounds the prefix's parameter count by the whole.
proof fn lemma_spec_param_count_drop(frags: Seq<Fragment>, i: int)
    requires
        0 <= i <= frags.len(),
    ensures
        spec_param_count(frags) == spec_param_count(frags.take(i)) + spec_param_count(
            frags.skip(i),
        ),
    decreases i,
{
    if i == 0 {
        assert(frags.take(0) =~= Seq::<Fragment>::empty());
        assert(frags.skip(0) =~= frags);
        assert(spec_param_count(Seq::<Fragment>::empty()) == 0);
    } else {
        lemma_spec_param_count_drop(frags, i - 1);
        assert(frags.take(i) =~= frags.take(i - 1).push(frags[i - 1]));
        crate::sql_ast::lemma_spec_param_count_push(frags.take(i - 1), frags[i - 1]);
        assert(frags.skip(i - 1)[0] == frags[i - 1]);
        assert(frags.skip(i - 1).drop_first() =~= frags.skip(i));
    }
}

} // verus!
