//! Single-record update planning: the decision between reading and
//! updating, the identifier arguments picked out of a write, and the
//! in-memory merge of changed identifiers into the returned rows.
use vstd::prelude::*;

use crate::builder::{BuildError, SqlQueryBuilder};
use crate::filter::{build_update_one_filter, rows_view, spec_update_one_filter, Filter,
    RecordFilter};
use crate::model::ModelDef;
use crate::sql_ast::DbQuery;
use crate::values::{
    pairs_view, row_lookup, PrismaValue, PvView, SelectionResult, WriteArgs,
};

verus! {

/// The pairs of the argument list whose field is in the selection, among the
/// first `k`, in argument order.
pub open spec fn spec_pick_upto(
    args: Seq<(usize, PvView)>,
    selection: Seq<usize>,
    k: int,
) -> Seq<(usize, PvView)>
    decreases k,
{
    if k <= 0 {
        Seq::empty()
    } else {
        spec_pick_upto(args, selection, k - 1) + (if selection.contains(args[k - 1].0) {
            seq![args[k - 1]]
        } else {
            Seq::empty()
        })
    }
}

/// Picks the arguments whose field belongs to the selection, in argument
/// order.
pub fn pick_args(selection: &Vec<usize>, args: &WriteArgs) -> (r: WriteArgs)
    ensures
        r@ == spec_pick_upto(args@, selection@, args@.len() as int),
{
    let mut out: Vec<(usize, PrismaValue)> = Vec::new();
    let mut i: usize = 0;
    while i < args.args.len()
        invariant
            i <= args.args@.len(),
            args@.len() == args.args@.len(),
            pairs_view(out@) == spec_pick_upto(args@, selection@, i as int),
        decreases args.args@.len() - i,
    {
        let f = args.args[i].0;
        let mut found = false;
        let mut j: usize = 0;
        while j < selection.len()
            invariant
                j <= selection@.len(),
                found == exists|k: int| 0 <= k < j && selection@[k] == f,
            decreases selection@.len() - j,
        {
            if selection[j] == f {
                found = true;
            }
            j = j + 1;
        }
        proof {
            assert(found == selection@.contains(f));
        }
        if found {
            let v = args.args[i].1.clone();
            out.push((f, v));
            proof {
                assert(args@[i as int] == (args.args@[i as int].0, crate::values::pv_view(
                    args.args@[i as int].1,
                )));
                assert(pairs_view(out@) =~= spec_pick_upto(args@, selection@, i + 1));
            }
        }
        i = i + 1;
    }
    WriteArgs { args: out }
}

/// The merge of one row with the identifier arguments: each field the
/// arguments set takes the argument's value, every other field keeps its
/// own.
pub open spec fn spec_merge_row(
    row: Seq<(usize, PvView)>,
    id_args: Seq<(usize, PvView)>,
) -> Seq<(usize, PvView)> {
    Seq::new(
        row.len(),
        |j: int|
            (
                row[j].0,
                match row_lookup(id_args, row[j].0) {
                    Some(v) => v,
                    None => row[j].1,
                },
            ),
    )
}

/// Merges changed identifier arguments into the returned identifier rows,
/// so that operations after an update see the updated identifiers.
pub fn merge_write_args(ids: Vec<SelectionResult>, id_args: &WriteArgs) -> (r: Vec<
    SelectionResult,
>)
    ensures
        r@.len() == ids@.len(),
        forall|i: int|
            0 <= i < ids@.len() ==> #[trigger] rows_view(r@)[i] == spec_merge_row(
                rows_view(ids@)[i],
                id_args@,
            ),
{
    let ghost ids0 = ids@;
    let mut out: Vec<SelectionResult> = Vec::new();
    let mut rest = ids;
    let mut taken: usize = 0;
    let total = rest.len();
    while rest.len() > 0
        invariant
            taken + rest@.len() == total,
            total == ids0.len(),
            rest@ =~= ids0.skip(taken as int),
            out@.len() == taken,
            forall|i: int|
                0 <= i < taken ==> #[trigger] pairs_view(out@[i].pairs@) == spec_merge_row(
                    rows_view(ids0)[i],
                    id_args@,
                ),
        decreases rest@.len(),
    {
        proof {
            assert(ids0.skip(taken as int)[0] == ids0[taken as int]);
        }
        let row = rest.remove(0);
        let ghost row_v = pairs_view(row.pairs@);
        let mut pairs: Vec<(usize, PrismaValue)> = Vec::new();
        let mut j: usize = 0;
        while j < row.pairs.len()
            invariant
                j <= row.pairs@.len(),
                row_v == pairs_view(row.pairs@),
                pairs@.len() == j,
                forall|k: int|
                    0 <= k < j ==> #[trigger] pairs_view(pairs@)[k] == spec_merge_row(
                        row_v,
                        id_args@,
                    )[k],
            decreases row.pairs@.len() - j,
        {
            let f = row.pairs[j].0;
            let ghost p0 = pairs@;
            match id_args.lookup(f) {
                Some(v) => {
                    pairs.push((f, v.clone()));
                },
                None => {
                    pairs.push((f, row.pairs[j].1.clone()));
                },
            }
            j = j + 1;
            proof {
                assert(row_v[j - 1] == (row.pairs@[j - 1].0, crate::values::pv_view(
                    row.pairs@[j - 1].1,
                )));
                assert forall|k: int| 0 <= k < j implies #[trigger] pairs_view(pairs@)[k]
                    == spec_merge_row(row_v, id_args@)[k] by {
                    if k < j - 1 {
                        assert(pairs@[k] == p0[k]);
                        assert(pairs_view(pairs@)[k] == pairs_view(p0)[k]);
                    } else {
                        assert(pairs_view(pairs@)[k] == (pairs@[k].0, crate::values::pv_view(
                            pairs@[k].1,
                        )));
                    }
                }
            }
        }
        proof {
            assert(pairs_view(pairs@) =~= spec_merge_row(row_v, id_args@));
            assert(rows_view(ids0)[taken as int] == row_v);
        }
        out.push(SelectionResult { pairs });
        taken = taken + 1;
        proof {
            assert(rest@ =~= ids0.skip(taken as int));
        }
    }
    proof {
        assert forall|i: int| 0 <= i < ids0.len() implies #[trigger] rows_view(out@)[i]
            == spec_merge_row(rows_view(ids0)[i], id_args@) by {
            assert(rows_view(out@)[i] == pairs_view(out@[i].pairs@));
        }
    }
    out
}

/// Builds one row from the selected fields and the values a result row came
/// back with, in order.
pub fn process_result_row(fields: &Vec<usize>, values: Vec<PrismaValue>) -> (r: SelectionResult)
    requires
        fields@.len() == values@.len(),
    ensures
        r@.len() == fields@.len(),
        forall|i: int|
            0 <= i < r@.len() ==> (#[trigger] r@[i]).0 == fields@[i] && r@[i].1
                == crate::values::pv_view(values@[i]),
{
    let ghost values0 = values@;
    let mut pairs: Vec<(usize, PrismaValue)> = Vec::new();
    let mut rest = values;
    let mut taken: usize = 0;
    let total = rest.len();
    while rest.len() > 0
        invariant
            taken + rest@.len() == total,
            total == values0.len(),
            total == fields@.len(),
            rest@ =~= values0.skip(taken as int),
            pairs@.len() == taken,
            forall|i: int|
                0 <= i < taken ==> (#[trigger] pairs@[i]).0 == fields@[i] && pairs@[i].1
                    == values0[i],
        decreases rest@.len(),
    {
        proof {
            assert(values0.skip(taken as int)[0] == values0[taken as int]);
        }
        let v = rest.remove(0);
        pairs.push((fields[taken], v));
        taken = taken + 1;
        proof {
            assert(rest@ =~= values0.skip(taken as int));
        }
    }
    let r = SelectionResult { pairs };
    proof {
        assert forall|i: int| 0 <= i < r@.len() implies (#[trigger] r@[i]).0 == fields@[i]
            && r@[i].1 == crate::values::pv_view(values0[i]) by {
            assert(r@[i] == (pairs@[i].0, crate::values::pv_view(pairs@[i].1)));
        }
    }
    r
}

/// The plan of a single-record update with an explicit selection: with no
/// arguments there is nothing to write, so the record is just read back by
/// the combined filter; otherwise one update-returning statement runs.
#[derive(Debug)]
pub enum UpdateOnePlan {
    ReadRecord { filter: Filter },
    UpdateReturning { query: DbQuery },
}

/// Plans a single-record update with an explicit selection set, for
/// connections that can return the updated columns.
pub fn update_one_with_selection(
    builder: &SqlQueryBuilder,
    model: &ModelDef,
    record_filter: RecordFilter,
    args: WriteArgs,
    selected_fields: &Vec<usize>,
) -> (r: Result<UpdateOnePlan, BuildError>)
    ensures
        args@.len() == 0 ==> (r matches Ok(p) && (p matches UpdateOnePlan::ReadRecord { filter }
            && filter@ == spec_update_one_filter(
            record_filter.filter@,
            match record_filter.selectors {
                Some(s) => Some(rows_view(s@)),
                None => None,
            },
        ))),
        args@.len() > 0 ==> (r matches Ok(p) ==> p matches UpdateOnePlan::UpdateReturning { .. }),
        args@.len() > 0 ==> (r is Ok <==> (crate::builder::spec_filter_ok(
            spec_update_one_filter(
                record_filter.filter@,
                match record_filter.selectors {
                    Some(s) => Some(rows_view(s@)),
                    None => None,
                },
            ),
            model.columns@,
        ) && crate::builder::spec_fields_ok(
            crate::builder::spec_args_fields(args@),
            model.columns@,
        ))),
{
    if args.args.len() == 0 {
        let filter = build_update_one_filter(record_filter);
        Ok(UpdateOnePlan::ReadRecord { filter })
    } else {
        match builder.build_update(model, record_filter, args, Some(selected_fields)) {
            Ok(query) => Ok(UpdateOnePlan::UpdateReturning { query }),
            Err(e) => Err(e),
        }
    }
}

/// The plan of a single-record update without a selection: with no
/// arguments the resolved identifiers are simply read; otherwise the chunked
/// updates run, and the identifier arguments are merged into the returned
/// identifiers afterwards.
#[derive(Debug)]
pub enum UpdateOneWithoutSelectionPlan {
    ReadIds,
    Apply { id_args: WriteArgs, updates: Vec<DbQuery> },
}

/// Plans a single-record update without a selection set, for connections
/// that cannot return updated columns: the caller reads the identifiers
/// first, runs the updates, and merges `id_args` into the identifiers with
/// `merge_write_args`.
pub fn update_one_without_selection(
    builder: &SqlQueryBuilder,
    model: &ModelDef,
    record_filter: RecordFilter,
    args: WriteArgs,
) -> (r: Result<UpdateOneWithoutSelectionPlan, BuildError>)
    ensures
        args@.len() == 0 ==> (r matches Ok(p) && p matches
            UpdateOneWithoutSelectionPlan::ReadIds),
        args@.len() > 0 ==> (r is Ok <==> (record_filter.selectors is Some
            && crate::builder::spec_fields_ok(model.primary_identifier@, model.columns@)
            && crate::builder::spec_filter_ok(record_filter.filter@, model.columns@)
            && crate::builder::spec_fields_ok(
            crate::builder::spec_args_fields(args@),
            model.columns@,
        ))),
        args@.len() > 0 ==> (r matches Ok(p) ==> (p matches
            UpdateOneWithoutSelectionPlan::Apply { id_args, .. } && id_args@ == spec_pick_upto(
            args@,
            model.primary_identifier@,
            args@.len() as int,
        ))),
{
    if args.args.len() == 0 {
        return Ok(UpdateOneWithoutSelectionPlan::ReadIds);
    }
    let id_args = pick_args(&model.primary_identifier, &args);
    match builder.build_updates(model, record_filter, args, None) {
        Ok(updates) => Ok(UpdateOneWithoutSelectionPlan::Apply { id_args, updates }),
        Err(e) => Err(e),
    }
}

} // verus!
