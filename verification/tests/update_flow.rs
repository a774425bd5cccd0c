//! Tests of update planning, filter combination, identifier merging, and
//! the compilation entry point.
use query_compiler::builder::SqlQueryBuilder;
use query_compiler::compile::{compile, compile_with_dynamic_schema};
use query_compiler::context::{ConnectionInfo, Context};
use query_compiler::default_value::DefaultValue;
use query_compiler::dialect::SqlFamily;
use query_compiler::dynamic_schema::DynamicSchema;
use query_compiler::error::CompileError;
use query_compiler::expression::Expression;
use query_compiler::filter::{build_update_one_filter, Filter, RecordFilter};
use query_compiler::graph::{Node, QueryGraph, QueryNode, QueryOp};
use query_compiler::model::{ColumnDef, ModelDef};
use query_compiler::update::{
    merge_write_args, pick_args, process_result_row, update_one_with_selection,
    update_one_without_selection, UpdateOnePlan, UpdateOneWithoutSelectionPlan,
};
use query_compiler::values::{PrismaValue, PrismaValueType, SelectionResult, WriteArgs};

fn model() -> ModelDef {
    ModelDef {
        db_name: "users".to_string(),
        origin_schema: None,
        columns: vec![
            ColumnDef {
                field_id: 1,
                db_name: "id".to_string(),
                type_tag: PrismaValueType::IntType,
                nullable: false,
                default: Option::<DefaultValue>::None,
            },
            ColumnDef {
                field_id: 2,
                db_name: "name".to_string(),
                type_tag: PrismaValueType::TextType,
                nullable: true,
                default: None,
            },
        ],
        primary_identifier: vec![1],
        unique_indexes: Vec::new(),
        updated_at_fields: Vec::new(),
    }
}

fn connection() -> ConnectionInfo {
    ConnectionInfo {
        family: SqlFamily::Postgres,
        schema_name: Some("public".to_string()),
        max_insert_rows: None,
        max_bind_values: 100,
    }
}

fn int_row(field: usize, n: i64) -> SelectionResult {
    SelectionResult { pairs: vec![(field, PrismaValue::Int(n))] }
}

fn query_node() -> Node {
    Node::Query(QueryNode {
        op: QueryOp::Read,
        model: Some(1),
        parent_result: None,
        parent_results: Vec::new(),
        filter: None,
        write_args: Vec::new(),
        updated_at_fields: Vec::new(),
    })
}

#[test]
fn update_one_filter_conjoins_selectors_with_the_filter() {
    let rf = RecordFilter {
        filter: Filter::Equals { field: 2, value: PrismaValue::Text("Ada".to_string()) },
        selectors: Some(vec![int_row(1, 7)]),
    };
    match build_update_one_filter(rf) {
        Filter::And(parts) => {
            assert_eq!(parts.len(), 2);
            match &parts[0] {
                Filter::In { fields, rows } => {
                    assert_eq!(fields, &vec![1]);
                    assert_eq!(rows.len(), 1);
                }
                other => panic!("expected the selector membership filter, got {:?}", other),
            }
            assert!(matches!(parts[1], Filter::Equals { field: 2, .. }));
        }
        other => panic!("expected a conjunction, got {:?}", other),
    }
}

#[test]
fn update_one_filter_without_selectors_is_the_filter_itself() {
    let rf = RecordFilter {
        filter: Filter::Equals { field: 1, value: PrismaValue::Int(3) },
        selectors: None,
    };
    assert!(matches!(build_update_one_filter(rf), Filter::Equals { field: 1, .. }));
}

#[test]
fn update_with_empty_args_just_reads_the_record() {
    let builder = SqlQueryBuilder::new(Context::new(connection(), None));
    let rf = RecordFilter { filter: Filter::Empty, selectors: Some(vec![int_row(1, 7)]) };
    let plan = update_one_with_selection(
        &builder,
        &model(),
        rf,
        WriteArgs { args: Vec::new() },
        &vec![1, 2],
    )
    .unwrap();
    assert!(matches!(plan, UpdateOnePlan::ReadRecord { .. }));
}

#[test]
fn update_with_args_updates_and_returns() {
    let builder = SqlQueryBuilder::new(Context::new(connection(), None));
    let rf = RecordFilter { filter: Filter::Empty, selectors: Some(vec![int_row(1, 7)]) };
    let args = WriteArgs { args: vec![(2, PrismaValue::Text("Grace".to_string()))] };
    let plan = update_one_with_selection(&builder, &model(), rf, args, &vec![1, 2]).unwrap();
    assert!(matches!(plan, UpdateOnePlan::UpdateReturning { .. }));
}

#[test]
fn update_without_selection_picks_identifier_args_for_the_merge() {
    let builder = SqlQueryBuilder::new(Context::new(connection(), None));
    let rf = RecordFilter { filter: Filter::Empty, selectors: Some(vec![int_row(1, 7)]) };
    let args = WriteArgs {
        args: vec![
            (2, PrismaValue::Text("Grace".to_string())),
            (1, PrismaValue::Int(8)),
        ],
    };
    let plan = update_one_without_selection(&builder, &model(), rf, args).unwrap();
    match plan {
        UpdateOneWithoutSelectionPlan::Apply { id_args, updates } => {
            assert_eq!(id_args.args.len(), 1);
            assert_eq!(id_args.args[0].0, 1);
            assert_eq!(updates.len(), 1);
        }
        other => panic!("expected the apply plan, got {:?}", other),
    }
}

#[test]
fn update_without_selection_and_without_args_reads_the_ids() {
    let builder = SqlQueryBuilder::new(Context::new(connection(), None));
    let rf = RecordFilter { filter: Filter::Empty, selectors: Some(vec![int_row(1, 7)]) };
    let plan =
        update_one_without_selection(&builder, &model(), rf, WriteArgs { args: Vec::new() })
            .unwrap();
    assert!(matches!(plan, UpdateOneWithoutSelectionPlan::ReadIds));
}

#[test]
fn merged_identifiers_take_the_updated_values() {
    let ids = vec![int_row(1, 7), int_row(1, 9)];
    let id_args = WriteArgs { args: vec![(1, PrismaValue::Int(42))] };
    let merged = merge_write_args(ids, &id_args);
    assert_eq!(merged.len(), 2);
    for row in &merged {
        assert!(row.pairs[0].1.eq_value(&PrismaValue::Int(42)));
    }
    let untouched = merge_write_args(vec![int_row(3, 5)], &id_args);
    assert!(untouched[0].pairs[0].1.eq_value(&PrismaValue::Int(5)));
}

#[test]
fn picked_args_keep_argument_order() {
    let args = WriteArgs {
        args: vec![
            (2, PrismaValue::Text("x".to_string())),
            (1, PrismaValue::Int(1)),
            (3, PrismaValue::Int(3)),
        ],
    };
    let picked = pick_args(&vec![1, 3], &args);
    assert_eq!(picked.args.len(), 2);
    assert_eq!(picked.args[0].0, 1);
    assert_eq!(picked.args[1].0, 3);
}

#[test]
fn result_rows_zip_fields_with_values() {
    let row = process_result_row(&vec![1, 2], vec![
        PrismaValue::Int(7),
        PrismaValue::Text("Ada".to_string()),
    ]);
    assert_eq!(row.pairs.len(), 2);
    assert_eq!(row.pairs[0].0, 1);
    assert_eq!(row.pairs[1].0, 2);
}

#[test]
fn compile_refuses_more_than_one_query() {
    let g1 = QueryGraph::new();
    let g2 = QueryGraph::new();
    match compile(vec![g1, g2], connection()) {
        Err(CompileError::UnsupportedRequest) => {}
        other => panic!("expected the single-query rule, got {:?}", other.map(|_| ())),
    }
}

#[test]
fn compile_translates_a_single_graph() {
    let mut g = QueryGraph::new();
    let a = g.add_node(query_node());
    g.mark_result(a);
    let mut ds = DynamicSchema::new();
    ds.insert("public".to_string(), "tenant_1".to_string());
    let (expr, builder) = compile_with_dynamic_schema(vec![g], connection(), ds).unwrap();
    match expr {
        Expression::Sequence { seq } => assert_eq!(seq.len(), 1),
        other => panic!("expected a sequence, got {:?}", other),
    }
    assert_eq!(
        builder.context.target_schema(&"public".to_string()).unwrap(),
        "tenant_1"
    );
}

#[test]
fn column_metadata_describes_the_selected_fields() {
    let meta = query_compiler::model::column_metadata(&model(), &vec![1, 2]);
    assert_eq!(meta.len(), 2);
    assert_eq!(meta[0].name, "id");
    assert!(!meta[0].nullable);
    assert_eq!(meta[1].name, "name");
    assert!(meta[1].nullable);
}

#[test]
fn value_equality_is_deep() {
    let a = PrismaValue::List(vec![PrismaValue::Int(1), PrismaValue::Text("x".to_string())]);
    let b = PrismaValue::List(vec![PrismaValue::Int(1), PrismaValue::Text("x".to_string())]);
    let c = PrismaValue::List(vec![PrismaValue::Int(2), PrismaValue::Text("x".to_string())]);
    assert!(a.eq_value(&b));
    assert!(!a.eq_value(&c));
    assert!(!a.eq_value(&PrismaValue::Null));
}
