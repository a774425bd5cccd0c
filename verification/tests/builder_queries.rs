//! Tests of the SQL query builder: table qualification through the dynamic
//! schema, parameter chunking, dialect rendering, and the MySQL insert
//! defaults policy.
use query_compiler::builder::{
    as_table, chunk_records, chunked_conditions, db_name_with_schema, in_conditions,
    SqlQueryBuilder,
};
use query_compiler::context::{Alias, ConnectionInfo, Context};
use query_compiler::default_value::{DefaultValue, ValueGenerator};
use query_compiler::dialect::{set_tx_isolation_cmd, SqlFamily};
use query_compiler::dynamic_schema::DynamicSchema;
use query_compiler::model::{ColumnDef, ModelDef, QueryArguments, RelationFieldDef,
    RelationLoadStrategy};
use query_compiler::sql_ast::{ConditionTree, DbQuery};
use query_compiler::values::{PrismaValue, PrismaValueType, SelectionResult, WriteArgs};
use query_compiler::visitor::render_sql;

fn users_model(origin_schema: Option<&str>) -> ModelDef {
    ModelDef {
        db_name: "users".to_string(),
        origin_schema: origin_schema.map(|s| s.to_string()),
        columns: vec![
            ColumnDef {
                field_id: 1,
                db_name: "id".to_string(),
                type_tag: PrismaValueType::IntType,
                nullable: false,
                default: Some(DefaultValue::new_expression(ValueGenerator::new_uuid(4))),
            },
            ColumnDef {
                field_id: 2,
                db_name: "name".to_string(),
                type_tag: PrismaValueType::TextType,
                nullable: true,
                default: None,
            },
        ],
        primary_identifier: vec![1],
        unique_indexes: vec![vec![2]],
        updated_at_fields: Vec::new(),
    }
}

fn connection(family: SqlFamily, max_bind_values: usize) -> ConnectionInfo {
    ConnectionInfo {
        family,
        schema_name: Some("public".to_string()),
        max_insert_rows: None,
        max_bind_values,
    }
}

fn int_row(field: usize, n: i64) -> SelectionResult {
    SelectionResult { pairs: vec![(field, PrismaValue::Int(n))] }
}

#[test]
fn dynamic_schema_parses_a_json_object() {
    let ds = DynamicSchema::from_str(Some("{\"public\":\"tenant_42\"}".to_string()));
    assert!(!ds.is_empty());
    assert_eq!(ds.get(&"public".to_string()).unwrap(), "tenant_42");
    assert!(ds.get(&"other".to_string()).is_none());
}

#[test]
fn dynamic_schema_degrades_to_empty_on_malformed_input() {
    assert!(DynamicSchema::from_str(Some("{not json".to_string())).is_empty());
    assert!(DynamicSchema::from_str(Some("[1,2]".to_string())).is_empty());
    assert!(DynamicSchema::from_str(None).is_empty());
}

#[test]
fn empty_dynamic_schema_is_the_identity_mapping() {
    let ctx = Context::new(connection(SqlFamily::Postgres, 100), None);
    assert_eq!(ctx.target_schema(&"public".to_string()).unwrap(), "public");
}

#[test]
fn non_empty_dynamic_schema_resolves_only_listed_origins() {
    let mut ds = DynamicSchema::new();
    ds.insert("public".to_string(), "tenant_42".to_string());
    let ctx = Context::new_with_dynamic_schema(connection(SqlFamily::Postgres, 100), ds, None);
    assert_eq!(ctx.target_schema(&"public".to_string()).unwrap(), "tenant_42");
    assert!(ctx.target_schema(&"sales".to_string()).is_none());
}

#[test]
fn table_qualification_remaps_the_origin_schema() {
    let mut ds = DynamicSchema::new();
    ds.insert("public".to_string(), "tenant_42".to_string());
    let ctx = Context::new_with_dynamic_schema(connection(SqlFamily::Postgres, 100), ds, None);
    let model = users_model(Some("public"));
    let table = db_name_with_schema(&model, &ctx);
    assert_eq!(table.schema.as_deref(), Some("tenant_42"));
    assert_eq!(table.name, "users");
}

#[test]
fn table_qualification_falls_back_to_the_origin_and_then_the_default() {
    let mut ds = DynamicSchema::new();
    ds.insert("sales".to_string(), "tenant_9".to_string());
    let ctx = Context::new_with_dynamic_schema(connection(SqlFamily::Postgres, 100), ds, None);
    let unmapped = users_model(Some("public"));
    assert_eq!(db_name_with_schema(&unmapped, &ctx).schema.as_deref(), Some("public"));
    let ctx2 = Context::new(connection(SqlFamily::Postgres, 100), None);
    let no_origin = users_model(None);
    assert_eq!(db_name_with_schema(&no_origin, &ctx2).schema.as_deref(), Some("public"));
}

#[test]
fn read_query_renders_the_remapped_qualified_table() {
    let mut ds = DynamicSchema::new();
    ds.insert("public".to_string(), "tenant_42".to_string());
    let ctx = Context::new_with_dynamic_schema(connection(SqlFamily::Postgres, 100), ds, None);
    let builder = SqlQueryBuilder::new(ctx);
    let model = users_model(Some("public"));
    let args = QueryArguments { filter: None, order_by: Vec::new(), take: None, skip: None };
    let q = builder
        .build_get_records(&model, args, &vec![1, 2], RelationLoadStrategy::Query)
        .unwrap();
    match q {
        DbQuery::TemplateSql { fragments, placeholder_format, .. } => {
            let sql = render_sql(&fragments, &placeholder_format);
            assert!(sql.contains("\"tenant_42\".\"users\""), "unexpected sql: {}", sql);
        }
        other => panic!("expected a template, got {:?}", other),
    }
}

#[test]
fn join_strategy_is_refused_without_relation_metadata() {
    let ctx = Context::new(connection(SqlFamily::Postgres, 100), None);
    let builder = SqlQueryBuilder::new(ctx);
    let model = users_model(None);
    let args = QueryArguments { filter: None, order_by: Vec::new(), take: None, skip: None };
    assert!(builder
        .build_get_records(&model, args, &vec![1], RelationLoadStrategy::Join)
        .is_err());
}

#[test]
fn five_thousand_selectors_at_nine_hundred_binds_make_six_chunks() {
    let records: Vec<SelectionResult> = (0..5000).map(|n| int_row(1, n)).collect();
    let ctx = Context::new(connection(SqlFamily::Postgres, 900), None);
    let columns = vec!["id".to_string()];
    let conditions = chunked_conditions(&columns, records, &ctx);
    assert_eq!(conditions.len(), 6);
    let mut total = 0usize;
    for c in &conditions {
        match c {
            ConditionTree::InValues { rows, .. } => {
                assert!(rows.len() <= 900);
                total += rows.len();
            }
            other => panic!("expected a row-list membership test, got {:?}", other),
        }
    }
    assert_eq!(total, 5000);
}

#[test]
fn chunking_concatenates_back_to_the_input() {
    let records: Vec<SelectionResult> = (0..7).map(|n| int_row(1, n)).collect();
    let chunks = chunk_records(records, 3);
    assert_eq!(chunks.len(), 3);
    let flattened: Vec<i64> = chunks
        .iter()
        .flat_map(|c| c.iter().map(|r| match &r.pairs[0].1 {
            PrismaValue::Int(n) => *n,
            other => panic!("expected an integer, got {:?}", other),
        }))
        .collect();
    assert_eq!(flattened, vec![0, 1, 2, 3, 4, 5, 6]);
}

#[test]
fn a_single_placeholder_row_becomes_a_parameterized_membership_test() {
    let row = SelectionResult {
        pairs: vec![(
            1,
            PrismaValue::Placeholder {
                name: "ids".to_string(),
                value_type: PrismaValueType::IntType,
            },
        )],
    };
    let cond = in_conditions(&vec!["id".to_string()], &vec![row]);
    match cond {
        ConditionTree::And(inner) => {
            assert_eq!(inner.len(), 1);
            assert!(matches!(inner[0], ConditionTree::InParameterizedRow { .. }));
        }
        other => panic!("expected a conjunction, got {:?}", other),
    }
}

#[test]
fn alias_counter_is_strictly_increasing_across_kinds() {
    let mut ctx = Context::new(connection(SqlFamily::Postgres, 100), None);
    let a1 = ctx.next_table_alias();
    let a2 = ctx.next_join_alias();
    let a3 = ctx.next_table_alias();
    assert_eq!(a1, Alias::Table(0));
    assert_eq!(a2, Alias::Join(1));
    assert_eq!(a3, Alias::Table(2));
}

#[test]
fn mysql_create_record_materializes_identifier_defaults() {
    let ctx = Context::new(connection(SqlFamily::Mysql, 100), None);
    let builder = SqlQueryBuilder::new(ctx);
    let model = users_model(None);
    let args = WriteArgs { args: vec![(2, PrismaValue::Text("Ada".to_string()))] };
    let cr = builder.build_create_record(&model, args, &vec![1, 2]).unwrap();
    let defaults = cr.select_defaults.expect("mysql insert should pre-materialize defaults");
    assert_eq!(defaults.field_placeholders.len(), 1);
    assert_eq!(defaults.field_placeholders[0].0, 1);
    assert_eq!(defaults.field_placeholders[0].1, "id");
    match cr.insert_query {
        DbQuery::TemplateSql { params, .. } => {
            assert!(params.iter().any(|p| matches!(
                p,
                PrismaValue::Placeholder { name, .. } if name == "id"
            )));
        }
        other => panic!("expected a template, got {:?}", other),
    }
}

#[test]
fn non_mysql_create_record_has_no_companion_pieces() {
    let ctx = Context::new(connection(SqlFamily::Postgres, 100), None);
    let builder = SqlQueryBuilder::new(ctx);
    let model = users_model(None);
    let args = WriteArgs { args: vec![(2, PrismaValue::Text("Ada".to_string()))] };
    let cr = builder.build_create_record(&model, args, &vec![1, 2]).unwrap();
    assert!(cr.select_defaults.is_none());
    assert!(cr.last_insert_id_field.is_none());
    assert!(cr.merge_values.is_empty());
}

#[test]
fn mysql_create_record_skips_defaults_the_caller_already_set() {
    let ctx = Context::new(connection(SqlFamily::Mysql, 100), None);
    let builder = SqlQueryBuilder::new(ctx);
    let model = users_model(None);
    let args = WriteArgs { args: vec![(1, PrismaValue::Int(7))] };
    let cr = builder.build_create_record(&model, args, &vec![1]).unwrap();
    assert!(cr.select_defaults.is_none());
    assert_eq!(cr.merge_values.len(), 1);
    assert_eq!(cr.merge_values[0].0, 1);
}

#[test]
fn placeholder_rendering_follows_the_dialect() {
    let model = users_model(None);
    let filter = query_compiler::filter::Filter::Equals {
        field: 2,
        value: PrismaValue::Text("Ada".to_string()),
    };
    let mut rendered = Vec::new();
    for family in [SqlFamily::Postgres, SqlFamily::Mysql, SqlFamily::Sqlite, SqlFamily::Mssql] {
        let ctx = Context::new(connection(family, 100), None);
        let builder = SqlQueryBuilder::new(ctx);
        let args = QueryArguments {
            filter: Some(clone_filter(&filter)),
            order_by: Vec::new(),
            take: Some(10),
            skip: None,
        };
        let q = builder
            .build_get_records(&model, args, &vec![1], RelationLoadStrategy::Query)
            .unwrap();
        match q {
            DbQuery::TemplateSql { fragments, placeholder_format, params } => {
                assert_eq!(params.len(), 2);
                rendered.push(render_sql(&fragments, &placeholder_format));
            }
            other => panic!("expected a template, got {:?}", other),
        }
    }
    assert!(rendered[0].contains("$1") && rendered[0].contains("$2"));
    assert!(rendered[1].contains('?') && !rendered[1].contains("$1"));
    assert!(rendered[2].contains('?'));
    assert!(rendered[3].contains("@P1") && rendered[3].contains("@P2"));
    assert!(rendered[1].contains('`'));
    assert!(rendered[3].contains('[') && rendered[3].contains(']'));
}

fn clone_filter(f: &query_compiler::filter::Filter) -> query_compiler::filter::Filter {
    f.clone()
}

#[test]
fn m2m_connect_binds_one_product_call() {
    let ctx = Context::new(connection(SqlFamily::Postgres, 100), None);
    let builder = SqlQueryBuilder::new(ctx);
    let field = RelationFieldDef {
        relation_table: "_PostToTag".to_string(),
        relation_schema: None,
        parent_column: "A".to_string(),
        child_column: "B".to_string(),
    };
    let q = builder
        .build_m2m_connect(field, PrismaValue::Int(1), PrismaValue::Int(2))
        .unwrap();
    match q {
        DbQuery::TemplateSql { fragments, placeholder_format, params } => {
            assert_eq!(params.len(), 1);
            match &params[0] {
                PrismaValue::GeneratorCall { name, args, .. } => {
                    assert_eq!(name, "product");
                    assert_eq!(args.len(), 2);
                }
                other => panic!("expected the product call, got {:?}", other),
            }
            let sql = render_sql(&fragments, &placeholder_format);
            assert!(sql.contains("ON CONFLICT DO NOTHING"), "unexpected sql: {}", sql);
        }
        other => panic!("expected a template, got {:?}", other),
    }
}

#[test]
fn skip_duplicates_renders_in_the_dialect_style() {
    let model = users_model(None);
    for (family, marker) in [
        (SqlFamily::Mysql, "INSERT IGNORE INTO"),
        (SqlFamily::Sqlite, "INSERT OR IGNORE INTO"),
        (SqlFamily::Postgres, "ON CONFLICT DO NOTHING"),
    ] {
        let ctx = Context::new(connection(family, 100), None);
        let builder = SqlQueryBuilder::new(ctx);
        let args = vec![WriteArgs { args: vec![(2, PrismaValue::Text("Ada".to_string()))] }];
        let qs = builder.build_inserts(&model, args, true, None).unwrap();
        assert_eq!(qs.len(), 1);
        match &qs[0] {
            DbQuery::TemplateSql { fragments, placeholder_format, .. } => {
                let sql = render_sql(fragments, placeholder_format);
                assert!(sql.contains(marker), "{} missing in {}", marker, sql);
            }
            other => panic!("expected a template, got {:?}", other),
        }
    }
    let ctx = Context::new(connection(SqlFamily::Mssql, 100), None);
    let builder = SqlQueryBuilder::new(ctx);
    let args = vec![WriteArgs { args: vec![(2, PrismaValue::Text("Ada".to_string()))] }];
    assert!(builder.build_inserts(&model, args, true, None).is_err());
}

#[test]
fn raw_queries_pass_through() {
    let ctx = Context::new(connection(SqlFamily::Postgres, 100), None);
    let builder = SqlQueryBuilder::new(ctx);
    let inputs = vec![
        ("query".to_string(), PrismaValue::Text("SELECT 1".to_string())),
        ("parameters".to_string(), PrismaValue::List(vec![PrismaValue::Int(1)])),
    ];
    match builder.build_raw(inputs).unwrap() {
        DbQuery::RawSql { sql, params } => {
            assert_eq!(sql, "SELECT 1");
            assert_eq!(params.len(), 1);
        }
        other => panic!("expected raw sql, got {:?}", other),
    }
    let ctx2 = Context::new(connection(SqlFamily::Postgres, 100), None);
    let builder2 = SqlQueryBuilder::new(ctx2);
    assert!(builder2.build_raw(Vec::new()).is_err());
}

#[test]
fn isolation_ordering_and_command_follow_the_dialect_table() {
    assert!(!SqlFamily::Postgres.requires_isolation_first());
    assert!(SqlFamily::Mysql.requires_isolation_first());
    assert!(!SqlFamily::Sqlite.requires_isolation_first());
    assert!(SqlFamily::Mssql.requires_isolation_first());
    assert_eq!(
        set_tx_isolation_cmd(&"SERIALIZABLE".to_string()),
        "SET TRANSACTION ISOLATION LEVEL SERIALIZABLE"
    );
    assert_eq!(SqlFamily::Postgres.version_expr(), "version()");
    assert_eq!(SqlFamily::Sqlite.version_expr(), "sqlite_version()");
}

#[test]
fn numbered_placeholders_render_past_nine() {
    let rows: Vec<Vec<PrismaValue>> = (0..12).map(|n| vec![PrismaValue::Int(n)]).collect();
    let filter = query_compiler::sql_ast::ConditionTree::InValues {
        columns: vec!["id".to_string()],
        rows,
    };
    let stmt = query_compiler::sql_ast::SqlStatement::Delete(query_compiler::sql_ast::DeleteQuery {
        table: query_compiler::sql_ast::TableRef {
            schema: None,
            name: "users".to_string(),
            unique_index_columns: Vec::new(),
        },
        condition: Some(filter),
        returning: None,
    });
    let template = query_compiler::visitor::build_template(stmt, SqlFamily::Postgres);
    assert_eq!(template.parameters.len(), 12);
    let sql = render_sql(&template.fragments, &template.placeholder_format);
    assert!(sql.contains("$12"), "unexpected sql: {}", sql);
    assert!(sql.starts_with("DELETE FROM \"users\" WHERE"), "unexpected sql: {}", sql);
}

#[test]
fn phantom_and_version_helpers_render_exactly() {
    assert_eq!(
        query_compiler::dialect::phantom_query_message(&"BEGIN".to_string()),
        "-- Implicit \"BEGIN\" query via underlying driver"
    );
    assert_eq!(SqlFamily::Mysql.version_query(), "SELECT @@version AS version");
}

#[test]
fn unique_index_columns_ride_along_on_the_table() {
    let ctx = Context::new(connection(SqlFamily::Postgres, 100), None);
    let model = users_model(None);
    let table = as_table(&model, &ctx);
    assert_eq!(table.unique_index_columns.len(), 2);
    assert_eq!(table.unique_index_columns[0], vec!["id".to_string()]);
    assert_eq!(table.unique_index_columns[1], vec!["name".to_string()]);
}

#[test]
fn filters_over_unknown_fields_are_refused() {
    let ctx = Context::new(connection(SqlFamily::Postgres, 100), None);
    let builder = SqlQueryBuilder::new(ctx);
    let model = users_model(None);
    let args = QueryArguments {
        filter: Some(query_compiler::filter::Filter::Equals {
            field: 99,
            value: PrismaValue::Int(0),
        }),
        order_by: Vec::new(),
        take: None,
        skip: None,
    };
    match builder.build_get_records(&model, args, &vec![1], RelationLoadStrategy::Query) {
        Err(query_compiler::builder::BuildError::MissingColumn { field }) => {
            assert_eq!(field, 99)
        }
        other => panic!("expected a missing-column failure, got {:?}", other.map(|_| ())),
    }
}

#[test]
fn single_statement_updates_refuse_oversized_selector_lists() {
    let ctx = Context::new(connection(SqlFamily::Postgres, 2), None);
    let builder = SqlQueryBuilder::new(ctx);
    let model = users_model(None);
    let selectors: Vec<SelectionResult> = (0..5).map(|n| int_row(1, n)).collect();
    let rf = query_compiler::filter::RecordFilter {
        filter: query_compiler::filter::Filter::Empty,
        selectors: Some(selectors),
    };
    let args = WriteArgs { args: vec![(2, PrismaValue::Text("x".to_string()))] };
    match builder.build_update(&model, rf, args, None) {
        Err(query_compiler::builder::BuildError::NotExactlyOne) => {}
        other => panic!("expected the single-statement rule, got {:?}", other.map(|_| ())),
    }
}

#[test]
fn updates_without_selectors_are_refused() {
    let ctx = Context::new(connection(SqlFamily::Postgres, 100), None);
    let builder = SqlQueryBuilder::new(ctx);
    let model = users_model(None);
    let rf = query_compiler::filter::RecordFilter {
        filter: query_compiler::filter::Filter::Empty,
        selectors: None,
    };
    let args = WriteArgs { args: vec![(2, PrismaValue::Text("x".to_string()))] };
    assert!(matches!(
        builder.build_updates(&model, rf, args, None),
        Err(query_compiler::builder::BuildError::MissingInput)
    ));
}

#[test]
fn upsert_anchors_on_the_unique_columns_and_binds_both_argument_sets() {
    let ctx = Context::new(connection(SqlFamily::Postgres, 100), None);
    let builder = SqlQueryBuilder::new(ctx);
    let model = users_model(None);
    let create = WriteArgs {
        args: vec![
            (1, PrismaValue::Int(1)),
            (2, PrismaValue::Text("Ada".to_string())),
        ],
    };
    let update = WriteArgs { args: vec![(2, PrismaValue::Text("Grace".to_string()))] };
    let q = builder.build_upsert(&model, create, update, &vec![1, 2], &vec![1]).unwrap();
    match q {
        DbQuery::TemplateSql { fragments, placeholder_format, params } => {
            assert_eq!(params.len(), 3);
            let sql = render_sql(&fragments, &placeholder_format);
            assert!(sql.contains("ON CONFLICT (\"id\") DO UPDATE SET"), "unexpected sql: {}", sql);
            assert!(sql.contains("RETURNING"), "unexpected sql: {}", sql);
        }
        other => panic!("expected a template, got {:?}", other),
    }
    let mssql = SqlQueryBuilder::new(Context::new(connection(SqlFamily::Mssql, 100), None));
    let create = WriteArgs { args: vec![(1, PrismaValue::Int(1))] };
    let update = WriteArgs { args: Vec::new() };
    assert!(mssql.build_upsert(&users_model(None), create, update, &vec![1], &vec![1]).is_err());
}

#[test]
fn grouped_aggregates_alias_by_the_database_column_name() {
    let ctx = Context::new(connection(SqlFamily::Postgres, 100), None);
    let builder = SqlQueryBuilder::new(ctx);
    let model = users_model(None);
    let args = QueryArguments { filter: None, order_by: Vec::new(), take: None, skip: None };
    let selections = vec![
        query_compiler::model::AggregationSelection::Field(2),
        query_compiler::model::AggregationSelection::RowCount { field: Some(1) },
    ];
    let q = builder.build_aggregate(&model, args, &selections, &vec![2], None).unwrap();
    match q {
        DbQuery::TemplateSql { fragments, placeholder_format, .. } => {
            let sql = render_sql(&fragments, &placeholder_format);
            assert!(sql.contains("COUNT(\"id\") AS \"id\""), "unexpected sql: {}", sql);
            assert!(sql.contains("GROUP BY \"name\""), "unexpected sql: {}", sql);
        }
        other => panic!("expected a template, got {:?}", other),
    }
}

#[test]
fn related_records_read_issues_two_fresh_aliases() {
    let ctx = Context::new(connection(SqlFamily::Postgres, 100), None);
    let mut builder = SqlQueryBuilder::new(ctx);
    let model = users_model(None);
    let linkage = RelationFieldDef {
        relation_table: "_PostToTag".to_string(),
        relation_schema: None,
        parent_column: "A".to_string(),
        child_column: "B".to_string(),
    };
    let args = QueryArguments { filter: None, order_by: Vec::new(), take: None, skip: None };
    assert_eq!(builder.context.alias_counter, 0);
    let q = builder.build_get_related_records(linkage, &model, args, &vec![1, 2]).unwrap();
    assert_eq!(builder.context.alias_counter, 2);
    match q {
        DbQuery::TemplateSql { fragments, placeholder_format, .. } => {
            let sql = render_sql(&fragments, &placeholder_format);
            assert!(sql.contains("INNER JOIN"), "unexpected sql: {}", sql);
            assert!(sql.contains("AS \"t0\""), "unexpected sql: {}", sql);
            assert!(sql.contains("AS \"t1\""), "unexpected sql: {}", sql);
        }
        other => panic!("expected a template, got {:?}", other),
    }
}

#[test]
fn m2m_disconnect_deletes_the_link_rows() {
    let ctx = Context::new(connection(SqlFamily::Postgres, 100), None);
    let builder = SqlQueryBuilder::new(ctx);
    let field = RelationFieldDef {
        relation_table: "_PostToTag".to_string(),
        relation_schema: None,
        parent_column: "A".to_string(),
        child_column: "B".to_string(),
    };
    let parent = int_row(1, 7);
    let children = vec![int_row(1, 1), int_row(1, 2)];
    let q = builder.build_m2m_disconnect(field, &parent, &children).unwrap();
    match q {
        DbQuery::TemplateSql { fragments, placeholder_format, params } => {
            assert_eq!(params.len(), 3);
            let sql = render_sql(&fragments, &placeholder_format);
            assert!(sql.starts_with("DELETE FROM \"_PostToTag\""), "unexpected sql: {}", sql);
        }
        other => panic!("expected a template, got {:?}", other),
    }
}

#[test]
fn deletes_mirror_the_chunked_updates() {
    let ctx = Context::new(connection(SqlFamily::Postgres, 100), None);
    let builder = SqlQueryBuilder::new(ctx);
    let model = users_model(None);
    let rf = query_compiler::filter::RecordFilter {
        filter: query_compiler::filter::Filter::Empty,
        selectors: Some(vec![int_row(1, 1), int_row(1, 2)]),
    };
    let qs = builder.build_deletes(&model, rf).unwrap();
    assert_eq!(qs.len(), 1);
    let rf2 = query_compiler::filter::RecordFilter {
        filter: query_compiler::filter::Filter::Empty,
        selectors: Some(vec![int_row(1, 1)]),
    };
    let q = builder.build_delete(&model, rf2, Some(&vec![1, 2])).unwrap();
    match q {
        DbQuery::TemplateSql { fragments, placeholder_format, .. } => {
            let sql = render_sql(&fragments, &placeholder_format);
            assert!(sql.contains("RETURNING"), "unexpected sql: {}", sql);
        }
        other => panic!("expected a template, got {:?}", other),
    }
}
