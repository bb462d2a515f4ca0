use datafusion::execution::batch::{Batch, Column};
use datafusion::execution::context::{ExecutionContext, ResultStream};
use datafusion::execution::datasource::{DataSource, MemDataSource};
use datafusion::execution::error::ExecutionError;
use datafusion::execution::schema::{Field, Schema};
use datafusion::execution::types::{DataType, DecimalValue, ScalarValue};

fn dec(mantissa: i64, scale: u32) -> DecimalValue {
    DecimalValue { mantissa, scale }
}

fn cities_schema() -> Schema {
    Schema::new(vec![
        Field::new("city".to_string(), DataType::Utf8, false),
        Field::new("lat".to_string(), DataType::Decimal, false),
        Field::new("lng".to_string(), DataType::Decimal, false),
    ])
}

/// The three-city source of the scenarios: ("London", 51.5, -0.1),
/// ("Leeds", 53.8, -1.5), ("Bristol", 51.4, -2.6).
fn cities_source() -> MemDataSource {
    let schema = cities_schema();
    let batch = Batch::new(
        cities_schema(),
        vec![
            Column::Utf8(vec!["London".to_string(), "Leeds".to_string(), "Bristol".to_string()]),
            Column::Decimal(vec![dec(515, 1), dec(538, 1), dec(514, 1)]),
            Column::Decimal(vec![dec(-1, 1), dec(-15, 1), dec(-26, 1)]),
        ],
    )
    .unwrap();
    MemDataSource::new(schema, vec![batch]).unwrap()
}

fn collect_rows(
    ctx: &mut ExecutionContext<MemDataSource>,
    stream: &mut ResultStream,
) -> Vec<Vec<ScalarValue>> {
    let mut rows: Vec<Vec<ScalarValue>> = Vec::new();
    loop {
        match ctx.next_batch_mem(stream) {
            Ok(Some(batch)) => {
                for i in 0..batch.num_rows() {
                    let mut row = Vec::new();
                    for j in 0..batch.num_columns() {
                        row.push(batch.column(j).value(i));
                    }
                    rows.push(row);
                }
            }
            Ok(None) => break,
            Err(e) => panic!("pull failed: {:?}", e),
        }
    }
    rows
}

#[test]
fn scenario_a_projection_and_selection() {
    let mut ctx = ExecutionContext::new();
    ctx.register("t".to_string(), cities_source()).unwrap();
    let mut stream = ctx
        .sql("SELECT city, lat, lng FROM t WHERE lat > 51.0 AND lat < 53")
        .unwrap();
    let rows = collect_rows(&mut ctx, &mut stream);
    assert_eq!(rows.len(), 2);
    assert_eq!(
        rows[0],
        vec![
            ScalarValue::Utf8("London".to_string()),
            ScalarValue::Decimal(dec(515, 1)),
            ScalarValue::Decimal(dec(-1, 1)),
        ]
    );
    assert_eq!(
        rows[1],
        vec![
            ScalarValue::Utf8("Bristol".to_string()),
            ScalarValue::Decimal(dec(514, 1)),
            ScalarValue::Decimal(dec(-26, 1)),
        ]
    );
}

#[test]
fn scenario_b_single_column_projection() {
    let mut ctx = ExecutionContext::new();
    ctx.register("t".to_string(), cities_source()).unwrap();
    let mut stream = ctx.sql("SELECT city FROM t").unwrap();
    assert_eq!(stream.out_schema().len(), 1);
    assert_eq!(stream.out_schema().field(0).name, "city");
    assert_eq!(stream.out_schema().field(0).data_type, DataType::Utf8);
    let rows = collect_rows(&mut ctx, &mut stream);
    assert_eq!(rows.len(), 3);
    assert_eq!(rows[0], vec![ScalarValue::Utf8("London".to_string())]);
    assert_eq!(rows[1], vec![ScalarValue::Utf8("Leeds".to_string())]);
    assert_eq!(rows[2], vec![ScalarValue::Utf8("Bristol".to_string())]);
}

#[test]
fn scenario_c_no_matches_is_empty_not_error() {
    let mut ctx = ExecutionContext::new();
    ctx.register("t".to_string(), cities_source()).unwrap();
    let mut stream = ctx
        .sql("SELECT city, lat, lng FROM t WHERE lat > 100")
        .unwrap();
    assert_eq!(stream.out_schema().len(), 3);
    let first = ctx.next_batch(&mut stream).unwrap();
    let batch = first.expect("an empty batch, not exhaustion or an error");
    assert_eq!(batch.num_rows(), 0);
    assert_eq!(batch.num_columns(), 3);
    assert!(batch.schema.matches(stream.out_schema()));
    assert!(ctx.next_batch(&mut stream).unwrap().is_none());
}

#[test]
fn scenario_d_unresolved_column_fails_with_its_name() {
    let ctx = {
        let mut c = ExecutionContext::new();
        c.register("t".to_string(), cities_source()).unwrap();
        c
    };
    let r = ctx.sql("SELECT altitude FROM t");
    match r {
        Err(ExecutionError::InvalidColumn(name)) => assert_eq!(name, "altitude"),
        other => panic!("expected an invalid-column error, got {:?}", other.err()),
    }
}

#[test]
fn unresolved_column_in_where_fails_with_its_name() {
    let mut ctx = ExecutionContext::new();
    ctx.register("t".to_string(), cities_source()).unwrap();
    match ctx.sql("SELECT city FROM t WHERE altitude > 1") {
        Err(ExecutionError::InvalidColumn(name)) => assert_eq!(name, "altitude"),
        other => panic!("expected an invalid-column error, got {:?}", other.err()),
    }
}

#[test]
fn scenario_e_duplicate_registration_keeps_the_first() {
    let mut ctx = ExecutionContext::new();
    ctx.register("t".to_string(), cities_source()).unwrap();
    // a second source with different content under the same name
    let schema = Schema::new(vec![Field::new("city".to_string(), DataType::Utf8, false)]);
    let other = MemDataSource::new(
        schema.clone(),
        vec![Batch::new(schema, vec![Column::Utf8(vec!["Paris".to_string()])]).unwrap()],
    )
    .unwrap();
    match ctx.register("t".to_string(), other) {
        Err(ExecutionError::DuplicateName(name)) => assert_eq!(name, "t"),
        other => panic!("expected a duplicate-name error, got {:?}", other.err()),
    }
    // the first registration stays active
    let mut stream = ctx.sql("SELECT city FROM t").unwrap();
    let rows = collect_rows(&mut ctx, &mut stream);
    assert_eq!(rows.len(), 3);
    assert_eq!(rows[0], vec![ScalarValue::Utf8("London".to_string())]);
}

#[test]
fn schema_is_stable_across_calls() {
    let source = cities_source();
    let a = source.schema().clone();
    let b = source.schema().clone();
    assert!(a.matches(&b));
    assert!(a.matches(&cities_schema()));
}

#[test]
fn exhaustion_is_terminal_and_rows_are_conserved() {
    let mut source = cities_source();
    let mut total = 0;
    loop {
        match source.next().unwrap() {
            Some(batch) => total += batch.num_rows(),
            None => break,
        }
    }
    assert_eq!(total, 3);
    // no resurrection
    assert!(source.next().unwrap().is_none());
    assert!(source.next().unwrap().is_none());
}

#[test]
fn same_query_twice_on_fresh_sources_is_identical() {
    let run = || {
        let mut ctx = ExecutionContext::new();
        ctx.register("t".to_string(), cities_source()).unwrap();
        let mut stream = ctx.sql("SELECT city, lat FROM t WHERE lat < 53.0").unwrap();
        collect_rows(&mut ctx, &mut stream)
    };
    let first = run();
    let second = run();
    assert_eq!(first, second);
    assert_eq!(first.len(), 2);
}

#[test]
fn wildcard_selects_every_column_in_order() {
    let mut ctx = ExecutionContext::new();
    ctx.register("t".to_string(), cities_source()).unwrap();
    let mut stream = ctx.sql("SELECT * FROM t").unwrap();
    assert_eq!(stream.out_schema().len(), 3);
    assert_eq!(stream.out_schema().field(0).name, "city");
    assert_eq!(stream.out_schema().field(1).name, "lat");
    assert_eq!(stream.out_schema().field(2).name, "lng");
    let rows = collect_rows(&mut ctx, &mut stream);
    assert_eq!(rows.len(), 3);
}

#[test]
fn string_equality_predicate() {
    let mut ctx = ExecutionContext::new();
    ctx.register("t".to_string(), cities_source()).unwrap();
    let mut stream = ctx.sql("SELECT lat FROM t WHERE city = 'Leeds'").unwrap();
    let rows = collect_rows(&mut ctx, &mut stream);
    assert_eq!(rows, vec![vec![ScalarValue::Decimal(dec(538, 1))]]);
}

#[test]
fn decimal_comparison_is_scale_insensitive() {
    let mut ctx = ExecutionContext::new();
    ctx.register("t".to_string(), cities_source()).unwrap();
    // 51.50 and 51.5 denote the same number
    let mut stream = ctx.sql("SELECT city FROM t WHERE lat = 51.50").unwrap();
    let rows = collect_rows(&mut ctx, &mut stream);
    assert_eq!(rows, vec![vec![ScalarValue::Utf8("London".to_string())]]);
}

#[test]
fn integer_literal_compares_against_decimal_column() {
    let mut ctx = ExecutionContext::new();
    ctx.register("t".to_string(), cities_source()).unwrap();
    let mut stream = ctx.sql("SELECT city FROM t WHERE lat < 53").unwrap();
    let rows = collect_rows(&mut ctx, &mut stream);
    assert_eq!(rows.len(), 2);
}

#[test]
fn malformed_sql_fails_with_a_parser_error() {
    let ctx: ExecutionContext<MemDataSource> = ExecutionContext::new();
    match ctx.sql("SELECT city FROM t WHERE (lat >") {
        Err(ExecutionError::ParserError(_)) => {}
        other => panic!("expected a parser error, got {:?}", other.err()),
    }
}

#[test]
fn unknown_table_fails_with_its_name() {
    let ctx: ExecutionContext<MemDataSource> = ExecutionContext::new();
    match ctx.sql("SELECT a FROM missing") {
        Err(ExecutionError::General(msg)) => assert!(msg.contains("missing")),
        other => panic!("expected a general error, got {:?}", other.err()),
    }
}

#[test]
fn unsupported_statement_shape_is_reported() {
    let mut ctx = ExecutionContext::new();
    ctx.register("t".to_string(), cities_source()).unwrap();
    match ctx.sql("INSERT INTO t VALUES ('x', 1.0, 2.0)") {
        Err(ExecutionError::NotImplemented(_)) => {}
        other => panic!("expected a not-implemented error, got {:?}", other.err()),
    }
    match ctx.sql("SELECT city FROM t JOIN t ON 1 = 1") {
        Err(ExecutionError::NotImplemented(_)) => {}
        other => panic!("expected a not-implemented error, got {:?}", other.err()),
    }
}

#[test]
fn clauses_the_planner_does_not_lower_are_rejected() {
    let mut ctx = ExecutionContext::new();
    ctx.register("t".to_string(), cities_source()).unwrap();
    let unsupported = [
        "SELECT DISTINCT city FROM t",
        "SELECT city FROM t GROUP BY city",
        "SELECT city FROM t ORDER BY lat",
        "SELECT city FROM t LIMIT 1",
        "SELECT city FROM t GROUP BY city HAVING city = 'London'",
        "WITH u AS (SELECT city FROM t) SELECT city FROM u",
    ];
    for sql in unsupported.iter() {
        match ctx.sql(sql) {
            Err(ExecutionError::NotImplemented(_)) => {}
            other => panic!("{} should not lower, got {:?}", sql, other.err()),
        }
    }
}

#[test]
fn wildcard_modifiers_are_rejected() {
    let mut ctx = ExecutionContext::new();
    ctx.register("t".to_string(), cities_source()).unwrap();
    for sql in [
        "SELECT * EXCEPT (city) FROM t",
        "SELECT * EXCLUDE (city) FROM t",
        "SELECT * REPLACE (lat AS lng) FROM t",
    ]
    .iter()
    {
        match ctx.sql(sql) {
            Err(ExecutionError::NotImplemented(_)) => {}
            other => panic!("{} should not lower, got {:?}", sql, other.err()),
        }
    }
}

#[test]
fn quoted_table_names_resolve_to_their_identifier() {
    let mut ctx = ExecutionContext::new();
    ctx.register("t".to_string(), cities_source()).unwrap();
    let mut stream = ctx.sql("SELECT city FROM \"t\"").unwrap();
    let rows = collect_rows(&mut ctx, &mut stream);
    assert_eq!(rows.len(), 3);
    // a schema-qualified name is not a plain table reference
    match ctx.sql("SELECT city FROM db.t") {
        Err(ExecutionError::NotImplemented(_)) => {}
        other => panic!("expected a not-implemented error, got {:?}", other.err()),
    }
}

#[test]
fn non_boolean_predicate_is_rejected() {
    let mut ctx = ExecutionContext::new();
    ctx.register("t".to_string(), cities_source()).unwrap();
    match ctx.sql("SELECT city FROM t WHERE lat") {
        Err(ExecutionError::General(_)) => {}
        other => panic!("expected a general error, got {:?}", other.err()),
    }
}

#[test]
fn numeric_literal_overflow_is_rejected() {
    let mut ctx = ExecutionContext::new();
    ctx.register("t".to_string(), cities_source()).unwrap();
    match ctx.sql("SELECT city FROM t WHERE lat > 99999999999999999999") {
        Err(ExecutionError::General(_)) => {}
        other => panic!("expected a general error, got {:?}", other.err()),
    }
}

#[test]
fn batch_construction_rejects_mismatched_columns() {
    let schema = cities_schema();
    // two columns for a three-field schema
    let r = Batch::new(
        schema,
        vec![
            Column::Utf8(vec!["London".to_string()]),
            Column::Decimal(vec![dec(515, 1)]),
        ],
    );
    match r {
        Err(ExecutionError::InternalError(_)) => {}
        other => panic!("expected an internal error, got {:?}", other.err()),
    }
}

#[test]
fn mem_source_rejects_batches_of_another_schema() {
    let one_col = Schema::new(vec![Field::new("city".to_string(), DataType::Utf8, false)]);
    let batch = Batch::new(one_col, vec![Column::Utf8(vec!["London".to_string()])]).unwrap();
    match MemDataSource::new(cities_schema(), vec![batch]) {
        Err(ExecutionError::InternalError(_)) => {}
        other => panic!("expected an internal error, got {:?}", other.err()),
    }
}

fn numbers_source() -> MemDataSource {
    let schema = Schema::new(vec![
        Field::new("id".to_string(), DataType::Int64, false),
        Field::new("flag".to_string(), DataType::Boolean, false),
    ]);
    let b1 = Batch::new(
        Schema::new(vec![
            Field::new("id".to_string(), DataType::Int64, false),
            Field::new("flag".to_string(), DataType::Boolean, false),
        ]),
        vec![Column::Int64(vec![1, 2, 3]), Column::Boolean(vec![true, false, true])],
    )
    .unwrap();
    let b2 = Batch::new(
        Schema::new(vec![
            Field::new("id".to_string(), DataType::Int64, false),
            Field::new("flag".to_string(), DataType::Boolean, false),
        ]),
        vec![Column::Int64(vec![4, 5]), Column::Boolean(vec![false, true])],
    )
    .unwrap();
    MemDataSource::new(schema, vec![b1, b2]).unwrap()
}

#[test]
fn selection_streams_across_batches() {
    let mut ctx = ExecutionContext::new();
    ctx.register("n".to_string(), numbers_source()).unwrap();
    let mut stream = ctx.sql("SELECT id FROM n WHERE id > 2").unwrap();
    // first pull: batch [1,2,3] filtered to [3]; second: [4,5] kept whole
    let first = ctx.next_batch(&mut stream).unwrap().unwrap();
    assert_eq!(first.num_rows(), 1);
    assert_eq!(first.column(0).value(0), ScalarValue::Int64(3));
    let second = ctx.next_batch(&mut stream).unwrap().unwrap();
    assert_eq!(second.num_rows(), 2);
    assert_eq!(second.column(0).value(0), ScalarValue::Int64(4));
    assert_eq!(second.column(0).value(1), ScalarValue::Int64(5));
    assert!(ctx.next_batch(&mut stream).unwrap().is_none());
    // exhaustion is terminal for the stream too
    assert!(ctx.next_batch(&mut stream).unwrap().is_none());
}

#[test]
fn integer_equality_and_boolean_columns() {
    let mut ctx = ExecutionContext::new();
    ctx.register("n".to_string(), numbers_source()).unwrap();
    let mut stream = ctx.sql("SELECT flag FROM n WHERE id = 5").unwrap();
    let rows = collect_rows(&mut ctx, &mut stream);
    assert_eq!(rows, vec![vec![ScalarValue::Boolean(true)]]);
}

#[test]
fn exact_decimal_values_survive_the_pipeline() {
    // -0.1 must come out exactly as written, not as a nearby value
    let mut ctx = ExecutionContext::new();
    ctx.register("t".to_string(), cities_source()).unwrap();
    let mut stream = ctx.sql("SELECT lng FROM t WHERE city = 'London'").unwrap();
    let rows = collect_rows(&mut ctx, &mut stream);
    assert_eq!(rows, vec![vec![ScalarValue::Decimal(dec(-1, 1))]]);
}
