use dbadapter::model::{
    build_query_result, merge_stats, normalize_cell, timeout_error, to_metadata_result, AdapterStats,
    AppError, DatabaseKind, ForeignKeyInfo, IndexInfo, NormalizedValue, NumberValue, RawCell,
    TableMetadata, TableSchema,
};

#[test]
fn parses_postgres_aliases() {
    assert_eq!(DatabaseKind::from_str_loose("postgresql"), Some(DatabaseKind::PostgreSQL));
    assert_eq!(DatabaseKind::from_str_loose("postgres"), Some(DatabaseKind::PostgreSQL));
    assert_eq!(DatabaseKind::from_str_loose("pg"), Some(DatabaseKind::PostgreSQL));
    assert_eq!(DatabaseKind::from_str_loose("PostgreSQL"), Some(DatabaseKind::PostgreSQL));
}

#[test]
fn parses_mysql_aliases() {
    assert_eq!(DatabaseKind::from_str_loose("mysql"), Some(DatabaseKind::MySQL));
    assert_eq!(DatabaseKind::from_str_loose("MariaDB"), Some(DatabaseKind::MySQL));
}

#[test]
fn parses_sqlite_aliases() {
    assert_eq!(DatabaseKind::from_str_loose("sqlite"), Some(DatabaseKind::SQLite));
    assert_eq!(DatabaseKind::from_str_loose("SQLite3"), Some(DatabaseKind::SQLite));
}

#[test]
fn parses_redis_alias() {
    assert_eq!(DatabaseKind::from_str_loose("REDIS"), Some(DatabaseKind::Redis));
}

#[test]
fn unrecognized_backend_name_yields_no_match() {
    assert_eq!(DatabaseKind::from_str_loose("oracle"), None);
    assert_eq!(DatabaseKind::from_str_loose(""), None);
    assert_eq!(DatabaseKind::from_str_loose("postgres "), None);
}

#[test]
fn normalizes_plain_cells() {
    assert!(matches!(normalize_cell(&RawCell::Null), NormalizedValue::Null));
    assert!(matches!(normalize_cell(&RawCell::Bool(true)), NormalizedValue::Bool(true)));
    match normalize_cell(&RawCell::Int(-7)) {
        NormalizedValue::Number(NumberValue::Int(v)) => assert_eq!(v, -7),
        _ => panic!("integer cell did not normalize to a number"),
    }
    match normalize_cell(&RawCell::UInt(9)) {
        NormalizedValue::Number(NumberValue::UInt(v)) => assert_eq!(v, 9),
        _ => panic!("unsigned cell did not normalize to a number"),
    }
    match normalize_cell(&RawCell::FloatText(String::from("2.5"))) {
        NormalizedValue::Number(NumberValue::Decimal(s)) => assert_eq!(s, "2.5"),
        _ => panic!("float cell did not keep its rendering"),
    }
    match normalize_cell(&RawCell::Text(String::from("abc"))) {
        NormalizedValue::Text(s) => assert_eq!(s, "abc"),
        _ => panic!("text cell did not normalize to text"),
    }
}

#[test]
fn blob_cell_degrades_to_descriptive_text() {
    match normalize_cell(&RawCell::Blob(1042)) {
        NormalizedValue::Text(s) => assert_eq!(s, "<blob 1042 bytes>"),
        _ => panic!("blob cell did not degrade to text"),
    }
}

#[test]
fn query_result_rows_match_columns() {
    let columns = vec![String::from("a"), String::from("b")];
    let raw = vec![
        vec![RawCell::Int(1), RawCell::Text(String::from("x"))],
        vec![RawCell::Int(2)],
        vec![RawCell::Int(3), RawCell::Null, RawCell::Bool(true)],
    ];
    let r = build_query_result(columns, raw, 17);
    assert_eq!(r.row_count, 3);
    assert_eq!(r.rows.len(), 3);
    assert_eq!(r.execution_time_ms, 17);
    for row in &r.rows {
        assert_eq!(row.len(), r.columns.len());
    }
    assert!(matches!(r.rows[1][1], NormalizedValue::Null));
    match &r.rows[0][1] {
        NormalizedValue::Text(s) => assert_eq!(s, "x"),
        _ => panic!("cell lost its text"),
    }
}

#[test]
fn error_messages_carry_their_kind() {
    assert_eq!(AppError::NotFound(String::from("x")).message(), "Not found: x");
    assert_eq!(
        AppError::ConnectionFailed(String::from("refused")).message(),
        "Connection failed: refused"
    );
    assert_eq!(AppError::QueryError(String::from("bad")).message(), "Query error: bad");
    assert_eq!(AppError::CsvParseError(String::from("c")).message(), "CSV parse error: c");
    assert_eq!(AppError::ScanError(String::from("s")).message(), "Scan error: s");
    assert_eq!(AppError::DatabaseError(String::from("d")).message(), "Database error: d");
}

#[test]
fn timeouts_are_connection_failures() {
    match timeout_error(true) {
        AppError::ConnectionFailed(m) => assert_eq!(m, "Connection timed out"),
        _ => panic!("connect timeout is not a connection failure"),
    }
    match timeout_error(false) {
        AppError::ConnectionFailed(m) => assert_eq!(m, "Operation timed out"),
        _ => panic!("query timeout is not a connection failure"),
    }
}

#[test]
fn merged_stats_keep_every_figure() {
    let stats = AdapterStats { table_count: 3, total_row_count: 44, disk_usage_bytes: 1000 };
    let r = merge_stats(String::from("conn-1"), &stats, true);
    assert_eq!(r.connection_id, "conn-1");
    assert_eq!(r.table_count, 3);
    assert_eq!(r.total_row_count, 44);
    assert_eq!(r.disk_usage_bytes, 1000);
    assert!(r.connected);
}

#[test]
fn metadata_reshapes_field_for_field() {
    let meta = TableMetadata {
        schema: TableSchema { name: String::from("t"), columns: vec![], row_count: 2 },
        indexes: vec![IndexInfo {
            name: String::from("i1"),
            columns: vec![String::from("a"), String::from("b")],
            unique: true,
        }],
        foreign_keys: vec![ForeignKeyInfo {
            name: String::from("fk_0"),
            from_column: String::from("a"),
            to_table: String::from("u"),
            to_column: String::from("id"),
        }],
    };
    let r = to_metadata_result(meta);
    assert_eq!(r.schema.name, "t");
    assert_eq!(r.indexes.len(), 1);
    assert_eq!(r.indexes[0].name, "i1");
    assert_eq!(r.indexes[0].columns, vec![String::from("a"), String::from("b")]);
    assert!(r.indexes[0].unique);
    assert_eq!(r.foreign_keys.len(), 1);
    assert_eq!(r.foreign_keys[0].name, "fk_0");
    assert_eq!(r.foreign_keys[0].to_table, "u");
}

#[test]
fn zero_length_blob_renders_zero() {
    match normalize_cell(&RawCell::Blob(0)) {
        NormalizedValue::Text(s) => assert_eq!(s, "<blob 0 bytes>"),
        _ => panic!("blob cell did not degrade to text"),
    }
}

#[test]
fn empty_query_results_are_well_formed() {
    let r = build_query_result(vec![], vec![], 3);
    assert_eq!(r.row_count, 0);
    assert!(r.rows.is_empty());
    assert!(r.columns.is_empty());
    assert_eq!(r.execution_time_ms, 3);
}
