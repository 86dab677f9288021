use dbadapter::kv::{
    kv_get_result, kv_scan_keys, kv_scan_result, kv_schema, kv_statement_effect, kv_stats,
    kv_table_metadata, kv_unsupported_query_error, kv_unsupported_statement_error,
    kv_value_summary_text, parse_kv_query, parse_kv_statement, parse_used_memory, KvCommand,
    KvContent, KvKeyInfo, KvStatement,
};
use dbadapter::model::{AppError, NormalizedValue, NumberValue};

#[test]
fn keys_and_scan_take_their_pattern() {
    match parse_kv_query("KEYS user:*") {
        KvCommand::Scan { pattern } => assert_eq!(pattern, "user:*"),
        _ => panic!("KEYS did not parse to a scan"),
    }
    match parse_kv_query("  scan sess-? ") {
        KvCommand::Scan { pattern } => assert_eq!(pattern, "sess-?"),
        _ => panic!("lower-case SCAN did not parse to a scan"),
    }
}

#[test]
fn lone_command_word_scans_everything() {
    match parse_kv_query("KEYS") {
        KvCommand::Scan { pattern } => assert_eq!(pattern, "*"),
        _ => panic!("lone KEYS did not parse to a scan"),
    }
}

#[test]
fn select_always_scans_everything() {
    match parse_kv_query("SELECT something ignored") {
        KvCommand::Scan { pattern } => assert_eq!(pattern, "*"),
        _ => panic!("SELECT did not parse to a scan"),
    }
}

#[test]
fn get_takes_its_key() {
    match parse_kv_query("GET missing-key") {
        KvCommand::Get { key } => assert_eq!(key, "missing-key"),
        _ => panic!("GET did not parse to a lookup"),
    }
}

#[test]
fn unknown_query_command_is_unsupported() {
    match parse_kv_query("FLUSHALL") {
        KvCommand::Unsupported { cmd } => assert_eq!(cmd, "FLUSHALL"),
        _ => panic!("FLUSHALL parsed as supported"),
    }
    match kv_unsupported_query_error("FLUSHALL") {
        AppError::QueryError(m) => {
            assert_eq!(m, "Unsupported Redis command: FLUSHALL. Use KEYS, SCAN, GET, or SELECT.")
        }
        _ => panic!("unsupported command is not a query error"),
    }
}

#[test]
fn set_statement_keeps_spaces_in_its_value() {
    match parse_kv_statement("SET greeting hello there world") {
        KvStatement::Put { key, value } => {
            assert_eq!(key, "greeting");
            assert_eq!(value, "hello there world");
        }
        _ => panic!("SET did not parse"),
    }
}

#[test]
fn del_and_delete_both_delete() {
    match parse_kv_statement("DEL k1") {
        KvStatement::Del { key } => assert_eq!(key, "k1"),
        _ => panic!("DEL did not parse"),
    }
    match parse_kv_statement("delete k2") {
        KvStatement::Del { key } => assert_eq!(key, "k2"),
        _ => panic!("DELETE did not parse"),
    }
}

#[test]
fn unknown_statement_command_is_unsupported() {
    match parse_kv_statement("INCR counter") {
        KvStatement::Unsupported { cmd } => assert_eq!(cmd, "INCR"),
        _ => panic!("INCR parsed as supported"),
    }
    match kv_unsupported_statement_error("INCR") {
        AppError::QueryError(m) => {
            assert_eq!(m, "Unsupported Redis write command: INCR. Use SET or DEL.")
        }
        _ => panic!("unsupported statement is not a query error"),
    }
}

#[test]
fn set_affects_one_row_and_del_reports_the_store() {
    let put = KvStatement::Put { key: String::from("k"), value: String::from("v") };
    let del = KvStatement::Del { key: String::from("k") };
    assert_eq!(kv_statement_effect(&put, 9), 1);
    assert_eq!(kv_statement_effect(&del, 9), 9);
}

#[test]
fn schema_is_one_keys_table_with_four_columns() {
    let schema = kv_schema(42);
    assert_eq!(schema.len(), 1);
    let t = &schema[0];
    assert_eq!(t.name, "keys");
    assert_eq!(t.row_count, 42);
    assert_eq!(t.columns.len(), 4);
    assert_eq!(t.columns[0].name, "key");
    assert!(t.columns[0].primary_key);
    assert!(!t.columns[0].nullable);
    assert_eq!(t.columns[1].name, "value");
    assert!(t.columns[1].nullable);
    assert_eq!(t.columns[2].name, "type");
    assert_eq!(t.columns[3].name, "ttl");
    assert_eq!(t.columns[3].data_type, "integer");
}

#[test]
fn table_metadata_has_no_indexes_or_keys() {
    let m = kv_table_metadata(7);
    assert_eq!(m.schema.name, "keys");
    assert_eq!(m.schema.row_count, 7);
    assert!(m.indexes.is_empty());
    assert!(m.foreign_keys.is_empty());
}

#[test]
fn value_summaries_describe_each_type() {
    assert_eq!(
        kv_value_summary_text("string", &KvContent::Value(String::from("hello"))),
        "hello"
    );
    assert_eq!(kv_value_summary_text("string", &KvContent::Missing), "<error>");
    assert_eq!(kv_value_summary_text("list", &KvContent::Size(3)), "<list: 3 items>");
    assert_eq!(kv_value_summary_text("set", &KvContent::Size(12)), "<set: 12 members>");
    assert_eq!(kv_value_summary_text("hash", &KvContent::Size(0)), "<hash: 0 fields>");
    assert_eq!(kv_value_summary_text("zset", &KvContent::Missing), "<zset>");
}

#[test]
fn scan_probes_at_most_one_hundred_keys() {
    let keys: Vec<String> = (0..150).map(|i| format!("k{}", i)).collect();
    let capped = kv_scan_keys(keys);
    assert_eq!(capped.len(), 100);
    assert_eq!(capped[0], "k0");
    assert_eq!(capped[99], "k99");
    let few = kv_scan_keys(vec![String::from("a"), String::from("b")]);
    assert_eq!(few.len(), 2);
}

#[test]
fn scan_result_has_one_row_per_key() {
    let infos = vec![
        KvKeyInfo {
            key: String::from("greeting"),
            kind_name: String::from("string"),
            content: KvContent::Value(String::from("hello")),
            ttl: 30,
        },
        KvKeyInfo {
            key: String::from("queue"),
            kind_name: String::from("list"),
            content: KvContent::Size(4),
            ttl: -1,
        },
    ];
    let r = kv_scan_result(&infos, 5);
    assert_eq!(r.row_count, 2);
    assert_eq!(r.columns, vec!["key", "value", "type", "ttl"]);
    assert_eq!(r.execution_time_ms, 5);
    for row in &r.rows {
        assert_eq!(row.len(), 4);
    }
    match &r.rows[0][1] {
        NormalizedValue::Text(s) => assert_eq!(s, "hello"),
        _ => panic!("string key lost its value"),
    }
    match &r.rows[0][3] {
        NormalizedValue::Number(NumberValue::Int(ttl)) => assert_eq!(*ttl, 30),
        _ => panic!("positive ttl is not a number"),
    }
    match &r.rows[1][1] {
        NormalizedValue::Text(s) => assert_eq!(s, "<list: 4 items>"),
        _ => panic!("list key lost its summary"),
    }
    assert!(matches!(r.rows[1][3], NormalizedValue::Null));
}

#[test]
fn get_of_a_missing_key_returns_one_null_row() {
    let r = kv_get_result("missing-key", None, 2);
    assert_eq!(r.row_count, 1);
    assert_eq!(r.columns, vec!["key", "value"]);
    assert_eq!(r.rows.len(), 1);
    assert_eq!(r.rows[0].len(), 2);
    match &r.rows[0][0] {
        NormalizedValue::Text(k) => assert_eq!(k, "missing-key"),
        _ => panic!("key column lost"),
    }
    assert!(matches!(r.rows[0][1], NormalizedValue::Null));
}

#[test]
fn get_of_a_present_key_returns_its_value() {
    let r = kv_get_result("k", Some(String::from("v")), 0);
    match &r.rows[0][1] {
        NormalizedValue::Text(v) => assert_eq!(v, "v"),
        _ => panic!("value column lost"),
    }
}

#[test]
fn stats_report_the_store_figures() {
    let s = kv_stats(42, 9000);
    assert_eq!(s.table_count, 1);
    assert_eq!(s.total_row_count, 42);
    assert_eq!(s.disk_usage_bytes, 9000);
}

#[test]
fn used_memory_is_read_from_the_info_text() {
    let info = "# Memory\r\nused_memory:1048576\r\nused_memory_human:1.00M\r\n";
    assert_eq!(parse_used_memory(info), 1048576);
}

#[test]
fn missing_or_malformed_used_memory_reads_as_zero() {
    assert_eq!(parse_used_memory("# Memory\r\nmaxmemory:0\r\n"), 0);
    assert_eq!(parse_used_memory(""), 0);
    assert_eq!(parse_used_memory("used_memory:not-a-number\r\n"), 0);
}
