use dbadapter::model::{AppError, ConnectParams, DatabaseKind, TableSchema};
use dbadapter::mysql::{
    mysql_column, mysql_group_indexes, mysql_stats, mysql_table_schema, mysql_url, MySqlColumnRow,
    MySqlIndexRow,
};
use dbadapter::postgres::{
    chain_error_text, pg_column, pg_connect_string, pg_error_text, pg_escape, pg_row_count,
    pg_stats, pg_table_schema, PgColumnRow, PgErrorInfo,
};
use dbadapter::schema::{find_table, sort_tables_by_name};
use dbadapter::sqlite::{sqlite_column, sqlite_fk, sqlite_stats, sqlite_table_schema, SqliteColumnRow};

fn table(name: &str, rows: u64) -> TableSchema {
    TableSchema { name: String::from(name), columns: vec![], row_count: rows }
}

#[test]
fn tables_come_back_ordered_by_name() {
    let tables = vec![table("orders", 1), table("accounts", 2), table("users", 3), table("items", 4)];
    let sorted = sort_tables_by_name(tables);
    let names: Vec<&str> = sorted.iter().map(|t| t.name.as_str()).collect();
    assert_eq!(names, vec!["accounts", "items", "orders", "users"]);
    assert_eq!(sorted.len(), 4);
}

#[test]
fn sorting_keeps_every_table() {
    let tables = vec![table("b", 1), table("a", 2), table("b", 3)];
    let sorted = sort_tables_by_name(tables);
    assert_eq!(sorted.len(), 3);
    let mut rows: Vec<u64> = sorted.iter().map(|t| t.row_count).collect();
    rows.sort();
    assert_eq!(rows, vec![1, 2, 3]);
}

#[test]
fn find_table_returns_the_named_table() {
    let tables = vec![table("a", 1), table("t", 2), table("z", 3)];
    let t = find_table(tables, "t").expect("table t should be found");
    assert_eq!(t.name, "t");
    assert_eq!(t.row_count, 2);
}

#[test]
fn find_table_reports_an_absent_table() {
    let tables = vec![table("a", 1)];
    match find_table(tables, "ghost") {
        Err(AppError::NotFound(m)) => assert_eq!(m, "Table ghost not found"),
        _ => panic!("an absent table should be not-found"),
    }
}

#[test]
fn pg_columns_read_the_catalog_flags() {
    let c = pg_column(&PgColumnRow {
        name: String::from("id"),
        data_type: String::from("integer"),
        is_nullable: String::from("NO"),
        is_pk: true,
    });
    assert_eq!(c.name, "id");
    assert_eq!(c.data_type, "integer");
    assert!(!c.nullable);
    assert!(c.primary_key);
    let c2 = pg_column(&PgColumnRow {
        name: String::from("note"),
        data_type: String::from("text"),
        is_nullable: String::from("YES"),
        is_pk: false,
    });
    assert!(c2.nullable);
    assert!(!c2.primary_key);
}

#[test]
fn planner_estimates_clamp_to_zero() {
    assert_eq!(pg_row_count(-1), 0);
    assert_eq!(pg_row_count(0), 0);
    assert_eq!(pg_row_count(123), 123);
}

#[test]
fn pg_schema_keeps_column_order() {
    let rows = vec![
        PgColumnRow {
            name: String::from("id"),
            data_type: String::from("integer"),
            is_nullable: String::from("NO"),
            is_pk: true,
        },
        PgColumnRow {
            name: String::from("name"),
            data_type: String::from("text"),
            is_nullable: String::from("YES"),
            is_pk: false,
        },
    ];
    let t = pg_table_schema(String::from("users"), rows, -5);
    assert_eq!(t.name, "users");
    assert_eq!(t.row_count, 0);
    assert_eq!(t.columns.len(), 2);
    assert_eq!(t.columns[0].name, "id");
    assert_eq!(t.columns[1].name, "name");
}

#[test]
fn connection_string_values_are_escaped() {
    assert_eq!(pg_escape("plain"), "'plain'");
    assert_eq!(pg_escape("O'Brien"), "'O\\'Brien'");
    assert_eq!(pg_escape("a\\b"), "'a\\\\b'");
}

#[test]
fn connection_string_is_assembled_exactly() {
    let p = ConnectParams {
        kind: DatabaseKind::PostgreSQL,
        host: String::from("db.example"),
        port: 5432,
        database: String::from("shop"),
        username: String::from("admin"),
        password: String::from("s3cret"),
        use_ssl: false,
    };
    assert_eq!(
        pg_connect_string(&p),
        "host='db.example' port=5432 dbname='shop' user='admin' password='s3cret' sslmode=disable"
    );
    let tls = ConnectParams { use_ssl: true, ..p };
    assert!(pg_connect_string(&tls).ends_with("sslmode=require"));
}

#[test]
fn database_errors_expand_every_field() {
    let full = PgErrorInfo {
        severity: String::from("ERROR"),
        message: String::from("duplicate key"),
        detail: Some(String::from("Key (id)=(1) already exists.")),
        hint: Some(String::from("use another id")),
    };
    assert_eq!(
        pg_error_text(&full),
        "ERROR: duplicate key — Key (id)=(1) already exists. (hint: use another id)"
    );
    let bare = PgErrorInfo {
        severity: String::from("FATAL"),
        message: String::from("terminating"),
        detail: None,
        hint: None,
    };
    assert_eq!(pg_error_text(&bare), "FATAL: terminating");
}

#[test]
fn cause_chains_are_joined_in_order() {
    let causes = vec![String::from("io error"), String::from("connection reset")];
    assert_eq!(
        chain_error_text(String::from("query failed"), &causes),
        "query failed: io error: connection reset"
    );
    assert_eq!(chain_error_text(String::from("alone"), &vec![]), "alone");
}

#[test]
fn pg_stats_clamp_negative_figures() {
    let s = pg_stats(-1, -2, -3);
    assert_eq!(s.table_count, 0);
    assert_eq!(s.total_row_count, 0);
    assert_eq!(s.disk_usage_bytes, 0);
    let s2 = pg_stats(5, 100, 4096);
    assert_eq!(s2.table_count, 5);
    assert_eq!(s2.total_row_count, 100);
    assert_eq!(s2.disk_usage_bytes, 4096);
}

#[test]
fn mysql_columns_read_the_catalog_flags() {
    let c = mysql_column(&MySqlColumnRow {
        name: String::from("id"),
        column_type: String::from("bigint(20)"),
        is_nullable: String::from("NO"),
        column_key: String::from("PRI"),
    });
    assert!(!c.nullable);
    assert!(c.primary_key);
    assert_eq!(c.data_type, "bigint(20)");
    let c2 = mysql_column(&MySqlColumnRow {
        name: String::from("note"),
        column_type: String::from("text"),
        is_nullable: String::from("YES"),
        column_key: String::from(""),
    });
    assert!(c2.nullable);
    assert!(!c2.primary_key);
}

#[test]
fn mysql_schema_uses_the_first_count_or_zero() {
    let t = mysql_table_schema(String::from("t"), vec![], vec![66, 99]);
    assert_eq!(t.row_count, 66);
    let t2 = mysql_table_schema(String::from("t"), vec![], vec![]);
    assert_eq!(t2.row_count, 0);
}

#[test]
fn mysql_url_is_assembled_exactly() {
    let p = ConnectParams {
        kind: DatabaseKind::MySQL,
        host: String::from("db.example"),
        port: 3306,
        database: String::from("shop"),
        username: String::from("root"),
        password: String::from("pw"),
        use_ssl: false,
    };
    assert_eq!(mysql_url(&p), "mysql://root:pw@db.example:3306/shop");
}

#[test]
fn index_rows_group_by_name_keeping_column_order() {
    let rows = vec![
        MySqlIndexRow {
            index_name: String::from("PRIMARY"),
            column_name: String::from("id"),
            non_unique: 0,
        },
        MySqlIndexRow {
            index_name: String::from("by_name"),
            column_name: String::from("last"),
            non_unique: 1,
        },
        MySqlIndexRow {
            index_name: String::from("by_name"),
            column_name: String::from("first"),
            non_unique: 1,
        },
    ];
    let grouped = mysql_group_indexes(&rows);
    assert_eq!(grouped.len(), 2);
    assert_eq!(grouped[0].name, "PRIMARY");
    assert!(grouped[0].unique);
    assert_eq!(grouped[0].columns, vec![String::from("id")]);
    assert_eq!(grouped[1].name, "by_name");
    assert!(!grouped[1].unique);
    assert_eq!(grouped[1].columns, vec![String::from("last"), String::from("first")]);
}

#[test]
fn mysql_stats_zero_fill_when_the_catalog_is_silent() {
    let s = mysql_stats(Some((4, 200, 8192)));
    assert_eq!((s.table_count, s.total_row_count, s.disk_usage_bytes), (4, 200, 8192));
    let none = mysql_stats(None);
    assert_eq!((none.table_count, none.total_row_count, none.disk_usage_bytes), (0, 0, 0));
}

#[test]
fn sqlite_columns_read_the_pragma_flags() {
    let c = sqlite_column(&SqliteColumnRow {
        name: String::from("id"),
        data_type: String::from("INTEGER"),
        notnull: 0,
        pk: 1,
    });
    assert!(c.nullable);
    assert!(c.primary_key);
    let c2 = sqlite_column(&SqliteColumnRow {
        name: String::from("name"),
        data_type: String::from("TEXT"),
        notnull: 1,
        pk: 0,
    });
    assert!(!c2.nullable);
    assert!(!c2.primary_key);
}

#[test]
fn sqlite_foreign_keys_get_synthesized_names() {
    let fk = sqlite_fk(0, String::from("user_id"), String::from("users"), String::from("id"));
    assert_eq!(fk.name, "fk_0");
    assert_eq!(fk.from_column, "user_id");
    assert_eq!(fk.to_table, "users");
    assert_eq!(fk.to_column, "id");
}

#[test]
fn sqlite_stats_sum_the_schema_and_pages() {
    let schema = vec![table("a", 10), table("b", 32)];
    let s = sqlite_stats(&schema, 12, 4096);
    assert_eq!(s.table_count, 2);
    assert_eq!(s.total_row_count, 42);
    assert_eq!(s.disk_usage_bytes, 12 * 4096);
}

#[test]
fn sqlite_stats_saturate_rather_than_overflow() {
    let schema = vec![table("a", u64::MAX), table("b", 5)];
    let s = sqlite_stats(&schema, u64::MAX, 2);
    assert_eq!(s.total_row_count, u64::MAX);
    assert_eq!(s.disk_usage_bytes, u64::MAX);
}

#[test]
fn sqlite_schema_keeps_the_exact_count() {
    let t = sqlite_table_schema(
        String::from("t"),
        vec![SqliteColumnRow {
            name: String::from("id"),
            data_type: String::from("INTEGER"),
            notnull: 0,
            pk: 1,
        }],
        1,
    );
    assert_eq!(t.row_count, 1);
    assert_eq!(t.columns.len(), 1);
    assert!(t.columns[0].primary_key);
}

#[test]
fn empty_values_escape_to_bare_quotes() {
    assert_eq!(pg_escape(""), "''");
}

#[test]
fn negative_pragma_identifiers_keep_their_sign() {
    let fk = sqlite_fk(-3, String::from("a"), String::from("b"), String::from("c"));
    assert_eq!(fk.name, "fk_-3");
}
