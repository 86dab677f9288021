use dbadapter::lifecycle::{build_connect_params, find_connection, plan_auto_connect};
use dbadapter::model::{AppError, DatabaseConnection, DatabaseKind};
use dbadapter::registry::ConnectionRegistry;

fn record(id: &str, db_type: &str, password: &str) -> DatabaseConnection {
    DatabaseConnection {
        id: String::from(id),
        name: String::from(id),
        db_type: String::from(db_type),
        host: String::from("localhost"),
        port: 5432,
        database: String::from("db"),
        username: String::from("u"),
        connected: false,
        password: String::from(password),
        use_ssl: false,
    }
}

#[test]
fn connect_then_get_returns_the_adapter() {
    let mut r: ConnectionRegistry<u64> = ConnectionRegistry::new();
    assert!(r.connect(String::from("a"), 11).is_none());
    assert_eq!(r.get("a"), Some(&11));
    assert_eq!(r.get("b"), None);
}

#[test]
fn reconnect_replaces_the_entry() {
    let mut r: ConnectionRegistry<u64> = ConnectionRegistry::new();
    r.connect(String::from("a"), 11);
    let prior = r.connect(String::from("a"), 22);
    assert_eq!(prior, Some(11));
    assert_eq!(r.get("a"), Some(&22));
    assert_eq!(r.active_ids().len(), 1);
}

#[test]
fn disconnect_is_idempotent_and_never_errors() {
    let mut r: ConnectionRegistry<u64> = ConnectionRegistry::new();
    r.connect(String::from("a"), 11);
    assert_eq!(r.disconnect("a"), Some(11));
    assert_eq!(r.disconnect("a"), None);
    assert_eq!(r.disconnect("never-connected"), None);
    assert!(r.active_ids().is_empty());
}

#[test]
fn distinct_connects_all_appear_in_active_ids() {
    let mut r: ConnectionRegistry<u64> = ConnectionRegistry::new();
    let n = 8;
    for i in 0..n {
        assert!(r.connect(format!("conn-{}", i), i).is_none());
    }
    let mut ids = r.active_ids();
    assert_eq!(ids.len(), n as usize);
    ids.sort();
    ids.dedup();
    assert_eq!(ids.len(), n as usize);
    for i in 0..n {
        assert!(ids.contains(&format!("conn-{}", i)));
    }
}

#[test]
fn find_connection_matches_by_identifier() {
    let records = vec![record("a", "postgres", "pw"), record("b", "sqlite", "")];
    let c = find_connection(&records, "b").expect("record b should be found");
    assert_eq!(c.id, "b");
    match find_connection(&records, "zz") {
        Err(AppError::NotFound(m)) => assert_eq!(m, "Connection zz not found"),
        _ => panic!("a missing record should be not-found"),
    }
}

#[test]
fn connect_params_come_from_the_record_and_credentials() {
    let c = record("a", "postgres", "old");
    let p = build_connect_params(&c, String::from("fresh"), true).expect("postgres should parse");
    assert_eq!(p.kind, DatabaseKind::PostgreSQL);
    assert_eq!(p.host, "localhost");
    assert_eq!(p.port, 5432);
    assert_eq!(p.password, "fresh");
    assert!(p.use_ssl);
}

#[test]
fn unknown_backend_types_are_rejected() {
    let c = record("a", "mongodb", "pw");
    match build_connect_params(&c, String::from("pw"), false) {
        Err(AppError::ConnectionFailed(m)) => {
            assert_eq!(m, "Unsupported database type: mongodb")
        }
        _ => panic!("an unknown backend should be rejected"),
    }
}

#[test]
fn auto_connect_plan_sorts_records_into_buckets() {
    let mut registry: ConnectionRegistry<u64> = ConnectionRegistry::new();
    registry.connect(String::from("live"), 1);
    let records = vec![
        record("live", "postgres", "pw"),
        record("no-password", "mysql", ""),
        record("sqlite-no-password", "SQLite", ""),
        record("fresh", "redis", "pw"),
        record("unknown-kind", "mongodb", "pw"),
    ];
    let (already, attempts) = plan_auto_connect(&records, &registry);
    assert_eq!(already, vec![String::from("live")]);
    let attempt_ids: Vec<&str> = attempts.iter().map(|(id, _)| id.as_str()).collect();
    assert_eq!(attempt_ids, vec!["sqlite-no-password", "fresh"]);
    assert_eq!(attempts[0].1.kind, DatabaseKind::SQLite);
    assert_eq!(attempts[1].1.kind, DatabaseKind::Redis);
}
