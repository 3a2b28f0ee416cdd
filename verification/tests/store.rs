use lrgp::errors::LrgpError;
use lrgp::store::{is_allowed_column, list_sessions_query, next_action_number, update_session_sql, validate_update_columns};

#[test]
fn test_update_session_rejects_invalid_column() {
    let updates = vec![("evil_column; DROP TABLE--".to_string(), "hack".to_string())];
    let result = validate_update_columns(&updates);
    assert!(result.is_err());
}

#[test]
fn test_next_action_num() {
    assert_eq!(next_action_number(None), 1);
    assert_eq!(next_action_number(Some(1)), 2);
}

#[test]
fn test_update_session_sql() {
    let updates = vec![("status".to_string(), "active".to_string()), ("unread".to_string(), "1".to_string())];
    assert!(validate_update_columns(&updates).is_ok());
    assert_eq!(
        update_session_sql(&updates),
        "UPDATE game_sessions SET status = ?3, unread = ?4 WHERE session_id = ?1 AND identity_id = ?2"
    );
}

#[test]
fn test_invalid_column_message() {
    let updates = vec![("status".to_string(), "x".to_string()), ("app_id".to_string(), "y".to_string())];
    match validate_update_columns(&updates) {
        Err(LrgpError::Store(m)) => assert_eq!(m, "invalid column: app_id"),
        _ => panic!("expected a refused column"),
    }
    for c in ["status", "metadata", "unread", "updated_at", "last_action_at", "contact_hash", "initiator"] {
        assert!(is_allowed_column(c));
    }
    assert!(!is_allowed_column("session_id"));
    assert!(validate_update_columns(&Vec::new()).is_ok());
}

#[test]
fn test_list_sessions_query() {
    let (sql, params) = list_sessions_query(Some("id1"), None, None);
    assert!(sql.ends_with("FROM game_sessions WHERE identity_id = ?1 ORDER BY updated_at DESC"));
    assert_eq!(params, vec!["id1".to_string()]);
    let (sql, params) = list_sessions_query(Some("id1"), Some("pending"), Some("ttt"));
    assert!(sql.ends_with(" WHERE identity_id = ?1 AND status = ?2 AND app_id = ?3 ORDER BY updated_at DESC"));
    assert_eq!(params, vec!["id1".to_string(), "pending".to_string(), "ttt".to_string()]);
    let (sql, params) = list_sessions_query(None, Some("active"), None);
    assert!(sql.ends_with(" WHERE status = ?1 ORDER BY updated_at DESC"));
    assert_eq!(params.len(), 1);
    let (sql, params) = list_sessions_query(None, None, None);
    assert!(sql.starts_with("SELECT session_id, identity_id, app_id, "));
    assert!(sql.ends_with("last_action_at FROM game_sessions ORDER BY updated_at DESC"));
    assert!(params.is_empty());
}

fn session_table() -> rusqlite::Connection {
    let conn = rusqlite::Connection::open_in_memory().unwrap();
    conn.execute_batch(
        "CREATE TABLE game_sessions (
            session_id TEXT NOT NULL, identity_id TEXT NOT NULL, app_id TEXT NOT NULL,
            app_version INTEGER NOT NULL DEFAULT 1, contact_hash TEXT NOT NULL DEFAULT '',
            initiator TEXT NOT NULL DEFAULT '', status TEXT NOT NULL DEFAULT 'pending',
            metadata TEXT NOT NULL DEFAULT '{}', unread INTEGER NOT NULL DEFAULT 0,
            created_at REAL NOT NULL, updated_at REAL NOT NULL, last_action_at REAL NOT NULL,
            PRIMARY KEY (session_id, identity_id));",
    )
    .unwrap();
    conn
}

fn insert_session(conn: &rusqlite::Connection, session_id: &str, status: &str) {
    conn.execute(
        "INSERT INTO game_sessions (session_id, identity_id, app_id, app_version, contact_hash, initiator,
         status, metadata, unread, created_at, updated_at, last_action_at)
         VALUES (?1, 'id1', 'ttt', 1, 'remote', 'id1', ?2, '{}', 0, 1.0, 1.0, 1.0)",
        (session_id, status),
    )
    .unwrap();
}

#[test]
fn test_update_session() {
    let conn = session_table();
    insert_session(&conn, "s1", "pending");

    let updates = vec![("status".to_string(), "active".to_string()), ("unread".to_string(), "1".to_string())];
    validate_update_columns(&updates).unwrap();
    let sql = update_session_sql(&updates);
    conn.execute(&sql, ("s1", "id1", updates[0].1.as_str(), updates[1].1.as_str())).unwrap();

    let status: String = conn
        .query_row("SELECT status FROM game_sessions WHERE session_id = 's1'", [], |r| r.get(0))
        .unwrap();
    assert_eq!(status, "active");
}

#[test]
fn test_list_sessions() {
    let conn = session_table();
    for i in 0..3 {
        insert_session(&conn, &format!("s{i}"), if i == 2 { "active" } else { "pending" });
    }
    let count = |identity: Option<&str>, status: Option<&str>| -> usize {
        let (sql, params) = list_sessions_query(identity, status, None);
        let mut stmt = conn.prepare(&sql).unwrap();
        let refs: Vec<&dyn rusqlite::types::ToSql> = params.iter().map(|p| p as &dyn rusqlite::types::ToSql).collect();
        let rows = stmt.query_map(refs.as_slice(), |r| r.get::<_, String>(0)).unwrap();
        rows.count()
    };
    assert_eq!(count(Some("id1"), None), 3);
    assert_eq!(count(Some("id1"), Some("pending")), 2);
}
