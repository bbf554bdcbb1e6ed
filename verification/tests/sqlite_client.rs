use slick_dataui::db::sqlite::SqliteClient;
use slick_dataui::db::DatabaseClient;
use slick_dataui::error::AppError;

#[test]
fn test_connection() {
    let result = SqliteClient::new("sqlite::memory:");
    assert!(result.is_ok());
}

#[test]
fn test_get_tables() {
    let client = SqliteClient::new("sqlite::memory:").unwrap();

    client
        .execute_query("CREATE TABLE test_table (id INTEGER PRIMARY KEY, name TEXT)")
        .unwrap();

    let tables = client.get_tables().unwrap();

    assert!(tables.iter().any(|t| t.name == "test_table"));
}

#[test]
fn test_get_columns() {
    let client = SqliteClient::new("sqlite::memory:").unwrap();

    client
        .execute_query("CREATE TABLE test_table (id INTEGER PRIMARY KEY, name TEXT)")
        .unwrap();

    let columns = client.get_columns("test_table").unwrap();

    assert_eq!(columns.len(), 2);
    assert!(columns.iter().any(|c| c.name == "id" && c.is_primary_key));
    assert!(columns.iter().any(|c| c.name == "name" && !c.is_primary_key));
}

#[test]
fn test_execute_query() {
    let client = SqliteClient::new("sqlite::memory:").unwrap();

    client
        .execute_query("CREATE TABLE test_table (id INTEGER PRIMARY KEY, name TEXT)")
        .unwrap();
    client
        .execute_query("INSERT INTO test_table (name) VALUES ('Alice')")
        .unwrap();
    client
        .execute_query("INSERT INTO test_table (name) VALUES ('Bob')")
        .unwrap();

    let result = client
        .execute_query("SELECT * FROM test_table ORDER BY id")
        .unwrap();

    assert_eq!(result.rows.len(), 2);
    assert_eq!(result.rows[0][1], "Alice");
    assert_eq!(result.rows[1][1], "Bob");
}

#[test]
fn test_every_row_as_wide_as_columns() {
    let client = SqliteClient::new("sqlite::memory:").unwrap();
    client
        .execute_query("CREATE TABLE t (a INTEGER, b TEXT, c TEXT)")
        .unwrap();
    client
        .execute_query("INSERT INTO t VALUES (1, 'x', 'y'), (2, 'z', NULL), (3, NULL, NULL)")
        .unwrap();
    let result = client.execute_query("SELECT * FROM t").unwrap();
    assert_eq!(result.columns.len(), 3);
    for row in &result.rows {
        assert_eq!(row.len(), result.columns.len());
    }
}

#[test]
fn test_null_cell_renders_as_null_literal() {
    let client = SqliteClient::new("sqlite::memory:").unwrap();
    client.execute_query("CREATE TABLE t (a TEXT)").unwrap();
    client.execute_query("INSERT INTO t VALUES (NULL)").unwrap();
    let result = client.execute_query("SELECT a FROM t").unwrap();
    assert_eq!(result.rows[0][0], "NULL");
}

#[test]
fn test_integer_cell_parses_back() {
    let client = SqliteClient::new("sqlite::memory:").unwrap();
    client.execute_query("CREATE TABLE t (a INTEGER)").unwrap();
    client
        .execute_query("INSERT INTO t VALUES (42), (-17), (0)")
        .unwrap();
    let result = client.execute_query("SELECT a FROM t ORDER BY a").unwrap();
    for row in &result.rows {
        let parsed: i32 = row[0].parse().unwrap();
        assert_eq!(parsed.to_string(), row[0]);
    }
    assert_eq!(result.rows[0][0], "-17");
    assert_eq!(result.rows[1][0], "0");
    assert_eq!(result.rows[2][0], "42");
}

#[test]
fn test_bad_sql_is_query_execution_error() {
    let client = SqliteClient::new("sqlite::memory:").unwrap();
    let err = client.execute_query("NOT REALLY SQL").unwrap_err();
    assert!(matches!(err, AppError::QueryExecution(_)));
    assert!(err.message().starts_with("Query execution failed: "));
}

#[test]
fn test_bad_table_name_is_table_fetch_error() {
    let client = SqliteClient::new("sqlite::memory:").unwrap();
    let err = client.get_columns("no such table ((").unwrap_err();
    assert!(matches!(err, AppError::TableFetch(_)));
    assert!(err.message().starts_with("Failed to fetch tables: "));
}

#[test]
fn test_bad_connection_string_is_connection_error() {
    let err = match SqliteClient::new("postgres://not-a-sqlite-url") {
        Ok(_) => panic!("connection should have failed"),
        Err(e) => e,
    };
    assert!(matches!(err, AppError::DatabaseConnection(_)));
    assert!(err
        .message()
        .starts_with("Database connection failed: "));
}
