use slick_dataui::state::{AppState, ConnectionConfig, DatabaseType};

#[test]
fn state_test_new() {
    let state = AppState::new(vec![]);
    assert!(state.connections.is_empty());
    assert!(state.active_connection.is_none());
    assert!(state.active_connection_name.is_none());
    assert!(state.tables.is_empty());
    assert!(state.query_results.is_none());
    assert!(!state.is_connecting);
    assert!(state.error_message.is_none());
}

#[test]
fn test_toggle_connecting() {
    let mut state = AppState::new(vec![]);
    assert!(!state.is_connecting);
    state.toggle_connecting();
    assert!(state.is_connecting);
    state.toggle_connecting();
    assert!(!state.is_connecting);
}

#[test]
fn test_add_connection_appends_and_renders() {
    let mut state = AppState::new(vec![]);
    let json = state.add_connection(ConnectionConfig {
        name: "local".to_string(),
        db_type: DatabaseType::Sqlite,
        connection_string: "sqlite::memory:".to_string(),
    });
    assert_eq!(state.connections.len(), 1);
    assert_eq!(state.connections[0].name, "local");
    assert_eq!(
        json,
        "[{\"name\":\"local\",\"db_type\":\"Sqlite\",\"unsafe_password\":\"sqlite::memory:\"}]"
    );
}

#[test]
fn test_install_results_advances_generation() {
    let mut state = AppState::new(vec![]);
    assert_eq!(state.result_id, 0);
    state.install_results(slick_dataui::db::QueryResult {
        columns: vec!["a".to_string()],
        rows: vec![vec!["1".to_string()]],
    });
    assert_eq!(state.result_id, 1);
    assert!(state.query_results.is_some());
}

#[test]
fn test_connection_config_equality() {
    let a = ConnectionConfig {
        name: "n".to_string(),
        db_type: DatabaseType::Postgres,
        connection_string: "postgres://h/db".to_string(),
    };
    let b = a.clone();
    assert!(a == b);
    let c = ConnectionConfig {
        connection_string: "postgres://other/db".to_string(),
        ..a.clone()
    };
    assert!(a != c);
}

#[test]
fn test_report_error_keeps_results() {
    let mut state = AppState::new(vec![]);
    state.install_results(slick_dataui::db::QueryResult {
        columns: vec!["a".to_string()],
        rows: vec![],
    });
    state.report_error("Sort failed: boom".to_string());
    assert_eq!(state.error_message.as_deref(), Some("Sort failed: boom"));
    assert!(state.query_results.is_some());
}
