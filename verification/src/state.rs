//! Connection records and the mutable application state that the UI
//! layer observes.

use vstd::prelude::*;

use crate::db::{ActiveClient, QueryResult, Table};

verus! {

/// The backend kind a connection record selects at connection time.
#[derive(Debug, Clone, Copy, PartialEq, Eq, Structural)]
pub enum DatabaseType {
    Sqlite,
    Postgres,
}

/// One stored connection: a unique name, the backend kind, and the
/// connection string, which holds the secret. Records are appended
/// and removed whole, never mutated in place.
#[derive(Debug, Clone)]
pub struct ConnectionConfig {
    pub name: String,
    pub db_type: DatabaseType,
    pub connection_string: String,
}

impl PartialEq for ConnectionConfig {
    fn eq(&self, other: &Self) -> (r: bool) {
        self.name == other.name && self.db_type == other.db_type
            && self.connection_string == other.connection_string
    }
}

impl vstd::std_specs::cmp::PartialEqSpecImpl for ConnectionConfig {
    open spec fn obeys_eq_spec() -> bool {
        true
    }

    open spec fn eq_spec(&self, other: &Self) -> bool {
        self.name@ == other.name@ && self.db_type == other.db_type
            && self.connection_string@ == other.connection_string@
    }
}

/// The state the UI renders from: the stored connections, the live
/// client (if any), the introspected tables, the latest query result
/// snapshot, and the sort bookkeeping of the results table.
pub struct AppState {
    pub connections: Vec<ConnectionConfig>,
    pub active_connection: Option<ActiveClient>,
    pub active_connection_name: Option<String>,
    pub tables: Vec<Table>,
    pub query_results: Option<QueryResult>,
    pub is_connecting: bool,
    pub error_message: Option<String>,
    pub current_query: Option<String>,
    pub sort_column: Option<String>,
    pub sort_ascending: bool,
    pub result_id: u64,
}

impl AppState {
    /// A fresh state over the connection records loaded at startup:
    /// no live client, no tables, no results, no error, and the
    /// result-generation counter at its start.
    pub fn new(connections: Vec<ConnectionConfig>) -> (r: AppState)
        ensures
            r.connections == connections,
            r.active_connection is None,
            r.active_connection_name is None,
            r.tables@.len() == 0,
            r.query_results is None,
            !r.is_connecting,
            r.error_message is None,
            r.current_query is None,
            r.sort_column is None,
            !r.sort_ascending,
            r.result_id == 0,
    {
        AppState {
            connections,
            active_connection: None,
            active_connection_name: None,
            tables: Vec::new(),
            query_results: None,
            is_connecting: false,
            error_message: None,
            current_query: None,
            sort_column: None,
            sort_ascending: false,
            result_id: 0,
        }
    }

    /// Appends one connection record and saves the whole list:
    /// secrets go to secure storage best effort, and the returned
    /// document is what the caller writes to the connections file.
    pub fn add_connection(&mut self, config: ConnectionConfig) -> (json: String)
        ensures
            final(self).connections@ == old(self).connections@.push(config),
            json@ == crate::persistence::json_of_metas(
                crate::persistence::saved_views(final(self).connections@),
            ),
            final(self).active_connection == old(self).active_connection,
            final(self).tables == old(self).tables,
            final(self).query_results == old(self).query_results,
            final(self).is_connecting == old(self).is_connecting,
            final(self).error_message == old(self).error_message,
            final(self).result_id == old(self).result_id,
    {
        self.connections.push(config);
        crate::persistence::save_connections(&self.connections)
    }

    /// Flips the connection-modal flag and changes nothing else.
    pub fn toggle_connecting(&mut self)
        ensures
            final(self).is_connecting == !old(self).is_connecting,
            final(self).connections == old(self).connections,
            final(self).active_connection == old(self).active_connection,
            final(self).active_connection_name == old(self).active_connection_name,
            final(self).tables == old(self).tables,
            final(self).query_results == old(self).query_results,
            final(self).error_message == old(self).error_message,
            final(self).current_query == old(self).current_query,
            final(self).sort_column == old(self).sort_column,
            final(self).sort_ascending == old(self).sort_ascending,
            final(self).result_id == old(self).result_id,
    {
        self.is_connecting = !self.is_connecting;
    }

    /// Surfaces an error to the UI without discarding the current
    /// result snapshot: a failed re-execution leaves the previous
    /// results standing.
    pub fn report_error(&mut self, message: String)
        ensures
            final(self).error_message == Some(message),
            final(self).query_results == old(self).query_results,
            final(self).connections == old(self).connections,
            final(self).tables == old(self).tables,
            final(self).result_id == old(self).result_id,
    {
        self.error_message = Some(message);
    }

    /// Installs a new result snapshot and advances the
    /// result-generation counter, so the UI knows a redraw is due.
    /// The counter saturates at its maximum rather than wrapping.
    pub fn install_results(&mut self, results: QueryResult)
        ensures
            final(self).query_results == Some(results),
            final(self).result_id == if old(self).result_id == u64::MAX {
                u64::MAX as int
            } else {
                old(self).result_id + 1
            },
            final(self).connections == old(self).connections,
            final(self).error_message == old(self).error_message,
    {
        self.query_results = Some(results);
        if self.result_id < u64::MAX {
            self.result_id = self.result_id + 1;
        }
    }
}

} // verus!
