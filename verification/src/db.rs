//! Backend-independent result model and the client capability
//! interface.
//!
//! A `QueryResult` is the single generic tabular shape every backend
//! produces: column display names in result-set order, and rows whose
//! width always equals the number of columns. Cells are rendered as
//! strings; a `NULL` or undecodable cell renders as the literal string
//! `"NULL"`.

pub mod cells;
pub mod postgres;
pub mod sqlite;

use vstd::prelude::*;

use crate::db::postgres::PostgresClient;
use crate::db::sqlite::SqliteClient;
use crate::error::AppError;
use crate::state::DatabaseType;

verus! {

/// One queryable relation, as reported by schema introspection.
/// Identity is the pair of schema and name.
#[derive(Debug, Clone)]
pub struct Table {
    pub name: String,
    pub schema: Option<String>,
}

/// One column of a table, as reported by schema introspection.
/// `is_primary_key` is best effort: it may be `false` even for a key
/// column on backends where determining membership would need a more
/// expensive query.
#[derive(Debug, Clone)]
pub struct Column {
    pub name: String,
    pub data_type: String,
    pub is_nullable: bool,
    pub is_primary_key: bool,
}

/// The generic tabular result of one statement execution.
#[derive(Debug, Clone)]
pub struct QueryResult {
    pub columns: Vec<String>,
    pub rows: Vec<Vec<String>>,
}

/// Every row of a well-formed result has exactly one cell per column.
pub open spec fn query_result_wf(r: QueryResult) -> bool {
    forall|i: int| 0 <= i < r.rows@.len() ==> (#[trigger] r.rows@[i])@.len() == r.columns@.len()
}

/// The capability interface of one live backend connection: schema
/// introspection and verbatim statement execution. Implemented once
/// per backend kind.
pub trait DatabaseClient {
    /// Lists the user-visible relations of the connected database,
    /// excluding backend-internal namespaces. A failure is reported
    /// as a `TableFetch` error.
    fn get_tables(&self) -> (r: Result<Vec<Table>, AppError>)
        ensures
            r is Err ==> r->Err_0 is TableFetch,
    ;

    /// Lists the columns of the named table. The name is not escaped
    /// by this layer. A failure is reported as a `TableFetch` error.
    fn get_columns(&self, table_name: &str) -> (r: Result<Vec<Column>, AppError>)
        ensures
            r is Err ==> r->Err_0 is TableFetch,
    ;

    /// Executes the caller-supplied SQL text verbatim. Any statement
    /// kind is accepted. On success the result is well formed; a
    /// statement returning no rows yields empty columns and rows. A
    /// failure is reported as a `QueryExecution` error.
    fn execute_query(&self, query: &str) -> (r: Result<QueryResult, AppError>)
        ensures
            r is Ok ==> query_result_wf(r->Ok_0),
            r is Err ==> r->Err_0 is QueryExecution,
    ;
}

/// The closed sum of the backend clients, selected by the stored
/// backend kind at connection time and matched at each call site.
pub enum ActiveClient {
    Sqlite(SqliteClient),
    Postgres(PostgresClient),
}

impl ActiveClient {
    /// Constructs the client that the record's backend kind selects.
    /// Any failure to connect is a connection error.
    pub fn connect(db_type: DatabaseType, connection_string: &str) -> (r: Result<
        ActiveClient,
        AppError,
    >)
        ensures
            r is Err ==> r->Err_0 is DatabaseConnection,
            r is Ok ==> (r->Ok_0 is Sqlite <==> db_type is Sqlite),
    {
        match db_type {
            DatabaseType::Sqlite => match SqliteClient::new(connection_string) {
                Ok(c) => Ok(ActiveClient::Sqlite(c)),
                Err(e) => Err(e),
            },
            DatabaseType::Postgres => match PostgresClient::new(connection_string) {
                Ok(c) => Ok(ActiveClient::Postgres(c)),
                Err(e) => Err(e),
            },
        }
    }
}

impl DatabaseClient for ActiveClient {
    fn get_tables(&self) -> (r: Result<Vec<Table>, AppError>) {
        match self {
            ActiveClient::Sqlite(c) => c.tables(),
            ActiveClient::Postgres(c) => c.tables(),
        }
    }

    fn get_columns(&self, table_name: &str) -> (r: Result<Vec<Column>, AppError>) {
        match self {
            ActiveClient::Sqlite(c) => c.columns(table_name),
            ActiveClient::Postgres(c) => c.columns(table_name),
        }
    }

    fn execute_query(&self, query: &str) -> (r: Result<QueryResult, AppError>) {
        match self {
            ActiveClient::Sqlite(c) => c.query(query),
            ActiveClient::Postgres(c) => c.query(query),
        }
    }
}

} // verus!
