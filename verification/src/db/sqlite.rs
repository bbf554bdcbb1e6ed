//! The embedded-file backend client.
//!
//! Every driver call is submitted to the execution bridge; the logic
//! around the calls — building introspection statements, shaping rows
//! and columns, coercing cells — is verified here.

use vstd::prelude::*;

use sqlx::Column as _;
use sqlx::Row as _;

use crate::bridge::ExecutionBridge;
use crate::db::cells::{render_cell, CellProbes};
use crate::db::{query_result_wf, Column, DatabaseClient, QueryResult, Table};
use crate::error::AppError;

verus! {

#[verifier::external_type_specification]
#[verifier::external_body]
pub struct ExSqlite(sqlx::Sqlite);

#[verifier::external_type_specification]
#[verifier::external_body]
pub struct ExSqliteRow(sqlx::sqlite::SqliteRow);

/// An opaque handle to one embedded-engine connection pool. The
/// generic pool type of the driver cannot be declared here, so the
/// handle is held behind this opaque struct.
#[verifier::external_body]
pub struct SqlitePool {
    inner: sqlx::Pool<sqlx::Sqlite>,
}

/// Relies on sqlx's `SqlitePoolOptions::connect`, run to completion on
/// the bridge: opens a pool bound to the given file path or in-memory
/// marker, or fails with the driver's error text.
#[verifier::external_body]
fn sqlite_connect(bridge: &ExecutionBridge, url: &str) -> Result<SqlitePool, String> {
    bridge
        .runtime
        .block_on(sqlx::sqlite::SqlitePoolOptions::new().connect(url))
        .map(|inner| SqlitePool { inner })
        .map_err(|e| e.to_string())
}

/// Relies on sqlx's `query(..).fetch_all`, run to completion on the
/// bridge: executes the statement verbatim and returns all rows, or
/// the driver's error text.
#[verifier::external_body]
fn sqlite_fetch_all(
    bridge: &ExecutionBridge,
    pool: &SqlitePool,
    sql: &str,
) -> Result<Vec<sqlx::sqlite::SqliteRow>, String> {
    let sql = sqlx::AssertSqlSafe(sql.to_string());
    bridge
        .runtime
        .block_on(sqlx::query(sql).fetch_all(&pool.inner))
        .map_err(|e| e.to_string())
}

/// Relies on sqlx's `Row::columns` and `Column::name`: the display
/// names of the row's columns, in result-set order.
#[verifier::external_body]
fn sqlite_column_names(row: &sqlx::sqlite::SqliteRow) -> Vec<String> {
    row.columns().iter().map(|c| c.name().to_string()).collect()
}

/// Relies on sqlx's `Row::try_get::<String>` by index: the cell as
/// text, or the driver's error text when it does not decode.
#[verifier::external_body]
fn sqlite_text_at(row: &sqlx::sqlite::SqliteRow, i: usize) -> Result<String, String> {
    row.try_get::<String, usize>(i).map_err(|e| e.to_string())
}

/// Relies on sqlx's `Row::try_get::<String>` by column name: the named
/// cell as text, or the driver's error text.
#[verifier::external_body]
fn sqlite_text_named(row: &sqlx::sqlite::SqliteRow, name: &str) -> Result<String, String> {
    row.try_get::<String, &str>(name).map_err(|e| e.to_string())
}

/// Relies on sqlx's `Row::try_get::<i32>` by column name: the named
/// cell as a 32-bit integer, or the driver's error text.
#[verifier::external_body]
fn sqlite_i32_named(row: &sqlx::sqlite::SqliteRow, name: &str) -> Result<i32, String> {
    row.try_get::<i32, &str>(name).map_err(|e| e.to_string())
}

/// Relies on sqlx's `Row::try_get::<Option<i32>>` by index: a decode
/// attempt in which both a failure and an SQL `NULL` mean only "try
/// the next type".
#[verifier::external_body]
fn sqlite_probe_i32(row: &sqlx::sqlite::SqliteRow, i: usize) -> Option<i32> {
    row.try_get::<Option<i32>, usize>(i).ok().flatten()
}

/// Relies on sqlx's `Row::try_get::<Option<i64>>` by index: a decode
/// attempt in which both a failure and an SQL `NULL` mean only "try
/// the next type".
#[verifier::external_body]
fn sqlite_probe_i64(row: &sqlx::sqlite::SqliteRow, i: usize) -> Option<i64> {
    row.try_get::<Option<i64>, usize>(i).ok().flatten()
}

/// Relies on sqlx's `Row::try_get::<Option<String>>` by index: a
/// decode attempt in which both a failure and an SQL `NULL` mean only
/// "try the next type".
#[verifier::external_body]
fn sqlite_probe_text(row: &sqlx::sqlite::SqliteRow, i: usize) -> Option<String> {
    row.try_get::<Option<String>, usize>(i).ok().flatten()
}

/// Relies on sqlx's `Row::try_get::<Option<bool>>` by index: a decode
/// attempt in which both a failure and an SQL `NULL` mean only "try
/// the next type".
#[verifier::external_body]
fn sqlite_probe_bool(row: &sqlx::sqlite::SqliteRow, i: usize) -> Option<bool> {
    row.try_get::<Option<bool>, usize>(i).ok().flatten()
}

/// The ordered decode attempts for one cell of an embedded-engine
/// row. A floating-point decode cannot be expressed in this crate, so
/// that slot stays empty and a purely floating-point cell displays as
/// `NULL`.
fn probe_cell(row: &sqlx::sqlite::SqliteRow, i: usize) -> CellProbes {
    CellProbes {
        as_i32: sqlite_probe_i32(row, i),
        as_i64: sqlite_probe_i64(row, i),
        as_f64_text: None,
        as_text: sqlite_probe_text(row, i),
        as_bool: sqlite_probe_bool(row, i),
    }
}

/// The introspection pseudo-statement for one table's columns. The
/// table name is interpolated without escaping: a name holding the
/// statement terminator or an engine-reserved token is a known
/// injection surface of this layer, documented rather than silently
/// fixed.
pub fn pragma_table_info_query(table_name: &str) -> (q: String)
    ensures
        q@ == "PRAGMA table_info("@ + table_name@ + ")"@,
{
    let mut q = String::from_str("PRAGMA table_info(");
    q.append(table_name);
    q.append(")");
    assert(q@ =~= "PRAGMA table_info("@ + table_name@ + ")"@);
    q
}

/// One introspected column, from the fields of a `table_info` row:
/// a column is nullable exactly when its `notnull` flag is zero, and
/// a primary-key member exactly when its `pk` rank is one.
pub fn column_from_pragma(name: String, data_type: String, notnull: i32, pk: i32) -> (c: Column)
    ensures
        c.name == name,
        c.data_type == data_type,
        c.is_nullable == (notnull == 0),
        c.is_primary_key == (pk == 1),
{
    Column { name, data_type, is_nullable: notnull == 0, is_primary_key: pk == 1 }
}

/// The generic tabular result of the fetched rows: the display
/// names of the columns of the first row, and every cell coerced to
/// its display string. A statement returning no rows yields empty
/// columns and empty rows, whatever its projection was.
fn shape_result(rows: Vec<sqlx::sqlite::SqliteRow>) -> (r: QueryResult)
    ensures
        query_result_wf(r),
        rows@.len() == 0 ==> r.columns@.len() == 0 && r.rows@.len() == 0,
        r.rows@.len() == rows@.len(),
{
    if rows.len() == 0 {
        return QueryResult { columns: Vec::new(), rows: Vec::new() };
    }
    let columns = sqlite_column_names(&rows[0]);
    let mut out_rows: Vec<Vec<String>> = Vec::new();
    let mut i: usize = 0;
    while i < rows.len()
        invariant
            i <= rows@.len(),
            out_rows@.len() == i,
            forall|k: int|
                0 <= k < out_rows@.len() ==> (#[trigger] out_rows@[k])@.len() == columns@.len(),
        decreases rows@.len() - i,
    {
        let row = &rows[i];
        let mut cells: Vec<String> = Vec::new();
        let mut j: usize = 0;
        while j < columns.len()
            invariant
                cells@.len() == j,
                j <= columns@.len(),
            decreases columns@.len() - j,
        {
            cells.push(render_cell(probe_cell(row, j)));
            j = j + 1;
        }
        out_rows.push(cells);
        i = i + 1;
    }
    QueryResult { columns, rows: out_rows }
}

/// A client bound to one embedded-file database, holding the
/// connection pool and the execution bridge that carries its calls.
pub struct SqliteClient {
    bridge: ExecutionBridge,
    pool: SqlitePool,
}

impl SqliteClient {
    /// Opens a pool for the given connection string. Any failure —
    /// starting the bridge or connecting — is a connection error.
    pub fn new(url: &str) -> (r: Result<SqliteClient, AppError>)
        ensures
            r is Err ==> r->Err_0 is DatabaseConnection,
    {
        let bridge = match ExecutionBridge::new() {
            Ok(b) => b,
            Err(e) => return Err(e),
        };
        match sqlite_connect(&bridge, url) {
            Ok(pool) => Ok(SqliteClient { bridge, pool }),
            Err(msg) => Err(AppError::DatabaseConnection(msg)),
        }
    }

    /// Lists user tables. The embedded engine has no internal
    /// namespaces to exclude, so every listed table carries no schema.
    pub fn tables(&self) -> (r: Result<Vec<Table>, AppError>)
        ensures
            r is Ok ==> forall|i: int|
                0 <= i < r->Ok_0@.len() ==> (#[trigger] r->Ok_0@[i]).schema is None,
            r is Err ==> r->Err_0 is TableFetch,
    {
        let rows = match sqlite_fetch_all(
            &self.bridge,
            &self.pool,
            "SELECT name FROM sqlite_master WHERE type='table'",
        ) {
            Ok(rows) => rows,
            Err(msg) => return Err(AppError::TableFetch(msg)),
        };
        let mut tables: Vec<Table> = Vec::new();
        let mut i: usize = 0;
        while i < rows.len()
            invariant
                forall|k: int| 0 <= k < tables@.len() ==> (#[trigger] tables@[k]).schema is None,
            decreases rows@.len() - i,
        {
            let name = match sqlite_text_at(&rows[i], 0) {
                Ok(n) => n,
                Err(msg) => return Err(AppError::TableFetch(msg)),
            };
            tables.push(Table { name, schema: None });
            i = i + 1;
        }
        Ok(tables)
    }

    /// Introspects the named table's columns through the `table_info`
    /// pseudo-statement. Any driver failure is a table-fetch error.
    pub fn columns(&self, table_name: &str) -> (r: Result<Vec<Column>, AppError>)
        ensures
            r is Err ==> r->Err_0 is TableFetch,
    {
        let query = pragma_table_info_query(table_name);
        let rows = match sqlite_fetch_all(&self.bridge, &self.pool, query.as_str()) {
            Ok(rows) => rows,
            Err(msg) => return Err(AppError::TableFetch(msg)),
        };
        let mut columns: Vec<Column> = Vec::new();
        let mut i: usize = 0;
        while i < rows.len()
            decreases rows@.len() - i,
        {
            let row = &rows[i];
            let name = match sqlite_text_named(row, "name") {
                Ok(v) => v,
                Err(msg) => return Err(AppError::TableFetch(msg)),
            };
            let data_type = match sqlite_text_named(row, "type") {
                Ok(v) => v,
                Err(msg) => return Err(AppError::TableFetch(msg)),
            };
            let notnull = match sqlite_i32_named(row, "notnull") {
                Ok(v) => v,
                Err(msg) => return Err(AppError::TableFetch(msg)),
            };
            let pk = match sqlite_i32_named(row, "pk") {
                Ok(v) => v,
                Err(msg) => return Err(AppError::TableFetch(msg)),
            };
            columns.push(column_from_pragma(name, data_type, notnull, pk));
            i = i + 1;
        }
        Ok(columns)
    }

    /// Executes the statement verbatim and coerces every cell to its
    /// display string. On success the result is well formed: every
    /// row is exactly as wide as the column list, and a statement
    /// returning no rows yields empty columns and rows.
    pub fn query(&self, query: &str) -> (r: Result<QueryResult, AppError>)
        ensures
            r is Ok ==> query_result_wf(r->Ok_0),
            r is Err ==> r->Err_0 is QueryExecution,
    {
        let rows = match sqlite_fetch_all(&self.bridge, &self.pool, query) {
            Ok(rows) => rows,
            Err(msg) => return Err(AppError::QueryExecution(msg)),
        };
        Ok(shape_result(rows))
    }
}

impl DatabaseClient for SqliteClient {
    fn get_tables(&self) -> (r: Result<Vec<Table>, AppError>) {
        self.tables()
    }

    fn get_columns(&self, table_name: &str) -> (r: Result<Vec<Column>, AppError>) {
        self.columns(table_name)
    }

    fn execute_query(&self, query: &str) -> (r: Result<QueryResult, AppError>) {
        self.query(query)
    }
}

} // verus!
