//! The client/server backend client.
//!
//! Schema introspection goes through the catalog views, excluding the
//! engine's internal namespaces; the logic around the driver calls is
//! verified here.

use vstd::prelude::*;

use sqlx::Column as _;
use sqlx::Row as _;

use crate::bridge::ExecutionBridge;
use crate::db::cells::{render_cell, CellProbes};
use crate::db::{query_result_wf, Column, DatabaseClient, QueryResult, Table};
use crate::error::AppError;

verus! {

#[verifier::external_type_specification]
#[verifier::external_body]
pub struct ExPostgres(sqlx::Postgres);

#[verifier::external_type_specification]
#[verifier::external_body]
pub struct ExPgRow(sqlx::postgres::PgRow);

/// An opaque handle to one client/server connection pool. The generic
/// pool type of the driver cannot be declared here, so the handle is
/// held behind this opaque struct.
#[verifier::external_body]
pub struct PgPool {
    inner: sqlx::Pool<sqlx::Postgres>,
}

/// Relies on sqlx's `PgPoolOptions::connect`, run to completion on the
/// bridge: opens a pool bound to the given network URL, or fails with
/// the driver's error text.
#[verifier::external_body]
fn pg_connect(bridge: &ExecutionBridge, url: &str) -> Result<PgPool, String> {
    bridge
        .runtime
        .block_on(sqlx::postgres::PgPoolOptions::new().connect(url))
        .map(|inner| PgPool { inner })
        .map_err(|e| e.to_string())
}

/// Relies on sqlx's `query(..).fetch_all`, run to completion on the
/// bridge: executes the statement verbatim and returns all rows, or
/// the driver's error text.
#[verifier::external_body]
fn pg_fetch_all(
    bridge: &ExecutionBridge,
    pool: &PgPool,
    sql: &str,
) -> Result<Vec<sqlx::postgres::PgRow>, String> {
    let sql = sqlx::AssertSqlSafe(sql.to_string());
    bridge
        .runtime
        .block_on(sqlx::query(sql).fetch_all(&pool.inner))
        .map_err(|e| e.to_string())
}

/// Relies on sqlx's `query(..).bind(..).fetch_all`, run to completion
/// on the bridge: executes the statement with one bound text
/// parameter, or fails with the driver's error text.
#[verifier::external_body]
fn pg_fetch_all_bind1(
    bridge: &ExecutionBridge,
    pool: &PgPool,
    sql: &str,
    arg: &str,
) -> Result<Vec<sqlx::postgres::PgRow>, String> {
    let sql = sqlx::AssertSqlSafe(sql.to_string());
    let arg = arg.to_string();
    bridge
        .runtime
        .block_on(sqlx::query(sql).bind(arg).fetch_all(&pool.inner))
        .map_err(|e| e.to_string())
}

/// Relies on sqlx's `Row::columns` and `Column::name`: the display
/// names of the row's columns, in result-set order.
#[verifier::external_body]
fn pg_column_names(row: &sqlx::postgres::PgRow) -> Vec<String> {
    row.columns().iter().map(|c| c.name().to_string()).collect()
}

/// Relies on sqlx's `Row::try_get::<String>` by index: the cell as
/// text, or the driver's error text when it does not decode.
#[verifier::external_body]
fn pg_text_at(row: &sqlx::postgres::PgRow, i: usize) -> Result<String, String> {
    row.try_get::<String, usize>(i).map_err(|e| e.to_string())
}

/// Relies on sqlx's `Row::try_get::<String>` by column name: the named
/// cell as text, or the driver's error text.
#[verifier::external_body]
fn pg_text_named(row: &sqlx::postgres::PgRow, name: &str) -> Result<String, String> {
    row.try_get::<String, &str>(name).map_err(|e| e.to_string())
}

/// Relies on sqlx's `Row::try_get::<Option<i32>>` by index: a decode
/// attempt in which both a failure and an SQL `NULL` mean only "try
/// the next type".
#[verifier::external_body]
fn pg_probe_i32(row: &sqlx::postgres::PgRow, i: usize) -> Option<i32> {
    row.try_get::<Option<i32>, usize>(i).ok().flatten()
}

/// Relies on sqlx's `Row::try_get::<Option<i64>>` by index: a decode
/// attempt in which both a failure and an SQL `NULL` mean only "try
/// the next type".
#[verifier::external_body]
fn pg_probe_i64(row: &sqlx::postgres::PgRow, i: usize) -> Option<i64> {
    row.try_get::<Option<i64>, usize>(i).ok().flatten()
}

/// Relies on sqlx's `Row::try_get::<Option<String>>` by index: a
/// decode attempt in which both a failure and an SQL `NULL` mean only
/// "try the next type".
#[verifier::external_body]
fn pg_probe_text(row: &sqlx::postgres::PgRow, i: usize) -> Option<String> {
    row.try_get::<Option<String>, usize>(i).ok().flatten()
}

/// Relies on sqlx's `Row::try_get::<Option<bool>>` by index: a decode
/// attempt in which both a failure and an SQL `NULL` mean only "try
/// the next type".
#[verifier::external_body]
fn pg_probe_bool(row: &sqlx::postgres::PgRow, i: usize) -> Option<bool> {
    row.try_get::<Option<bool>, usize>(i).ok().flatten()
}

/// The ordered decode attempts for one cell of a client/server row.
/// A floating-point decode cannot be expressed in this crate, so that
/// slot stays empty and a purely floating-point cell displays as
/// `NULL`.
fn probe_cell(row: &sqlx::postgres::PgRow, i: usize) -> CellProbes {
    CellProbes {
        as_i32: pg_probe_i32(row, i),
        as_i64: pg_probe_i64(row, i),
        as_f64_text: None,
        as_text: pg_probe_text(row, i),
        as_bool: pg_probe_bool(row, i),
    }
}

/// One introspected column, from the fields of an
/// `information_schema.columns` row: a column is nullable exactly when
/// the catalog reports the text `YES`. Whether it belongs to the
/// primary key would need a more expensive query, so the flag is the
/// documented best-effort `false`.
pub fn column_from_information_schema(
    name: String,
    data_type: String,
    is_nullable: String,
) -> (c: Column)
    ensures
        c.name == name,
        c.data_type == data_type,
        c.is_nullable == (is_nullable@ == "YES"@),
        c.is_primary_key == false,
{
    let yes = String::from_str("YES");
    let nullable = is_nullable == yes;
    Column { name, data_type, is_nullable: nullable, is_primary_key: false }
}

/// The generic tabular result of the fetched rows: the display
/// names of the columns of the first row, and every cell coerced to
/// its display string. A statement returning no rows yields empty
/// columns and empty rows, whatever its projection was.
fn shape_result(rows: Vec<sqlx::postgres::PgRow>) -> (r: QueryResult)
    ensures
        query_result_wf(r),
        rows@.len() == 0 ==> r.columns@.len() == 0 && r.rows@.len() == 0,
        r.rows@.len() == rows@.len(),
{
    if rows.len() == 0 {
        return QueryResult { columns: Vec::new(), rows: Vec::new() };
    }
    let columns = pg_column_names(&rows[0]);
    let mut out_rows: Vec<Vec<String>> = Vec::new();
    let mut i: usize = 0;
    while i < rows.len()
        invariant
            i <= rows@.len(),
            out_rows@.len() == i,
            forall|k: int|
                0 <= k < out_rows@.len() ==> (#[trigger] out_rows@[k])@.len() == columns@.len(),
        decreases rows@.len() - i,
    {
        let row = &rows[i];
        let mut cells: Vec<String> = Vec::new();
        let mut j: usize = 0;
        while j < columns.len()
            invariant
                cells@.len() == j,
                j <= columns@.len(),
            decreases columns@.len() - j,
        {
            cells.push(render_cell(probe_cell(row, j)));
            j = j + 1;
        }
        out_rows.push(cells);
        i = i + 1;
    }
    QueryResult { columns, rows: out_rows }
}

/// A client bound to one client/server database, holding the
/// connection pool and the execution bridge that carries its calls.
pub struct PostgresClient {
    bridge: ExecutionBridge,
    pool: PgPool,
}

impl PostgresClient {
    /// Opens a pool for the given connection URL. Any failure —
    /// starting the bridge or connecting — is a connection error.
    pub fn new(url: &str) -> (r: Result<PostgresClient, AppError>)
        ensures
            r is Err ==> r->Err_0 is DatabaseConnection,
    {
        let bridge = match ExecutionBridge::new() {
            Ok(b) => b,
            Err(e) => return Err(e),
        };
        match pg_connect(&bridge, url) {
            Ok(pool) => Ok(PostgresClient { bridge, pool }),
            Err(msg) => Err(AppError::DatabaseConnection(msg)),
        }
    }

    /// Lists user tables from the catalog, excluding the engine's
    /// internal and information-schema namespaces. Every listed table
    /// carries the public schema, a documented simplification.
    pub fn tables(&self) -> (r: Result<Vec<Table>, AppError>)
        ensures
            r is Ok ==> forall|i: int|
                0 <= i < r->Ok_0@.len() ==> (#[trigger] r->Ok_0@[i]).schema is Some
                    && r->Ok_0@[i].schema->0@ == "public"@,
            r is Err ==> r->Err_0 is TableFetch,
    {
        let rows = match pg_fetch_all(
            &self.bridge,
            &self.pool,
            "SELECT tablename FROM pg_catalog.pg_tables WHERE schemaname != 'pg_catalog' AND schemaname != 'information_schema'",
        ) {
            Ok(rows) => rows,
            Err(msg) => return Err(AppError::TableFetch(msg)),
        };
        let mut tables: Vec<Table> = Vec::new();
        let mut i: usize = 0;
        while i < rows.len()
            invariant
                forall|k: int| 0 <= k < tables@.len() ==> (#[trigger] tables@[k]).schema is Some
                    && tables@[k].schema->0@ == "public"@,
            decreases rows@.len() - i,
        {
            let name = match pg_text_at(&rows[i], 0) {
                Ok(n) => n,
                Err(msg) => return Err(AppError::TableFetch(msg)),
            };
            tables.push(Table { name, schema: Some(String::from_str("public")) });
            i = i + 1;
        }
        Ok(tables)
    }

    /// Introspects the named table's columns through the information
    /// schema, with the name passed as a bound parameter. Any driver
    /// failure is a table-fetch error.
    pub fn columns(&self, table_name: &str) -> (r: Result<Vec<Column>, AppError>)
        ensures
            r is Ok ==> forall|i: int|
                0 <= i < r->Ok_0@.len() ==> (#[trigger] r->Ok_0@[i]).is_primary_key == false,
            r is Err ==> r->Err_0 is TableFetch,
    {
        let rows = match pg_fetch_all_bind1(
            &self.bridge,
            &self.pool,
            "SELECT column_name, data_type, is_nullable FROM information_schema.columns WHERE table_name = $1",
            table_name,
        ) {
            Ok(rows) => rows,
            Err(msg) => return Err(AppError::TableFetch(msg)),
        };
        let mut columns: Vec<Column> = Vec::new();
        let mut i: usize = 0;
        while i < rows.len()
            invariant
                forall|k: int|
                    0 <= k < columns@.len() ==> (#[trigger] columns@[k]).is_primary_key == false,
            decreases rows@.len() - i,
        {
            let row = &rows[i];
            let name = match pg_text_named(row, "column_name") {
                Ok(v) => v,
                Err(msg) => return Err(AppError::TableFetch(msg)),
            };
            let data_type = match pg_text_named(row, "data_type") {
                Ok(v) => v,
                Err(msg) => return Err(AppError::TableFetch(msg)),
            };
            let is_nullable = match pg_text_named(row, "is_nullable") {
                Ok(v) => v,
                Err(msg) => return Err(AppError::TableFetch(msg)),
            };
            columns.push(column_from_information_schema(name, data_type, is_nullable));
            i = i + 1;
        }
        Ok(columns)
    }

    /// Executes the statement verbatim and coerces every cell to its
    /// display string. On success the result is well formed: every
    /// row is exactly as wide as the column list, and a statement
    /// returning no rows yields empty columns and rows.
    pub fn query(&self, query: &str) -> (r: Result<QueryResult, AppError>)
        ensures
            r is Ok ==> query_result_wf(r->Ok_0),
            r is Err ==> r->Err_0 is QueryExecution,
    {
        let rows = match pg_fetch_all(&self.bridge, &self.pool, query) {
            Ok(rows) => rows,
            Err(msg) => return Err(AppError::QueryExecution(msg)),
        };
        Ok(shape_result(rows))
    }
}

impl DatabaseClient for PostgresClient {
    fn get_tables(&self) -> (r: Result<Vec<Table>, AppError>) {
        self.tables()
    }

    fn get_columns(&self, table_name: &str) -> (r: Result<Vec<Column>, AppError>) {
        self.columns(table_name)
    }

    fn execute_query(&self, query: &str) -> (r: Result<QueryResult, AppError>) {
        self.query(query)
    }
}

} // verus!
