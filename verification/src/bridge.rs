//! The execution bridge: a long-lived background execution context
//! that every blocking driver call is submitted to, so a
//! single-threaded UI rendering loop never stalls on I/O.
//!
//! The bridge is an injected handle passed to client constructors
//! rather than ambient global state. It gives no ordering guarantee
//! across unrelated submissions; each submitted unit runs to
//! completion atomically with respect to its own driver call, and an
//! in-flight call cannot be cancelled.

use vstd::prelude::*;

use crate::error::AppError;

verus! {

#[verifier::external_type_specification]
#[verifier::external_body]
pub struct ExRuntime(tokio::runtime::Runtime);

/// Relies on tokio's `Runtime::new`: builds a multi-threaded
/// background executor, or fails with an I/O error.
#[verifier::external_body]
fn new_runtime() -> Option<tokio::runtime::Runtime> {
    tokio::runtime::Runtime::new().ok()
}

/// The process's background execution context for blocking driver
/// work. Owns one multi-threaded executor for its whole lifetime.
pub struct ExecutionBridge {
    pub(crate) runtime: tokio::runtime::Runtime,
}

impl ExecutionBridge {
    /// Starts the background execution context. A failure to start
    /// the executor is reported as a connection error, since no
    /// driver call can be carried without it.
    pub fn new() -> (r: Result<ExecutionBridge, AppError>)
        ensures
            r is Err ==> r->Err_0 is DatabaseConnection,
    {
        match new_runtime() {
            Some(runtime) => Ok(ExecutionBridge { runtime }),
            None => Err(AppError::DatabaseConnection(String::from_str(
                "could not start the background execution context",
            ))),
        }
    }
}

} // verus!
