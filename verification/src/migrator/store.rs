use vstd::prelude::*;

verus! {

#[verifier::external_type_specification]
#[verifier::external_body]
pub struct ExConnection(rusqlite::Connection);

#[verifier::external_type_specification]
#[verifier::external_body]
pub struct ExStatement<'conn>(rusqlite::Statement<'conn>);

#[verifier::external_type_specification]
#[verifier::external_body]
pub struct ExTransaction<'conn>(rusqlite::Transaction<'conn>);

/// Relies on rusqlite::Connection::open_in_memory: opens a connection to a
/// fresh, empty in-memory database, or reports why it could not.
#[verifier::external_body]
pub(crate) fn open_memory_connection() -> (r: Result<rusqlite::Connection, String>) {
    match rusqlite::Connection::open_in_memory() {
        Ok(c) => Ok(c),
        Err(e) => Err(format!("{}", e)),
    }
}

/// Relies on rusqlite::Connection::open: opens a connection to the database
/// file at this path, creating it when absent (or to a fresh in-memory
/// database, for SQLite's special path `:memory:`), or reports why it could
/// not.
#[verifier::external_body]
pub(crate) fn open_file_connection(path: &str) -> (r: Result<rusqlite::Connection, String>) {
    match rusqlite::Connection::open(path) {
        Ok(c) => Ok(c),
        Err(e) => Err(format!("{}", e)),
    }
}

/// Relies on rusqlite::Connection::prepare: compiles one SQL statement
/// against this connection, or reports why it could not.
#[verifier::external_body]
pub(crate) fn prepare_statement<'c>(c: &'c rusqlite::Connection, sql: &str) -> (r: Result<
    rusqlite::Statement<'c>,
    String,
>) {
    match c.prepare(sql) {
        Ok(s) => Ok(s),
        Err(e) => Err(format!("{}", e)),
    }
}

/// Relies on rusqlite::Statement::query_row, with rusqlite::Row::get as the
/// row mapper it requires: runs the prepared query without parameters and
/// hands back the first column of its first row as an integer, or reports why
/// it could not (among else when the query returns no row at all).
#[verifier::external_body]
pub(crate) fn query_scalar(stmt: &mut rusqlite::Statement<'_>) -> (r: Result<i64, String>) {
    match stmt.query_row([], |row| row.get::<usize, i64>(0)) {
        Ok(i) => Ok(i),
        Err(e) => Err(format!("{}", e)),
    }
}

/// Relies on rusqlite::Connection::transaction: begins a transaction whose
/// effects are thrown away unless it is committed.
#[verifier::external_body]
pub(crate) fn begin_transaction<'c>(c: &'c mut rusqlite::Connection) -> (r: Result<
    rusqlite::Transaction<'c>,
    String,
>) {
    match c.transaction() {
        Ok(t) => Ok(t),
        Err(e) => Err(format!("{}", e)),
    }
}

/// Relies on rusqlite::Connection::execute_batch, reached through the
/// transaction it is scoped to: runs each statement of the script inside that
/// transaction, or reports why it could not.
#[verifier::external_body]
pub(crate) fn execute_batch_in(tx: &rusqlite::Transaction<'_>, sql: &str) -> (r: Result<
    (),
    String,
>) {
    match tx.execute_batch(sql) {
        Ok(()) => Ok(()),
        Err(e) => Err(format!("{}", e)),
    }
}

/// Relies on rusqlite::Transaction::commit: makes the transaction's effects
/// permanent, or reports why it could not.
#[verifier::external_body]
pub(crate) fn commit_transaction(tx: rusqlite::Transaction<'_>) -> (r: Result<(), String>) {
    match tx.commit() {
        Ok(()) => Ok(()),
        Err(e) => Err(format!("{}", e)),
    }
}

} // verus!
