use vstd::prelude::*;

verus! {

#[verifier::external_type_specification]
#[verifier::external_body]
pub struct ExConnection(rusqlite::Connection);

#[verifier::external_type_specification]
#[verifier::external_body]
pub struct ExSqlError(rusqlite::Error);

/// A failed storage operation, carrying the engine's own description.
#[derive(Debug, Clone, PartialEq, Eq)]
pub struct StoreError {
    pub detail: String,
}

/// One store-preparation action handed to a connection, recorded in the
/// owning store's ghost state: the schema pass (its table-creation
/// statements), or one pragma update by name and value.
pub enum SetupStep {
    Schema,
    Pragma(Seq<char>, Seq<char>),
}

/// Relies on rusqlite's Connection::execute_batch, which prepares and runs
/// each statement of the given SQL in order and reports the first failure.
/// Used for transaction control and for schema statements, which take no
/// parameters.
#[verifier::external_body]
pub(crate) fn db_execute_batch(conn: &rusqlite::Connection, sql: &str) -> (r: Result<
    (),
    rusqlite::Error,
>) {
    conn.execute_batch(sql)
}

/// Relies on rusqlite's Connection::execute, which runs one parameterized
/// statement with the given integer parameters bound positionally and, on
/// success, returns how many rows were changed.
#[verifier::external_body]
pub(crate) fn db_execute_ints(conn: &rusqlite::Connection, sql: &str, vals: &Vec<i64>) -> (r:
    Result<usize, rusqlite::Error>) {
    conn.execute(sql, rusqlite::params_from_iter(vals.iter()))
}

/// Relies on rusqlite's Connection::execute, which runs one parameterized
/// statement with the two given parameters bound positionally and, on
/// success, returns how many rows were changed.
#[verifier::external_body]
pub(crate) fn db_execute_id_text(conn: &rusqlite::Connection, sql: &str, id: i64, text: &str) -> (r:
    Result<usize, rusqlite::Error>) {
    conn.execute(sql, (id, text))
}

/// Relies on rusqlite's Connection::pragma_update, which sets the given
/// pragma of the main schema to the given value.
#[verifier::external_body]
pub(crate) fn db_pragma_update(conn: &rusqlite::Connection, pragma_name: &str, pragma_value: &str)
    -> (r: Result<(), rusqlite::Error>) {
    conn.pragma_update(None, pragma_name, pragma_value)
}

/// Relies on the Display impl of rusqlite's Error for a readable description.
#[verifier::external_body]
pub(crate) fn db_error_text(e: &rusqlite::Error) -> (r: String) {
    format!("{e}")
}

/// Turns an engine error into the library's storage error.
pub(crate) fn store_error(e: &rusqlite::Error) -> (r: StoreError) {
    StoreError { detail: db_error_text(e) }
}

} // verus!
