//! The dictation history table, kept by SQLite through `rusqlite`. The caller opens the
//! database file (and protects it); these functions run the library's statements on it.
use vstd::prelude::*;

verus! {

/// `rusqlite::Connection`, an open database, carried through opaquely.
#[verifier::external_type_specification]
#[verifier::external_body]
pub struct ExConnection(rusqlite::Connection);

/// `rusqlite::Error`, carried through opaquely until it becomes the message text.
#[verifier::external_type_specification]
#[verifier::external_body]
pub struct ExSqlError(rusqlite::Error);

/// Creates the table and its index where they are missing.
pub const SCHEMA: &'static str = "CREATE TABLE IF NOT EXISTS dictations (id INTEGER PRIMARY KEY AUTOINCREMENT, created_at TEXT NOT NULL, transcript TEXT NOT NULL, duration REAL NOT NULL CHECK(duration >= 0), provider TEXT NOT NULL, model TEXT NOT NULL, insertion_status TEXT NOT NULL CHECK(insertion_status IN ('pending','inserted','failed'))); CREATE INDEX IF NOT EXISTS dictations_created_at ON dictations(created_at DESC,id DESC);";

/// Sets the insertion status (`?1`) of one entry (`?2`).
pub const MARK_STATUS: &'static str = "UPDATE dictations SET insertion_status=?1 WHERE id=?2";

/// Deletes one entry (`?1`).
pub const DELETE_ENTRY: &'static str = "DELETE FROM dictations WHERE id=?1";

/// Deletes every entry.
pub const DELETE_ALL: &'static str = "DELETE FROM dictations";

/// Adds an entry with the transcript (`?1`), duration in seconds (`?2`) and model (`?3`),
/// stamped now, from Groq, pending insertion.
pub const INSERT_ENTRY: &'static str = "INSERT INTO dictations(created_at,transcript,duration,provider,model,insertion_status) VALUES(strftime('%Y-%m-%dT%H:%M:%fZ','now'),?1,?2,'Groq',?3,'pending')";

/// Keeps the 500 newest entries.
pub const KEEP_NEWEST: &'static str = "DELETE FROM dictations WHERE id NOT IN (SELECT id FROM dictations ORDER BY created_at DESC,id DESC LIMIT 500)";

/// The 500 newest entries whose transcript holds the search text (`?1`) in any case, newest
/// first.
pub const LIST_MATCHING: &'static str = "SELECT id,created_at,transcript,duration,provider,model,insertion_status FROM dictations WHERE instr(lower(transcript),lower(?1))>0 ORDER BY created_at DESC,id DESC LIMIT 500";

/// How long a statement waits for a lock held by another connection, in seconds.
pub const BUSY_TIMEOUT_SECONDS: u64 = 5;

/// Calls `Connection::busy_timeout`, which panics when the timeout in milliseconds exceeds
/// `i32::MAX`; what comes back depends on the database, so nothing is stated of it.
#[verifier::external_body]
fn set_busy_timeout(connection: &rusqlite::Connection, seconds: u64) -> Result<(), rusqlite::Error>
    requires
        seconds * 1000 <= i32::MAX,
{
    connection.busy_timeout(std::time::Duration::from_secs(seconds))
}

/// Calls `Connection::execute_batch`; what comes back depends on the database, so nothing is
/// stated of it.
#[verifier::external_body]
fn execute_batch(connection: &rusqlite::Connection, sql: &str) -> Result<(), rusqlite::Error> {
    connection.execute_batch(sql)
}

/// Calls `Connection::execute` with the statement and its parameters; what comes back
/// depends on the database, so nothing is stated of it.
#[verifier::external_body]
fn execute<P: rusqlite::Params>(connection: &rusqlite::Connection, sql: &str, params: P) -> Result<
    usize,
    rusqlite::Error,
> {
    connection.execute(sql, params)
}

/// Calls `ToString::to_string` on a `rusqlite::Error` (its `Display` text); nothing is stated
/// of the text.
#[verifier::external_body]
fn error_text(error: &rusqlite::Error) -> String {
    error.to_string()
}

/// What the outcome of a statement means to its caller: success when the statement
/// succeeded, whatever count it gave; otherwise the error's message.
pub fn statement_outcome<T>(result: Result<T, rusqlite::Error>) -> (r: Result<(), String>)
    ensures
        r is Ok <==> result is Ok,
{
    match result {
        Ok(_) => Ok(()),
        Err(e) => Err(error_text(&e)),
    }
}

/// What `prepare` hands to SQLite: the lock wait in seconds, then the schema to run.
pub fn prepare_steps() -> (r: (u64, &'static str))
    ensures
        r.0 == BUSY_TIMEOUT_SECONDS,
        r.1 == SCHEMA,
{
    (BUSY_TIMEOUT_SECONDS, SCHEMA)
}

/// What `mark_status` hands to SQLite: the status update, with the status and the id.
pub fn mark_request<'a>(id: i64, status: &'a str) -> (r: (&'static str, (&'a str, i64)))
    ensures
        r.0 == MARK_STATUS,
        r.1 == (status, id),
{
    (MARK_STATUS, (status, id))
}

/// What `delete` hands to SQLite: the deletion of one entry, with its id.
pub fn delete_request(id: i64) -> (r: (&'static str, (i64,)))
    ensures
        r.0 == DELETE_ENTRY,
        r.1 == (id,),
{
    (DELETE_ENTRY, (id,))
}

/// What `clear` hands to SQLite: the deletion of every entry, with no parameter.
pub fn clear_request() -> (r: (&'static str, ()))
    ensures
        r.0 == DELETE_ALL,
{
    (DELETE_ALL, ())
}

/// What `keep_newest` hands to SQLite: the pruning to the newest entries, with no parameter.
pub fn keep_newest_request() -> (r: (&'static str, ()))
    ensures
        r.0 == KEEP_NEWEST,
{
    (KEEP_NEWEST, ())
}

/// Makes a freshly opened history database ready: waits up to five seconds for locks and
/// creates the table where it is missing, as `prepare_steps` gives. Whether SQLite succeeds
/// depends on the database, so no clause states it; `statement_outcome` says what each
/// outcome gives.
pub fn prepare(connection: &rusqlite::Connection) -> Result<(), String> {
    let (seconds, schema) = prepare_steps();
    let waiting = statement_outcome(set_busy_timeout(connection, seconds));
    if waiting.is_err() {
        return waiting;
    }
    statement_outcome(execute_batch(connection, schema))
}

/// Sets the insertion status (`pending`, `inserted` or `failed`) of entry `id`, running
/// what `mark_request` gives.
pub fn mark_status(connection: &rusqlite::Connection, id: i64, status: &str) -> Result<(), String> {
    let (sql, params) = mark_request(id, status);
    statement_outcome(execute(connection, sql, params))
}

/// Sets the insertion status of entry `id`, ignoring a failure: the history is a record, and
/// inserting the text does not depend on it.
pub fn mark(connection: &rusqlite::Connection, id: i64, status: &str) {
    let _ = mark_status(connection, id, status);
}

/// Deletes all but the 500 newest entries, running what `keep_newest_request` gives; an entry
/// is added together with this, in one transaction.
pub fn keep_newest(connection: &rusqlite::Connection) -> Result<(), String> {
    let (sql, params) = keep_newest_request();
    statement_outcome(execute(connection, sql, params))
}

/// Deletes entry `id`, running what `delete_request` gives.
pub fn delete(connection: &rusqlite::Connection, id: i64) -> Result<(), String> {
    let (sql, params) = delete_request(id);
    statement_outcome(execute(connection, sql, params))
}

/// Deletes every entry, running what `clear_request` gives.
pub fn clear(connection: &rusqlite::Connection) -> Result<(), String> {
    let (sql, params) = clear_request();
    statement_outcome(execute(connection, sql, params))
}

} // verus!
