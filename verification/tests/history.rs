use flow_linux::history::{
    clear, clear_request, delete, delete_request, keep_newest, keep_newest_request, mark,
    mark_request, mark_status, prepare,
    prepare_steps, statement_outcome, BUSY_TIMEOUT_SECONDS, DELETE_ALL, DELETE_ENTRY,
    INSERT_ENTRY, KEEP_NEWEST, LIST_MATCHING, MARK_STATUS, SCHEMA,
};
use flow_linux::float_bits::at_least_zero;
use rusqlite::Connection;

fn count(c: &Connection) -> i64 {
    c.query_row("SELECT count(*) FROM dictations", [], |r| r.get(0))
        .unwrap()
}

/// Adds an entry as the program does: the duration clamped at zero, the insert and the
/// pruning in one transaction.
fn add(c: &Connection, text: &str, duration: f64, model: &str) -> i64 {
    let transaction = c.unchecked_transaction().unwrap();
    let duration = f64::from_bits(at_least_zero(duration.to_bits()));
    transaction
        .execute(INSERT_ENTRY, (text, duration, model))
        .unwrap();
    let id = transaction.last_insert_rowid();
    keep_newest(&transaction).unwrap();
    transaction.commit().unwrap();
    id
}

fn duration_of(c: &Connection, id: i64) -> f64 {
    c.query_row("SELECT duration FROM dictations WHERE id=?1", [id], |r| r.get(0))
        .unwrap()
}

fn list(c: &Connection, search: &str) -> Vec<(i64, String, String)> {
    let mut statement = c.prepare(LIST_MATCHING).unwrap();
    let rows = statement
        .query_map([search], |row| Ok((row.get(0)?, row.get(2)?, row.get(6)?)))
        .unwrap();
    rows.collect::<Result<Vec<_>, _>>().unwrap()
}

#[test]
fn local_history_supports_insert_search_status_and_delete() {
    let c = Connection::open_in_memory().unwrap();
    prepare(&c).unwrap();
    let text = "Flow's dictation; DROP TABLE dictations; --";
    let id = add(&c, text, 1.25, "whisper-test");
    let found = list(&c, "DROP TABLE");
    assert_eq!(found.len(), 1);
    assert_eq!(found[0].1, text);
    mark_status(&c, id, "inserted").unwrap();
    assert_eq!(list(&c, "")[0].2, "inserted");
    delete(&c, id).unwrap();
    assert!(list(&c, "").is_empty());
    clear(&c).unwrap();
}

#[test]
fn history_statements_mark_delete_and_clear() {
    let c = Connection::open_in_memory().unwrap();
    prepare(&c).unwrap();
    prepare(&c).unwrap();
    let first = add(&c, "first", 1.0, "m");
    let second = add(&c, "second", 2.0, "m");
    assert_eq!(count(&c), 2);
    assert!(mark_status(&c, first, "bogus").is_err());
    mark(&c, second, "bogus");
    assert_eq!(list(&c, "second")[0].2, "pending");
    mark(&c, second, "failed");
    assert_eq!(list(&c, "SECOND")[0].2, "failed");
    delete(&c, first).unwrap();
    assert_eq!(count(&c), 1);
    clear(&c).unwrap();
    assert_eq!(count(&c), 0);
}

#[test]
fn history_keeps_the_newest_five_hundred() {
    let c = Connection::open_in_memory().unwrap();
    prepare(&c).unwrap();
    let mut last = 0;
    for i in 0..505 {
        last = add(&c, &format!("entry {i}"), 0.5, "m");
    }
    assert_eq!(count(&c), 500);
    let entries = list(&c, "");
    assert_eq!(entries.len(), 500);
    assert_eq!(entries[0].0, last);
}

#[test]
fn statement_outcomes_keep_the_error_message() {
    assert_eq!(statement_outcome::<usize>(Ok(3)), Ok(()));
    assert_eq!(
        statement_outcome::<usize>(Err(rusqlite::Error::QueryReturnedNoRows)),
        Err(rusqlite::Error::QueryReturnedNoRows.to_string())
    );
}

#[test]
fn history_requests_fix_statement_and_parameters() {
    assert_eq!(prepare_steps(), (BUSY_TIMEOUT_SECONDS, SCHEMA));
    assert_eq!(BUSY_TIMEOUT_SECONDS, 5);
    assert_eq!(mark_request(7, "inserted"), (MARK_STATUS, ("inserted", 7)));
    assert_eq!(delete_request(9), (DELETE_ENTRY, (9,)));
    assert_eq!(clear_request(), (DELETE_ALL, ()));
    assert_eq!(keep_newest_request(), (KEEP_NEWEST, ()));
}

#[test]
fn delete_removes_only_the_given_entry_and_prepare_keeps_rows() {
    let c = Connection::open_in_memory().unwrap();
    prepare(&c).unwrap();
    let first = add(&c, "first", 1.0, "m");
    let second = add(&c, "second", 2.0, "m");
    prepare(&c).unwrap();
    assert_eq!(count(&c), 2);
    delete(&c, first).unwrap();
    let left = list(&c, "");
    assert_eq!(left.len(), 1);
    assert_eq!(left[0].0, second);
    delete(&c, first).unwrap();
    assert_eq!(count(&c), 1);
    clear(&c).unwrap();
    assert!(list(&c, "").is_empty());
    add(&c, "again", 1.0, "m");
    assert_eq!(count(&c), 1);
}

#[test]
fn added_entries_keep_a_non_negative_duration() {
    let c = Connection::open_in_memory().unwrap();
    prepare(&c).unwrap();
    let negative = add(&c, "negative", -2.5, "m");
    let positive = add(&c, "positive", 1.25, "m");
    assert_eq!(duration_of(&c, negative), 0.0);
    assert_eq!(duration_of(&c, positive), 1.25);
    assert_eq!(list(&c, "")[0].2, "pending");
}
