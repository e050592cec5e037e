//! The trusted boundary to the SQLite storage, through rusqlite. Every item
//! here is believed, not proved: each wrapper's contract states, over the two
//! names `db_items` and `db_version`, what the one SQL statement in its body
//! does according to rusqlite's and SQLite's documentation. `db_items` names
//! the rows of the `items` table in storage (rowid) order; `db_version` names
//! the `user_version` marker of the file.

use vstd::prelude::*;

use rusqlite::OptionalExtension;

verus! {

use crate::item::Item;
use crate::item::items_view;
use crate::model::has_title;
use crate::model::remove_title;
use crate::model::rows_with_state;
use crate::model::set_state_rows;

pub uninterp spec fn db_items(db: rusqlite::Connection) -> Seq<(Seq<char>, Seq<char>)>;

pub uninterp spec fn db_version(db: rusqlite::Connection) -> u32;

#[verifier::external_type_specification]
#[verifier::external_body]
pub struct ExConnection(rusqlite::Connection);

#[verifier::external_type_specification]
#[verifier::external_body]
pub struct ExSqliteError(rusqlite::Error);

/// Relies on rusqlite::Connection::query_row running `PRAGMA user_version`,
/// which reports the version marker stored in the file.
#[verifier::external_body]
pub(crate) fn read_user_version(db: &rusqlite::Connection) -> (r: Result<u32, rusqlite::Error>)
    ensures
        r matches Ok(v) ==> v == db_version(*db),
{
    db.query_row("PRAGMA user_version", [], |row| row.get(0))
}

/// Relies on rusqlite's pragma_update, transaction, execute_batch and commit:
/// one transaction sets the version marker to `new_version` and creates the
/// empty `items` table; on any failure SQLite rolls the transaction back, so
/// the file keeps its version marker and its contents.
#[verifier::external_body]
pub(crate) fn run_upgrade_transaction(db: &mut rusqlite::Connection, new_version: u32) -> (r: Result<(), rusqlite::Error>)
    ensures
        r is Ok ==> db_version(*final(db)) == new_version && db_items(*final(db)) == Seq::<(Seq<char>, Seq<char>)>::empty(),
        r is Err ==> db_version(*final(db)) == db_version(*old(db)) && db_items(*final(db))
            == db_items(*old(db)),
{
    db.pragma_update(None, "journal_mode", "WAL")?;
    let tx = db.transaction()?;
    tx.pragma_update(None, "user_version", new_version)?;
    tx.execute_batch("CREATE TABLE items (title TEXT NOT NULL, state TEXT NOT NULL);")?;
    tx.commit()?;
    Ok(())
}

/// Relies on rusqlite::Connection::execute running a single INSERT: on
/// success exactly one new row carrying the two arguments stands at a
/// position of SQLite's choosing, every other row kept in order. In
/// ordinary operation SQLite assigns one more than the largest rowid in
/// use, an append; but a table already holding a row at the largest
/// representable rowid makes it fall back to a random slot, so no more than
/// insertion at some position is claimed. SQLite backs out a failed
/// statement, leaving the table unchanged. No DML touches the version
/// marker.
#[verifier::external_body]
pub(crate) fn insert_row(db: &mut rusqlite::Connection, title: &str, state: &str) -> (r: Result<(), rusqlite::Error>)
    ensures
        db_version(*final(db)) == db_version(*old(db)),
        r is Ok ==> exists|i: int|
            0 <= i <= db_items(*old(db)).len()
            && db_items(*final(db)) == db_items(*old(db)).insert(i, (title@, state@)),
        r is Err ==> db_items(*final(db)) == db_items(*old(db)),
{
    match db.execute("INSERT INTO items (title, state) VALUES (?1, ?2)", (title, state)) {
        Ok(_) => Ok(()),
        Err(e) => Err(e),
    }
}

/// Relies on rusqlite::Connection::execute running a single UPDATE over
/// `WHERE title = ?1`: every row under that title gets the new state, rowids
/// and all other rows stay; SQLite backs out a failed statement.
#[verifier::external_body]
pub(crate) fn update_rows(db: &mut rusqlite::Connection, title: &str, state: &str) -> (r: Result<(), rusqlite::Error>)
    ensures
        db_version(*final(db)) == db_version(*old(db)),
        r is Ok ==> db_items(*final(db)) == set_state_rows(db_items(*old(db)), title@, state@),
        r is Err ==> db_items(*final(db)) == db_items(*old(db)),
{
    match db.execute("UPDATE items SET state = ?2 WHERE title = ?1", (title, state)) {
        Ok(_) => Ok(()),
        Err(e) => Err(e),
    }
}

/// Relies on rusqlite::Connection::execute running a single DELETE over
/// `WHERE title = ?1`: exactly the rows under that title leave, the others
/// keep their rowids and order; SQLite backs out a failed statement.
#[verifier::external_body]
pub(crate) fn delete_rows(db: &mut rusqlite::Connection, title: &str) -> (r: Result<(), rusqlite::Error>)
    ensures
        db_version(*final(db)) == db_version(*old(db)),
        r is Ok ==> db_items(*final(db)) == remove_title(db_items(*old(db)), title@),
        r is Err ==> db_items(*final(db)) == db_items(*old(db)),
{
    match db.execute("DELETE FROM items WHERE title = ?1", (title,)) {
        Ok(_) => Ok(()),
        Err(e) => Err(e),
    }
}

/// Relies on rusqlite::Connection::execute_batch running `DELETE FROM items`,
/// which removes every row; SQLite backs out a failed statement.
#[verifier::external_body]
pub(crate) fn delete_all_rows(db: &mut rusqlite::Connection) -> (r: Result<(), rusqlite::Error>)
    ensures
        db_version(*final(db)) == db_version(*old(db)),
        r is Ok ==> db_items(*final(db)) == Seq::<(Seq<char>, Seq<char>)>::empty(),
        r is Err ==> db_items(*final(db)) == db_items(*old(db)),
{
    db.execute_batch("DELETE FROM items")
}

/// Relies on rusqlite::Connection::query_row over `WHERE title = ?1`: a row
/// handed back is a stored row carrying that title; no row at all means no
/// stored row carries the title. The closure only moves the two columns into
/// an Item.
#[verifier::external_body]
pub(crate) fn select_first_row(db: &rusqlite::Connection, title: &str) -> (r: Result<Option<Item>, rusqlite::Error>)
    ensures
        r matches Ok(Some(it)) ==> it@.0 == title@ && db_items(*db).contains(it@),
        r matches Ok(None) ==> !has_title(db_items(*db), title@),
{
    db.query_row(
        "SELECT title, state FROM items WHERE title = ?1 ORDER BY rowid",
        (title,),
        |row| Ok(Item { title: row.get(0)?, state: row.get(1)? }),
    ).optional()
}

/// Relies on rusqlite prepare and query_map over `ORDER BY rowid`, which
/// yield every stored row in storage order. The closure only moves the two
/// columns into an Item.
#[verifier::external_body]
pub(crate) fn select_all_rows(db: &rusqlite::Connection) -> (r: Result<Vec<Item>, rusqlite::Error>)
    ensures
        r matches Ok(v) ==> items_view(v@) == db_items(*db),
{
    let mut stmt = db.prepare("SELECT title, state FROM items ORDER BY rowid")?;
    let rows = stmt.query_map([], |row| Ok(Item { title: row.get(0)?, state: row.get(1)? }))?;
    rows.collect()
}

/// Relies on rusqlite prepare and query_map over `WHERE state = ?1 ORDER BY
/// rowid`, which yield exactly the stored rows whose state equals the
/// argument, in storage order. The closure only moves the two columns into an
/// Item.
#[verifier::external_body]
pub(crate) fn select_rows_with_state(db: &rusqlite::Connection, state: &str) -> (r: Result<Vec<Item>, rusqlite::Error>)
    ensures
        r matches Ok(v) ==> items_view(v@) == rows_with_state(db_items(*db), state@),
{
    let mut stmt = db.prepare("SELECT title, state FROM items WHERE state = ?1 ORDER BY rowid")?;
    let rows = stmt.query_map((state,), |row| {
        Ok(Item { title: row.get(0)?, state: row.get(1)? })
    })?;
    rows.collect()
}

} // verus!
