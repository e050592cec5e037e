//! The verified item repository and schema migrator, built over the trusted
//! SQL boundary.

use vstd::prelude::*;

verus! {

use crate::CURRENT_DB_VERSION;
use crate::item::Item;
use crate::item::items_view;
use crate::item::str_eq;
use crate::model::has_title;
use crate::model::lemma_remove_title_unique;
use crate::model::lemma_upsert_unique;
use crate::model::remove_title;
use crate::model::rows_with_state;
use crate::model::set_state_rows;
use crate::model::unique_titles;
use crate::model::upserted;
use crate::sql::db_items;
use crate::sql::db_version;
use crate::sql::delete_all_rows;
use crate::sql::delete_rows;
use crate::sql::insert_row;
use crate::sql::read_user_version;
use crate::sql::run_upgrade_transaction;
use crate::sql::select_all_rows;
use crate::sql::select_first_row;
use crate::sql::select_rows_with_state;
use crate::sql::update_rows;

/// Every outcome a repository or migration operation can report.
#[derive(Debug)]
pub enum StoreError {
    /// A single-item lookup found no row under the requested title.
    NotFound,
    /// The file's version marker is newer than this library understands;
    /// there is no downgrade path.
    UnsupportedVersion,
    /// The item table held two rows under one title when the store was
    /// opened; the store refuses to serve a table it cannot keep
    /// duplicate-free.
    DuplicateTitle,
    /// The guarded connection was used before a store was installed.
    NotInstalled,
    /// The underlying storage reported a failure.
    Sqlite(rusqlite::Error),
}

/// A storage connection whose file carries the current schema version and
/// whose item table holds at most one row per title.
pub struct Store {
    conn: rusqlite::Connection,
}

impl Store {
    /// The stored rows, in storage order.
    pub closed spec fn rows(self) -> Seq<(Seq<char>, Seq<char>)> {
        db_items(self.conn)
    }

    /// The version marker of the backing file.
    pub closed spec fn version(self) -> u32 {
        db_version(self.conn)
    }

    /// Well-formedness: migrated to the current version, no duplicate titles.
    pub open spec fn wf(self) -> bool {
        self.version() == CURRENT_DB_VERSION && unique_titles(self.rows())
    }
}

/// Brings a storage file from `existing_version` to the current version in
/// one rolled-back-or-complete transaction. Running it when the file is
/// already current changes nothing, so a second run right after a successful
/// one is a no-op: migration is idempotent. A version above the current one
/// has no downgrade path and is refused.
pub fn upgrade_database_if_needed(db: &mut rusqlite::Connection, existing_version: u32) -> (r: Result<(), StoreError>)
    requires
        existing_version == db_version(*old(db)),
    ensures
        r is Ok ==> db_version(*final(db)) == CURRENT_DB_VERSION,
        existing_version == CURRENT_DB_VERSION ==> r is Ok && *final(db) == *old(db),
        existing_version < CURRENT_DB_VERSION && r is Ok ==> db_items(*final(db)) == Seq::<(Seq<char>, Seq<char>)>::empty(),
        existing_version > CURRENT_DB_VERSION ==> r matches Err(StoreError::UnsupportedVersion),
        r matches Err(e) ==> e is UnsupportedVersion || e is Sqlite,
        r matches Err(e) ==> (e is UnsupportedVersion ==> existing_version > CURRENT_DB_VERSION),
        r is Err ==> db_version(*final(db)) == db_version(*old(db)) && db_items(*final(db))
            == db_items(*old(db)),
{
    if existing_version < CURRENT_DB_VERSION {
        match run_upgrade_transaction(db, CURRENT_DB_VERSION) {
            Ok(()) => Ok(()),
            Err(e) => Err(StoreError::Sqlite(e)),
        }
    } else if existing_version == CURRENT_DB_VERSION {
        Ok(())
    } else {
        Err(StoreError::UnsupportedVersion)
    }
}

/// True when no two items of the vector share a title.
fn titles_distinct(items: &Vec<Item>) -> (r: bool)
    ensures
        r == unique_titles(items_view(items@)),
{
    let ghost rows = items_view(items@);
    let n = items.len();
    for i in 0..n
        invariant
            rows == items_view(items@),
            n == items.len(),
            forall|p: int, q: int| 0 <= p < q < rows.len() && p < i ==> rows[p].0 != rows[q].0,
    {
        let mut j = i + 1;
        while j < n
            invariant
                rows == items_view(items@),
                n == items.len(),
                i < j,
                i < n,
                forall|q: int| i < q < j ==> rows[i as int].0 != rows[q].0,
            decreases n - j,
        {
            if str_eq(items[i].title.as_str(), items[j].title.as_str()) {
                assert(rows[i as int].0 == rows[j as int].0);
                return false;
            }
            j += 1;
        }
    }
    true
}

/// Opens a store over a connection: reads the version marker, migrates the
/// file if it is behind, and refuses a table that already holds two rows
/// under one title, so that a well-formed store always comes out of a
/// successful call.
pub fn initialize_database(conn: rusqlite::Connection) -> (r: Result<Store, StoreError>)
    ensures
        r matches Ok(s) ==> s.wf(),
        r matches Ok(s) ==> (db_version(conn) == CURRENT_DB_VERSION ==> s.rows() == db_items(conn)),
        r matches Ok(s) ==> (db_version(conn) < CURRENT_DB_VERSION ==> s.rows() == Seq::<(Seq<char>, Seq<char>)>::empty()),
        db_version(conn) > CURRENT_DB_VERSION ==> !(r is Ok),
        db_version(conn) == CURRENT_DB_VERSION && !unique_titles(db_items(conn)) ==> !(r is Ok),
        r matches Err(e) ==> (e is UnsupportedVersion ==> db_version(conn) > CURRENT_DB_VERSION),
        r matches Err(e) ==> (e is DuplicateTitle ==> db_version(conn) == CURRENT_DB_VERSION
            && !unique_titles(db_items(conn))),
        r matches Err(e) ==> e is UnsupportedVersion || e is DuplicateTitle || e is Sqlite,
{
    let mut db = conn;
    let version = match read_user_version(&db) {
        Ok(v) => v,
        Err(e) => {
            return Err(StoreError::Sqlite(e));
        },
    };
    match upgrade_database_if_needed(&mut db, version) {
        Ok(()) => (),
        Err(e) => {
            return Err(e);
        },
    }
    let items = match select_all_rows(&db) {
        Ok(v) => v,
        Err(e) => {
            return Err(StoreError::Sqlite(e));
        },
    };
    if !titles_distinct(&items) {
        return Err(StoreError::DuplicateTitle);
    }
    Ok(Store { conn: db })
}

/// Upsert: insert the item if its title is absent; if it is present under
/// another state, rewrite the state; if it is present under the same state,
/// change nothing.
pub fn add_item(title: &str, state: &str, store: &mut Store) -> (r: Result<(), StoreError>)
    requires
        old(store).wf(),
    ensures
        final(store).wf(),
        r is Ok ==> upserted(old(store).rows(), title@, state@, final(store).rows()),
        r is Err ==> final(store).rows() == old(store).rows(),
        r matches Err(e) ==> e is Sqlite,
{
    let ghost rows = store.rows();
    match select_first_row(&store.conn, title) {
        Err(e) => Err(StoreError::Sqlite(e)),
        Ok(Some(existing)) => {
            if str_eq(existing.state.as_str(), state) {
                proof {
                    let k = choose|k: int| 0 <= k < rows.len() && rows[k] == existing@;
                    assert(has_title(rows, title@));
                    assert forall|i: int|
                        0 <= i < rows.len() implies set_state_rows(rows, title@, state@)[i]
                        == rows[i] by {
                        if rows[i].0 == title@ {
                            assert(i == k);
                        }
                    }
                    assert(rows =~= set_state_rows(rows, title@, state@));
                }
                Ok(())
            } else {
                match update_rows(&mut store.conn, title, state) {
                    Ok(()) => {
                        proof {
                            let k = choose|k: int| 0 <= k < rows.len() && rows[k] == existing@;
                            assert(has_title(rows, title@));
                            lemma_upsert_unique(rows, title@, state@, store.rows());
                        }
                        Ok(())
                    },
                    Err(e) => Err(StoreError::Sqlite(e)),
                }
            }
        },
        Ok(None) => {
            match insert_row(&mut store.conn, title, state) {
                Ok(()) => {
                    proof {
                        lemma_upsert_unique(rows, title@, state@, store.rows());
                    }
                    Ok(())
                },
                Err(e) => Err(StoreError::Sqlite(e)),
            }
        },
    }
}

/// Deletes the rows under `title`; deleting an absent title succeeds and
/// leaves the table as it was.
pub fn remove_item(title: &str, store: &mut Store) -> (r: Result<(), StoreError>)
    requires
        old(store).wf(),
    ensures
        final(store).wf(),
        r is Ok ==> final(store).rows() == remove_title(old(store).rows(), title@),
        r is Ok ==> !has_title(final(store).rows(), title@),
        r is Err ==> final(store).rows() == old(store).rows(),
        r matches Err(e) ==> e is Sqlite,
{
    proof {
        lemma_remove_title_unique(store.rows(), title@);
    }
    match delete_rows(&mut store.conn, title) {
        Ok(()) => Ok(()),
        Err(e) => Err(StoreError::Sqlite(e)),
    }
}

/// Rewrites the state of every row under `title`; an absent title makes the
/// call a successful no-op.
pub fn update_item_state(title: &str, state: &str, store: &mut Store) -> (r: Result<(), StoreError>)
    requires
        old(store).wf(),
    ensures
        final(store).wf(),
        r is Ok ==> final(store).rows() == set_state_rows(old(store).rows(), title@, state@),
        r is Err ==> final(store).rows() == old(store).rows(),
        r matches Err(e) ==> e is Sqlite,
{
    let ghost rows = store.rows();
    match update_rows(&mut store.conn, title, state) {
        Ok(()) => {
            proof {
                assert(forall|i: int|
                    0 <= i < store.rows().len() ==> #[trigger] store.rows()[i].0 == rows[i].0);
            }
            Ok(())
        },
        Err(e) => Err(StoreError::Sqlite(e)),
    }
}

/// Deletes every row; idempotent.
pub fn clear_all(store: &mut Store) -> (r: Result<(), StoreError>)
    requires
        old(store).wf(),
    ensures
        final(store).wf(),
        r is Ok ==> final(store).rows() == Seq::<(Seq<char>, Seq<char>)>::empty(),
        r is Err ==> final(store).rows() == old(store).rows(),
        r matches Err(e) ==> e is Sqlite,
{
    match delete_all_rows(&mut store.conn) {
        Ok(()) => Ok(()),
        Err(e) => Err(StoreError::Sqlite(e)),
    }
}

/// Returns the single item under `title`, or NotFound when no row carries
/// it: exactly-one-or-error, never an empty success.
pub fn get_item(title: &str, store: &Store) -> (r: Result<Item, StoreError>)
    requires
        store.wf(),
    ensures
        r matches Ok(it) ==> it@.0 == title@ && store.rows().contains(it@),
        r matches Ok(it) ==> forall|i: int|
            0 <= i < store.rows().len() && #[trigger] store.rows()[i].0 == title@
                ==> store.rows()[i] == it@,
        r matches Err(e) && e is NotFound ==> !has_title(store.rows(), title@),
        !has_title(store.rows(), title@) ==> !(r is Ok),
        has_title(store.rows(), title@) ==> !(r matches Err(StoreError::NotFound)),
        r matches Err(e) ==> e is NotFound || e is Sqlite,
{
    match select_first_row(&store.conn, title) {
        Ok(Some(it)) => {
            proof {
                let rows = store.rows();
                let k = choose|k: int| 0 <= k < rows.len() && rows[k] == it@;
                assert forall|i: int|
                    0 <= i < rows.len() && #[trigger] rows[i].0 == title@ implies rows[i]
                    == it@ by {
                    assert(i == k);
                }
            }
            Ok(it)
        },
        Ok(None) => Err(StoreError::NotFound),
        Err(e) => Err(StoreError::Sqlite(e)),
    }
}

/// Returns every item, in storage order.
pub fn get_all(store: &Store) -> (r: Result<Vec<Item>, StoreError>)
    requires
        store.wf(),
    ensures
        r matches Ok(v) ==> items_view(v@) == store.rows(),
        r matches Err(e) ==> e is Sqlite,
{
    match select_all_rows(&store.conn) {
        Ok(v) => Ok(v),
        Err(e) => Err(StoreError::Sqlite(e)),
    }
}

/// Returns every item whose state equals `state` exactly, in storage order.
pub fn get_by_state(store: &Store, state: &str) -> (r: Result<Vec<Item>, StoreError>)
    requires
        store.wf(),
    ensures
        r matches Ok(v) ==> items_view(v@) == rows_with_state(store.rows(), state@),
        r matches Err(e) ==> e is Sqlite,
{
    match select_rows_with_state(&store.conn, state) {
        Ok(v) => Ok(v),
        Err(e) => Err(StoreError::Sqlite(e)),
    }
}

} // verus!
