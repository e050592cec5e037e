use itemstore::store::add_item;
use itemstore::store::clear_all;
use itemstore::store::get_all;
use itemstore::store::get_by_state;
use itemstore::store::get_item;
use itemstore::store::initialize_database;
use itemstore::store::remove_item;
use itemstore::store::update_item_state;
use itemstore::store::Store;
use itemstore::store::StoreError;

fn fresh_store() -> Store {
    let conn = rusqlite::Connection::open_in_memory().unwrap();
    initialize_database(conn).unwrap()
}

fn read_version(conn: &rusqlite::Connection) -> u32 {
    conn.query_row("PRAGMA user_version", [], |row| row.get(0)).unwrap()
}

#[test]
fn migration_idempotent() {
    let mut conn = rusqlite::Connection::open_in_memory().unwrap();
    let v0 = read_version(&conn);
    assert_eq!(v0, 0);
    itemstore::store::upgrade_database_if_needed(&mut conn, v0).unwrap();
    let v1 = read_version(&conn);
    assert_eq!(v1, itemstore::CURRENT_DB_VERSION);
    itemstore::store::upgrade_database_if_needed(&mut conn, v1).unwrap();
    assert_eq!(read_version(&conn), itemstore::CURRENT_DB_VERSION);
    let mut store = initialize_database(conn).unwrap();
    add_item("after twice", "todo", &mut store).unwrap();
    let items = get_all(&store).unwrap();
    assert_eq!(items.len(), 1);
}

#[test]
fn upsert_inserts_then_updates() {
    let mut store = fresh_store();
    add_item("X", "todo", &mut store).unwrap();
    add_item("X", "done", &mut store).unwrap();
    let items = get_all(&store).unwrap();
    assert_eq!(items.len(), 1);
    assert_eq!(items[0].title, "X");
    assert_eq!(items[0].state, "done");
}

#[test]
fn upsert_same_state_is_noop() {
    let mut store = fresh_store();
    add_item("X", "todo", &mut store).unwrap();
    add_item("X", "todo", &mut store).unwrap();
    let items = get_all(&store).unwrap();
    assert_eq!(items.len(), 1);
    assert_eq!(items[0].state, "todo");
}

#[test]
fn remove_nonexistent_is_noop() {
    let mut store = fresh_store();
    add_item("A", "done", &mut store).unwrap();
    add_item("B", "todo", &mut store).unwrap();
    let before = get_all(&store).unwrap();
    remove_item("nonexistent", &mut store).unwrap();
    let after = get_all(&store).unwrap();
    assert_eq!(before, after);
}

#[test]
fn remove_deletes_only_its_title() {
    let mut store = fresh_store();
    add_item("A", "done", &mut store).unwrap();
    add_item("B", "todo", &mut store).unwrap();
    remove_item("A", &mut store).unwrap();
    let items = get_all(&store).unwrap();
    assert_eq!(items.len(), 1);
    assert_eq!(items[0].title, "B");
}

#[test]
fn filter_exact_match() {
    let mut store = fresh_store();
    add_item("A", "done", &mut store).unwrap();
    add_item("B", "todo", &mut store).unwrap();
    add_item("C", "done", &mut store).unwrap();
    let done = get_by_state(&store, "done").unwrap();
    let mut titles: Vec<String> = done.iter().map(|it| it.title.clone()).collect();
    titles.sort();
    assert_eq!(titles, vec!["A".to_string(), "C".to_string()]);
    assert!(done.iter().all(|it| it.state == "done"));
    let missing = get_by_state(&store, "missing").unwrap();
    assert!(missing.is_empty());
    let partial = get_by_state(&store, "don").unwrap();
    assert!(partial.is_empty());
}

#[test]
fn get_absent_is_not_found() {
    let store = fresh_store();
    let r = get_item("absent", &store);
    assert!(matches!(r, Err(StoreError::NotFound)));
}

#[test]
fn get_present_returns_the_item() {
    let mut store = fresh_store();
    add_item("A", "done", &mut store).unwrap();
    let it = get_item("A", &store).unwrap();
    assert_eq!(it.title, "A");
    assert_eq!(it.state, "done");
}

#[test]
fn update_state_rewrites_matching_row() {
    let mut store = fresh_store();
    add_item("A", "todo", &mut store).unwrap();
    update_item_state("A", "done", &mut store).unwrap();
    assert_eq!(get_item("A", &store).unwrap().state, "done");
}

#[test]
fn update_state_absent_is_noop() {
    let mut store = fresh_store();
    add_item("A", "todo", &mut store).unwrap();
    update_item_state("missing", "done", &mut store).unwrap();
    let items = get_all(&store).unwrap();
    assert_eq!(items.len(), 1);
    assert_eq!(items[0].state, "todo");
}

#[test]
fn clear_empties_everything() {
    let mut store = fresh_store();
    add_item("A", "done", &mut store).unwrap();
    add_item("B", "todo", &mut store).unwrap();
    clear_all(&mut store).unwrap();
    assert!(get_all(&store).unwrap().is_empty());
    clear_all(&mut store).unwrap();
    assert!(get_all(&store).unwrap().is_empty());
}

#[test]
fn newer_version_is_refused() {
    let conn = rusqlite::Connection::open_in_memory().unwrap();
    conn.pragma_update(None, "user_version", 9u32).unwrap();
    let r = initialize_database(conn);
    assert!(matches!(r, Err(StoreError::UnsupportedVersion)));
}

#[test]
fn preexisting_duplicates_are_refused() {
    let mut conn = rusqlite::Connection::open_in_memory().unwrap();
    itemstore::store::upgrade_database_if_needed(&mut conn, 0).unwrap();
    conn.execute("INSERT INTO items (title, state) VALUES (?1, ?2)", ("X", "todo")).unwrap();
    conn.execute("INSERT INTO items (title, state) VALUES (?1, ?2)", ("X", "done")).unwrap();
    let r = initialize_database(conn);
    assert!(matches!(r, Err(StoreError::DuplicateTitle)));
}

#[test]
fn missing_table_is_a_storage_error() {
    let mut conn = rusqlite::Connection::open_in_memory().unwrap();
    itemstore::store::upgrade_database_if_needed(&mut conn, 0).unwrap();
    conn.execute_batch("DROP TABLE items").unwrap();
    let r = initialize_database(conn);
    assert!(matches!(r, Err(StoreError::Sqlite(_))));
}

#[test]
fn unicode_titles_round_trip() {
    let mut store = fresh_store();
    add_item("gr\u{00fc}n \u{2713}", "\u{00e9}tat", &mut store).unwrap();
    let it = get_item("gr\u{00fc}n \u{2713}", &store).unwrap();
    assert_eq!(it.state, "\u{00e9}tat");
}

#[test]
fn empty_strings_are_ordinary_values() {
    let mut store = fresh_store();
    add_item("", "", &mut store).unwrap();
    let it = get_item("", &store).unwrap();
    assert_eq!(it.title, "");
    assert_eq!(it.state, "");
    let items = get_by_state(&store, "").unwrap();
    assert_eq!(items.len(), 1);
}
