use itemstore::guard::StoreGuard;
use itemstore::store::initialize_database;
use itemstore::store::StoreError;

fn installed_guard() -> StoreGuard {
    let guard = StoreGuard::new();
    let conn = rusqlite::Connection::open_in_memory().unwrap();
    guard.install(initialize_database(conn).unwrap());
    guard
}

#[test]
fn accessors_fail_loudly_before_install() {
    let guard = StoreGuard::new();
    assert!(matches!(guard.add("X", "todo"), Err(StoreError::NotInstalled)));
    assert!(matches!(guard.fetch(), Err(StoreError::NotInstalled)));
    assert!(matches!(guard.get("X"), Err(StoreError::NotInstalled)));
    assert!(matches!(guard.remove_item("X"), Err(StoreError::NotInstalled)));
    assert!(matches!(guard.update_state("X", "done"), Err(StoreError::NotInstalled)));
    assert!(matches!(guard.clear(), Err(StoreError::NotInstalled)));
}

#[test]
fn guard_runs_the_repository() {
    let guard = installed_guard();
    guard.add("X", "todo").unwrap();
    guard.add("X", "done").unwrap();
    guard.add("Y", "todo").unwrap();
    let all = guard.fetch().unwrap();
    let value: serde_json::Value = serde_json::from_str(&all).unwrap();
    let arr = value.as_array().unwrap();
    assert_eq!(arr.len(), 2);
    let by_state = guard.fetch_by_state("done").unwrap();
    let value: serde_json::Value = serde_json::from_str(&by_state).unwrap();
    let arr = value.as_array().unwrap();
    assert_eq!(arr.len(), 1);
    assert_eq!(arr[0]["title"].as_str().unwrap(), "X");
    let it = guard.get("Y").unwrap();
    assert_eq!(it.state, "todo");
    guard.update_state("Y", "done").unwrap();
    assert_eq!(guard.get("Y").unwrap().state, "done");
    guard.update_state("absent", "done").unwrap();
    let all = guard.fetch().unwrap();
    let value: serde_json::Value = serde_json::from_str(&all).unwrap();
    assert_eq!(value.as_array().unwrap().len(), 2);
    guard.remove_item("Y").unwrap();
    assert!(matches!(guard.get("Y"), Err(StoreError::NotFound)));
    guard.clear().unwrap();
    assert_eq!(guard.fetch().unwrap(), "[]");
}

#[test]
fn remove_empties_the_guard() {
    let guard = installed_guard();
    guard.add("X", "todo").unwrap();
    let taken = guard.remove();
    assert!(taken.is_some());
    drop(taken);
    assert!(matches!(guard.fetch(), Err(StoreError::NotInstalled)));
    assert!(guard.remove().is_none());
}
