//! The guarded connection handle: process-wide state holding at most one
//! open store behind a lock, so that every repository operation passes
//! through one serialization point. Every accessor takes the exclusive side
//! of the lock: all reads and writes are mutually exclusive, strict
//! serializability at the cost of no read/read parallelism. The lock's
//! invariant is machine-checked: whatever store is installed is well-formed,
//! so no operation ever observes a table that is behind on migration or
//! holds two rows under one title.
//!
//! A limit set by the storage layer: `rusqlite::Connection` is not `Sync`,
//! and the store moves through the lock by value, so a guard shared across
//! threads must be shared by reference-counting a `Send` handle around it;
//! the guard itself adds no thread plumbing.

use vstd::prelude::*;

verus! {

use vstd::rwlock::RwLock;
use vstd::rwlock::RwLockPredicate;
use crate::item::Item;
use crate::model::rows_with_state;
use crate::model::unique_titles;
use crate::model::lemma_rows_with_state_unique;
use crate::serialize::items_to_json;
use crate::serialize::json_items;
use crate::store::Store;
use crate::store::StoreError;
use crate::store::add_item;
use crate::store::clear_all;
use crate::store::get_all;
use crate::store::get_by_state;
use crate::store::get_item;
use crate::store::remove_item;
use crate::store::update_item_state;

/// The lock invariant: an installed store is always well-formed.
pub struct InstalledWf {}

impl RwLockPredicate<Option<Store>> for InstalledWf {
    open spec fn inv(self, v: Option<Store>) -> bool {
        v matches Some(s) ==> s.wf()
    }
}

/// The guard. The lock is released on every exit path, success or failure,
/// before the outcome is handed back.
pub struct StoreGuard {
    lock: RwLock<Option<Store>, InstalledWf>,
}

impl StoreGuard {
    /// An empty guard: every accessor reports NotInstalled until a store is
    /// installed.
    pub fn new() -> StoreGuard {
        StoreGuard { lock: RwLock::new(None, Ghost(InstalledWf {  })) }
    }

    /// Installs the store during application setup, before any accessor
    /// runs.
    pub fn install(&self, store: Store)
        requires
            store.wf(),
    {
        let (_prev, handle) = self.lock.acquire_write();
        handle.release_write(Some(store));
    }

    /// Takes the store out and leaves the guard empty, for a full reset:
    /// the guard retains no handle to a connection whose backing file the
    /// caller is about to delete.
    pub fn remove(&self) -> (r: Option<Store>)
        ensures
            r matches Some(s) ==> s.wf(),
    {
        let (prev, handle) = self.lock.acquire_write();
        handle.release_write(None);
        prev
    }

    /// Upserts one item under the lock. Fails only on an empty guard or a
    /// storage failure.
    pub fn add(&self, title: &str, state: &str) -> (r: Result<(), StoreError>)
        ensures
            r matches Err(e) ==> e is NotInstalled || e is Sqlite,
    {
        let (opt, handle) = self.lock.acquire_write();
        match opt {
            None => {
                handle.release_write(None);
                Err(StoreError::NotInstalled)
            },
            Some(mut store) => {
                let r = add_item(title, state, &mut store);
                handle.release_write(Some(store));
                r
            },
        }
    }

    /// Deletes one title under the lock; an absent title is a successful
    /// no-op. Fails only on an empty guard or a storage failure.
    pub fn remove_item(&self, title: &str) -> (r: Result<(), StoreError>)
        ensures
            r matches Err(e) ==> e is NotInstalled || e is Sqlite,
    {
        let (opt, handle) = self.lock.acquire_write();
        match opt {
            None => {
                handle.release_write(None);
                Err(StoreError::NotInstalled)
            },
            Some(mut store) => {
                let r = remove_item(title, &mut store);
                handle.release_write(Some(store));
                r
            },
        }
    }

    /// Rewrites one title's state under the lock; an absent title is a
    /// successful no-op. Fails only on an empty guard or a storage failure.
    pub fn update_state(&self, title: &str, state: &str) -> (r: Result<(), StoreError>)
        ensures
            r matches Err(e) ==> e is NotInstalled || e is Sqlite,
    {
        let (opt, handle) = self.lock.acquire_write();
        match opt {
            None => {
                handle.release_write(None);
                Err(StoreError::NotInstalled)
            },
            Some(mut store) => {
                let r = update_item_state(title, state, &mut store);
                handle.release_write(Some(store));
                r
            },
        }
    }

    /// Deletes every item under the lock. Fails only on an empty guard or a
    /// storage failure.
    pub fn clear(&self) -> (r: Result<(), StoreError>)
        ensures
            r matches Err(e) ==> e is NotInstalled || e is Sqlite,
    {
        let (opt, handle) = self.lock.acquire_write();
        match opt {
            None => {
                handle.release_write(None);
                Err(StoreError::NotInstalled)
            },
            Some(mut store) => {
                let r = clear_all(&mut store);
                handle.release_write(Some(store));
                r
            },
        }
    }

    /// Looks one item up under the lock: the item handed back carries the
    /// requested title; the only failures are an empty guard, absence, or a
    /// storage failure.
    pub fn get(&self, title: &str) -> (r: Result<Item, StoreError>)
        ensures
            r matches Ok(it) ==> it@.0 == title@,
            r matches Err(e) ==> e is NotInstalled || e is NotFound || e is Sqlite,
    {
        let (opt, handle) = self.lock.acquire_write();
        match opt {
            None => {
                handle.release_write(None);
                Err(StoreError::NotInstalled)
            },
            Some(store) => {
                let r = get_item(title, &store);
                handle.release_write(Some(store));
                r
            },
        }
    }

    /// Renders every item as JSON under the lock. Whatever text comes out is
    /// the rendering of some duplicate-free table: another serialized writer
    /// can change which rows are seen, never their shape. Fails only on an
    /// empty guard or a storage failure.
    pub fn fetch(&self) -> (r: Result<String, StoreError>)
        ensures
            r matches Ok(js) ==> exists|rows: Seq<(Seq<char>, Seq<char>)>|
                unique_titles(rows) && js@ == json_items(rows),
            r matches Err(e) ==> e is NotInstalled || e is Sqlite,
    {
        let (opt, handle) = self.lock.acquire_write();
        match opt {
            None => {
                handle.release_write(None);
                Err(StoreError::NotInstalled)
            },
            Some(store) => {
                let r = match get_all(&store) {
                    Ok(items) => {
                        let js = items_to_json(&items);
                        proof {
                            assert(unique_titles(store.rows()) && js@ == json_items(store.rows()));
                        }
                        Ok(js)
                    },
                    Err(e) => Err(e),
                };
                handle.release_write(Some(store));
                r
            },
        }
    }

    /// Renders the items of one state as JSON under the lock; the same shape
    /// and failure guarantees as `fetch`.
    pub fn fetch_by_state(&self, state: &str) -> (r: Result<String, StoreError>)
        ensures
            r matches Ok(js) ==> exists|rows: Seq<(Seq<char>, Seq<char>)>|
                unique_titles(rows) && js@ == json_items(rows),
            r matches Err(e) ==> e is NotInstalled || e is Sqlite,
    {
        let (opt, handle) = self.lock.acquire_write();
        match opt {
            None => {
                handle.release_write(None);
                Err(StoreError::NotInstalled)
            },
            Some(store) => {
                let r = match get_by_state(&store, state) {
                    Ok(items) => {
                        let js = items_to_json(&items);
                        proof {
                            lemma_rows_with_state_unique(store.rows(), state@);
                            let rows = rows_with_state(store.rows(), state@);
                            assert(unique_titles(rows) && js@ == json_items(rows));
                        }
                        Ok(js)
                    },
                    Err(e) => Err(e),
                };
                handle.release_write(Some(store));
                r
            },
        }
    }
}

} // verus!
