use vstd::prelude::*;

pub mod guard;
pub mod item;
pub mod model;
pub mod serialize;
pub mod sql;
pub mod store;

verus! {

/// The schema version that a fully migrated storage file carries.
pub const CURRENT_DB_VERSION: u32 = 1;

} // verus!
