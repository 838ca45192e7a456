//! Data-durability core of a local-first chat application: a versioned,
//! idempotent schema-migration engine and the relational store it
//! provisions for users, messages, contacts, groups, and auth tokens.
//!
//! The store is modelled in memory: table structure is held as data
//! (`schema`), the migration engine advances it step by step
//! (`migration`), and the store handle (`store`) enforces the relational
//! constraints — unique usernames, referential integrity, denormalized
//! group counters — on every write.

use vstd::prelude::*;

pub mod errors;
pub mod schema;
pub mod migration;
pub mod store;

verus! {

/// Connectivity smoke-test command: echoes a greeting for `name`.
pub fn greet(name: &str) -> (r: String)
    ensures
        r@ == "Hello, "@ + name@ + "! You've been greeted from Rust!"@,
{
    let mut s = "Hello, ".to_string();
    s.append(name);
    s.append("! You've been greeted from Rust!");
    s
}

} // verus!
