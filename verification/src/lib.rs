//! A session registry: a keyed collection of `{id, payload}` records kept
//! under a single key of a backing key-value store, with a compare-and-swap
//! retry protocol that prevents lost updates between concurrent writers.


pub mod kv;
pub mod laws;
pub mod registry;
pub mod session;
