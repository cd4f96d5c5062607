//! A cache of short identifiers and the locators they stand for, in front of a durable store.
//!
//! The cache keeps every record under two keys, its identifier and its locator, grants each
//! record a time to live, and is swept from time to time so that it holds no expired record
//! and no more than a given number of records. Lookups and creations go through the cache
//! first and ask the store only for what the cache does not know.
//!
//! - [`record`]: one mapping, and the instant at which it expires.
//! - [`index`]: one index of the cache, a concurrent hash map.
//! - [`cache`]: the two indices together, and what can be asked of them.
//! - [`sweep`]: removing what has expired and bringing the cache within its bound.
//! - [`clock`]: the current time, and the arithmetic of expirations.
//! - [`ident`]: new identifiers.
//! - [`store`]: what the cache layer asks of the store, and what the store answers.
//! - [`handler`]: lookups and creations, step by step.
//! - [`config`]: what a deployment chooses.
//! - [`laws`]: what holds of all of this, proved.
//!
//! All contracts speak of one caller at a time: a cache that is shared between tasks is to be
//! locked around each call.

pub mod record;
pub mod index;
pub mod cache;
pub mod sweep;
pub mod clock;
pub mod ident;
pub mod store;
pub mod handler;
pub mod config;
pub mod laws;
