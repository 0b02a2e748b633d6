//! A small user service: a store of user records behind four request
//! handlers, and a cache that a refresher keeps supplied with a fresh token.
//!
//! - [`user`]: the user record and the partial update of one.
//! - [`store`]: the store, whose value is a map from identifiers to records.
//! - [`api`]: the handlers for creating, reading, updating and deleting.
//! - [`cache`] and [`refresher`]: the token cache and what refreshes it.
//! - [`laws`]: what holds of the store's operations taken together.
//! - [`slots`]: what is taken on trust about the slab the store is kept in.
//!
//! The library takes no lock and does not sleep: a caller that shares a store
//! or a cache among tasks guards it, and runs the refresher's timer.

use vstd::prelude::*;

pub mod api;
mod arena;
pub mod cache;
pub mod laws;
pub mod refresher;
pub mod slots;
pub mod store;
pub mod user;
