//! Device provisioning: single-use enrollment tokens are redeemed for broker
//! credentials, and every row a redemption writes is committed as one unit.
//!
//! * [`auth`] issues random identifiers and secrets of which only a bcrypt
//!   hash is kept.
//! * [`table`] is a keyed table; [`db`] is the store built from six of them,
//!   with its constraints; [`model`] is the same store as a mathematical
//!   value, in whose terms every contract is stated.
//! * [`orchestrator`] is one registration as a state machine, and [`web`]
//!   runs it from the presented token to the response.
//! * [`laws`] proves what holds over whole histories of writes.
//! * [`config`] holds the broker's advertised address.

pub mod auth;
pub mod config;
pub mod db;
pub mod laws;
pub mod model;
pub mod orchestrator;
pub mod table;
pub mod web;
