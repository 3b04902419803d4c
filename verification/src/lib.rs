//! A SQLite plugin for hosts that speak JSON: a request is a verb and a JSON object, and its
//! answer is a JSON object.
//!
//! The library decides and never calls SQLite. A request becomes a [`call::Call`], which
//! names the next call to make as a [`driver::Action`] and takes its result as a
//! [`driver::Event`], until it has its answer. Connections to files and named in-memory
//! databases are kept in [`connections::Connections`] from one call to the next.
//!
//! Each machine has a model: a function for the action that is pending, and one for the
//! state after an event. The proofs in [`ledger`], [`runs`], [`rows`] and [`answers`] follow
//! whole runs of events through these models.

pub mod abi;
#[allow(unused_imports)]
pub mod answers;
pub mod base64;
pub mod call;
pub mod connections;
pub mod db;
pub mod driver;
pub mod json;
#[allow(unused_imports)]
pub mod ledger;
pub mod open;
pub mod operation;
pub mod path;
pub mod progress;
#[allow(unused_imports)]
pub mod rows;
#[allow(unused_imports)]
pub mod runs;
pub mod statement;
pub mod text;
