//! A local credential store: named login records kept in one file, found by
//! fuzzy name match, changed through a console or a small HTTP interface, and
//! guarded against a second running instance by a marker file.
//!
//! The library holds the rules: what the store contains after each operation,
//! which records a query selects and in what order, how a request is routed and
//! answered, and how the instance lock moves between its states. Reading and
//! writing files, sockets and the terminal is left to the caller, who hands the
//! library what came of it as plain values.
//!
//! - [`models`]: the records and the store, with adding and removing.
//! - [`query`]: what the store answers to a query.
//! - [`matcher`]: which names match a query, and the order of the matches;
//!   [`matcher_laws`] states what holds of them.
//! - [`persist`]: the store as the content of its file.
//! - [`lock`]: the instance lock.
//! - [`session`]: the stages of one run of the program.
//! - [`net`]: the routes of the HTTP interface and their answers.
//! - [`ids`], [`codec`], [`wire`]: the calls into other crates, each with what
//!   is taken on trust about it.

pub mod args;
pub mod codec;
pub mod errors;
pub mod ids;
pub mod lock;
pub mod matcher;
pub mod matcher_laws;
pub mod models;
pub mod net;
pub mod outcome;
pub mod persist;
pub mod query;
pub mod session;
pub mod text;
pub mod wire;

pub use args::{InitArgs, QueryArgs, Subcommands};
pub use errors::{LocketError, StoreError};
pub use lock::{InstanceLock, LockError};
pub use models::{Config, Database, Login, LoginView};
pub use outcome::{CreateOutcome, ReadOutcome, RemoveOutcome, WriteOutcome};
pub use session::{Action, Stage};
