//! An in-memory key/value cache with a line-oriented command language.
//!
//! The crate holds the rules of the cache, each with a contract over the
//! mathematical view of its data:
//!
//! - [`text`]: the primitives on sequences of characters;
//! - [`key`]: the key invariant and its validator;
//! - [`grammar`] and [`api`]: the two syntaxes of the command language, as
//!   mathematics and as a parser;
//! - [`equivalence`]: the agreement of the two syntaxes;
//! - [`cache`]: the store;
//! - [`search`]: the search engine;
//! - [`protocol`]: what one request does and how its reply reads;
//! - [`threading`]: the scheduling rules of the worker pool;
//! - [`parser`]: the command-line front end;
//! - [`configuration`], [`cluster`] and [`node_id`]: the settings and the
//!   cluster manifest.
//!
//! Sockets, threads, files and the process-wide store live outside the
//! crate, with whoever runs the server.

pub mod api;
pub mod cache;
pub mod cluster;
pub mod configuration;
pub mod equivalence;
pub mod grammar;
pub mod key;
pub mod node_id;
pub mod parser;
pub mod protocol;
pub mod search;
pub mod text;
pub mod threading;
