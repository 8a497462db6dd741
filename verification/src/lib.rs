//! A harness for testing the backup of a database to an object store.
//!
//! The modules hold what the harness decides and computes: which listener a server gets and under
//! which names it is found, how the server and its replicator are configured, which statements
//! fill a table and what the table then has to hold, what is deleted from a bucket, and what a
//! wrapped write-ahead log records of its savepoints. Sockets, HTTP and the clock are elsewhere.
pub mod bucket;
pub mod cleaner;
pub mod names;
pub mod options;
pub mod outside;
pub mod registry;
pub mod rows;
pub mod savepoint;
pub mod server;
pub mod stall;
pub mod text;
pub mod updates;
pub mod wal;
