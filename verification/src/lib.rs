//! Serving core of a PostGIS-backed vector-tile server.
//!
//! The library covers the concurrent serving engine of the tile server:
//! a bounded pool of database connections with a fixed set of executor
//! workers, the coordinator/registry broadcast protocol that keeps
//! per-process source catalogs consistent in watch mode, and the pure
//! synthesis of tile queries from source definitions and tile
//! coordinates.  All database and network I/O lives outside this crate;
//! the functions here take plain values (metadata rows, result rows,
//! request fragments) and return plain values (SQL text, bind
//! parameters, catalogs, decisions).

pub mod catalog;
pub mod composite_source;
pub mod coordinator;
pub mod db;
pub mod decimal;
pub mod dev;
pub mod errors;
pub mod executor;
pub mod function_source;
pub mod mercator;
pub mod numfmt;
pub mod pool;
pub mod registry;
pub mod scan;
pub mod server;
pub mod source;
pub mod table_source;
pub mod tilejson;
