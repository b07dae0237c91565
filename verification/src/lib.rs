//! Client-side logic of a datastore that talks to a graph-database server
//! over a streaming RPC channel: where the server listens, how its start-up
//! is awaited, and how transaction requests and replies are formed and read.
pub mod decimal;
pub mod endpoint;
pub mod startup;
pub mod transaction;
