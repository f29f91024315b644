//! A typed client core for an Ethereum-style execution-layer JSON-RPC API.
//!
//! The heart of the crate is the batched multi-entity state fetch: a planner
//! expands a list of fetch descriptors into an ordered list of RPC calls, the
//! transport (outside this crate) answers them as an ordered batch, and a
//! demultiplexer walks the flat response list back into one structured result
//! per resolvable descriptor, mirroring the planner's branching exactly so
//! that no response is ever paired with the wrong request.

pub mod types;
pub mod planner;
pub mod demux;
pub mod routing;
pub mod laws;
