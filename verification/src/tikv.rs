//! The backend that keeps its data in a cluster of storage nodes and finds
//! them through a placement directory.

pub mod context;
pub mod pd_client;
pub mod tikv_client;
pub mod tikv_db;
