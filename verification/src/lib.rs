//! Routing and reply rules of a consensus-replicated key-value store.
//!
//! The crate holds the decisions that a client and a node of the store make:
//! which node a call goes to, how a reply changes what the client knows of
//! the cluster, when a call is repeated and when it ends, and what a node
//! answers once its consensus engine has spoken. Sending and receiving is
//! left to the caller.

pub mod common;
pub mod routes;
pub mod session;
pub mod kv_client;
pub mod raft_client;
pub mod kv_grpc;
pub mod kv_server;
pub mod laws;
