//! Verified core of an HTTP→gRPC bridge for the Xray node management API.
//!
//! The bridge authenticates clients with a bearer token, keeps a cache of gRPC channels
//! to Xray nodes named by `X-Node-*` headers, builds the protobuf payloads that manage
//! users, inbounds and outbounds, and maps node failures onto HTTP replies.

pub mod text;
pub mod wire;

pub mod error;
pub mod config;
pub mod auth;

pub mod account;
pub mod operations;
pub mod configs;
pub mod stats;
pub mod channel;
pub mod nodes;
pub mod routes;
