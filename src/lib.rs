//! Runtime core of a blockchain log indexer: request fingerprinting for the
//! response cache, admission control for upstream calls, the provider
//! registry, the scheduling decisions of event and block workers, template
//! instantiation, handler registration and the progress plane.

pub mod bytes_search;
pub mod cache_layer;
pub mod rate_limit;
pub mod address;
pub mod error;
pub mod config;
pub mod rpc_manager;
pub mod scheduler;
pub mod progress;
pub mod templates;
pub mod indexer;
pub mod rpc_proxy;
pub mod monitoring;
pub mod server;
