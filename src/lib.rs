//! A KV-cache-aware router: it hashes request tokens into prefix-chained block
//! hashes, keeps an index of which worker holds which block, tracks worker load,
//! and picks the worker with the best trade-off between cache reuse and load.
//!
//! Beside the router, the crate holds the naming of namespaces, components and
//! endpoints of the distributed runtime, the command-line options of the
//! launcher, and the command lines of engine sub-processes.
pub mod hasher;
pub mod indexer;
pub mod event_queue;
pub mod endpoints;
pub mod metrics;
pub mod scheduler;
pub mod router;
pub mod text;
pub mod protocols;
pub mod component;
pub mod logs;
pub mod opt;
pub mod local_model;
pub mod subprocess;
