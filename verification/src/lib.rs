//! A small static-file server core: mount-table dispatch, traversal-safe
//! path resolution, response construction, and request timing, all verified.
//! Network and disk I/O stay outside; the library works on plain values.
pub mod config;
pub mod mounts;
pub mod paths;
pub mod respond;
pub mod server;
pub mod timing;
