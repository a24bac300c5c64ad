//! A virtual filesystem backend for an embedded relational query engine,
//! layered over a growable, page-granular memory region.
//!
//! The crate provides:
//! - [`store::PagedStore`]: a byte-addressable store that grows in 64 KiB
//!   pages over a linear memory region,
//! - [`lock::LockCoordinator`]: the five-level advisory lock state machine
//!   shared by all handles of one store,
//! - [`vfs::VfsPages`] and [`vfs::VfsConnection`]: the adapter and per-handle
//!   operations the query engine calls,
//! - [`config::ConnectionConfig`]: plain connection configuration data.

pub mod config;
pub mod error;
pub mod lock;
pub mod memory;
pub mod store;
pub mod vfs;
