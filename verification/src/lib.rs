//! Discovery of network-attached media-casting devices advertised over
//! multicast DNS.
//!
//! The crate has three parts: a pure parser that turns the typed records of
//! one advertisement response into a validated [`device::DeviceRecord`], a
//! [`cache::DeviceDiscoveryCache`] that owns the poll lifecycle and the
//! deduplicated set of discovered devices, and a registry of well-known
//! service identifiers. All socket I/O and thread plumbing live outside the
//! crate: callers hand the parser plain record values and drive the cache's
//! state transitions with millisecond timestamps.

pub mod cache;
pub mod device;
pub mod ip;
pub mod laws;
pub mod services;
