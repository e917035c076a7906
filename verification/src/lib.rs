//! A port-knocking daemon library.
//!
//! A client earns access to a protected stream service by first sending
//! datagrams ("knocks") to a fixed, ordered list of otherwise inert ports.
//! The crate provides the three verified components such a daemon is built
//! from: the knock tracker ([`state`]), which turns per-address knock
//! histories into an authorization decision; the resource registry
//! ([`connections`]), which owns every live socket behind an opaque token and
//! mediates its registration with the readiness multiplexer; and the daemon
//! transitions ([`daemon`]), which set the listeners up and promote an
//! authorized connection into a single-use session.

pub mod connections;
pub mod daemon;
pub mod state;
