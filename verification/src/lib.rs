//! Verified core of a REST service over a Bluetooth management subsystem.
//!
//! The service lets clients list radio adapters, list the devices an
//! adapter knows, pair, connect, trust and block devices, and stream
//! discovery and adapter events.  This crate holds the parts of that
//! service that are pure logic: hardware-address parsing and formatting,
//! route dispatch, translation of outcomes into HTTP responses, the
//! all-or-nothing assembly of a device listing, and a reference model of
//! how each command reads or changes the subsystem's state.

pub mod address;
pub mod devices;
pub mod error;
pub mod laws;
pub mod response;
pub mod routes;
pub mod service;
