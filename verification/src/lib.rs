//! A simulated Modbus slave device (a "meter") for exercising Modbus TCP
//! clients: an addressable bank of 16-bit registers, bounded bulk read and
//! write operations against it, and the Modbus-style exception codes returned
//! for invalid operations.
//!
//! The library holds the register service itself: the in-memory register
//! store, the request-to-store dispatch logic, the initializer that loads a
//! configuration into the store, and the exception taxonomy. The surrounding
//! transport (TCP listener, wire encoding and decoding, configuration-file
//! parsing, logging) lives outside the library and talks to it through plain
//! values.

pub mod bank;
pub mod client;
pub mod config;
pub mod protocol;
pub mod service;
pub mod service_init;

pub use protocol::Exception;
pub use protocol::Request;
pub use protocol::Response;
