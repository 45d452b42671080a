//! The request, response and exception types of the register service.
//!
//! Requests and responses form a closed tagged-variant type with exactly the
//! four supported operation kinds plus a catch-all for every other Modbus
//! function code; exceptions mirror Modbus's defined exception codes.

use vstd::prelude::*;

verus! {

/// A structured failure code returned in place of a successful response.
#[derive(Debug, Clone, Copy, PartialEq, Eq, Structural)]
pub enum Exception {
    /// The request kind is not one of the four supported ones.
    IllegalFunction,
    /// A referenced address is not present in the target bank.
    IllegalDataAddress,
    /// The requested quantity lies outside `[1, 125]`.
    IllegalDataValue,
    /// Internal store access could not be completed (synchronization failure).
    ServerDeviceFailure,
}

/// A decoded protocol-level request, handed to the dispatcher by the
/// surrounding transport.
#[derive(Debug, Clone, PartialEq, Eq)]
pub enum Request {
    /// Read `quantity` registers of the input bank starting at `address`.
    ReadInputRegisters(u16, u16),
    /// Read `quantity` registers of the holding bank starting at `address`.
    ReadHoldingRegisters(u16, u16),
    /// Overwrite one holding register with the given value.
    WriteSingleRegister(u16, u16),
    /// Overwrite consecutive holding registers with the given values.
    WriteMultipleRegisters(u16, Vec<u16>),
    /// Any other Modbus function code; always rejected.
    Unsupported,
}

/// The successful response to a [`Request`].
#[derive(Debug, Clone, PartialEq, Eq)]
pub enum Response {
    /// The values read from the input bank, in address order.
    ReadInputRegisters(Vec<u16>),
    /// The values read from the holding bank, in address order.
    ReadHoldingRegisters(Vec<u16>),
    /// Echo of the written address and value.
    WriteSingleRegister(u16, u16),
    /// The start address and the count of registers written.
    WriteMultipleRegisters(u16, u16),
}

} // verus!
