//! The configuration consumed by the initializer: the register lists, the
//! authentication entry, and the data the surrounding transport needs
//! (endpoint, meter type, debug switches).
//!
//! The library holds the configuration as plain values; reading it from a
//! configuration file belongs to the surrounding startup code, which hands a
//! validated `MeterConfig` to the initializer.

use vstd::prelude::*;

verus! {

/// One configured register: a diagnostic label, the address, the initial
/// value, and the bank it belongs to (`is_input` selects the input bank;
/// otherwise the holding bank).
#[derive(Debug, Clone)]
pub struct Register {
    pub name: String,
    pub address: u16,
    pub value: i32,
    pub is_input: bool,
}

/// The authentication entry: its pin is inserted into the holding bank at
/// the configured address as an ordinary register and carries no runtime
/// access-control semantics.
#[derive(Debug, Clone)]
pub struct Auth {
    pub name: String,
    pub register: u16,
    pub pin: u16,
}

/// The listening endpoint and the meter type; resolved by the transport
/// layer, not consumed by the register service.
#[derive(Debug, Clone)]
pub struct MeterData {
    pub ip: String,
    pub port: u16,
    pub meter_type: String,
}

/// Debug switches; passed through untouched and not consumed by the
/// register service.
#[derive(Debug, Clone)]
pub struct DebugConfig {
    pub mgw_generic: String,
    pub statemachine_modbus: String,
    pub statemachine_read: String,
}

/// The validated configuration document.
#[derive(Debug, Clone)]
pub struct MeterConfig {
    pub meter_data: MeterData,
    pub auth: Auth,
    pub write_registers: Vec<Register>,
    pub read_registers: Vec<Register>,
    pub debug: DebugConfig,
}

} // verus!
