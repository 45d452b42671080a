use std::collections::HashMap;

use modbus_meter::bank::register_read;
use modbus_meter::bank::register_read_with_default;
use modbus_meter::bank::register_write;
use modbus_meter::protocol::Exception;
use modbus_meter::service::ModbusRegisterService;

fn bank(pairs: &[(u16, u16)]) -> HashMap<u16, u16> {
    let mut m = HashMap::new();
    for (a, v) in pairs {
        m.insert(*a, *v);
    }
    m
}

#[test]
fn strict_read_returns_values_in_address_order() {
    let m = bank(&[(0, 10), (1, 20), (2, 30)]);
    assert_eq!(register_read(&m, 0, 3), Ok(vec![10, 20, 30]));
    assert_eq!(register_read(&m, 1, 2), Ok(vec![20, 30]));
}

#[test]
fn strict_read_fails_on_any_hole() {
    let m = bank(&[(0, 10), (2, 30)]);
    assert_eq!(register_read(&m, 0, 3), Err(Exception::IllegalDataAddress));
    assert_eq!(register_read(&m, 1, 1), Err(Exception::IllegalDataAddress));
}

#[test]
fn read_with_default_substitutes_zero() {
    let m = bank(&[(0, 10), (2, 30)]);
    assert_eq!(register_read_with_default(&m, 0, 3), Ok(vec![10, 0, 30]));
    assert_eq!(register_read_with_default(&m, 5, 2), Ok(vec![0, 0]));
}

#[test]
fn read_with_default_handles_top_of_address_space() {
    let m = bank(&[(u16::MAX, 42)]);
    assert_eq!(register_read_with_default(&m, u16::MAX, 2), Ok(vec![42, 0]));
}

#[test]
fn write_overwrites_existing_registers() {
    let mut m = bank(&[(5, 0), (6, 0)]);
    assert_eq!(register_write(&mut m, 5, &[11, 12]), Ok(()));
    assert_eq!(m.get(&5), Some(&11));
    assert_eq!(m.get(&6), Some(&12));
}

#[test]
fn write_stops_at_first_missing_address() {
    let mut m = bank(&[(5, 0), (7, 0)]);
    assert_eq!(register_write(&mut m, 5, &[11, 12, 13]), Err(Exception::IllegalDataAddress));
    // The register before the hole is mutated, the one after it is not.
    assert_eq!(m.get(&5), Some(&11));
    assert_eq!(m.get(&7), Some(&0));
    assert_eq!(m.len(), 2);
}

#[test]
fn write_to_missing_first_address_changes_nothing() {
    let mut m = bank(&[(5, 1)]);
    assert_eq!(register_write(&mut m, 9, &[4]), Err(Exception::IllegalDataAddress));
    assert_eq!(m.get(&5), Some(&1));
    assert_eq!(m.len(), 1);
}

#[test]
fn empty_write_succeeds_without_effect() {
    let mut m = bank(&[(5, 1)]);
    assert_eq!(register_write(&mut m, 9, &[]), Ok(()));
    assert_eq!(m.get(&5), Some(&1));
    assert_eq!(m.len(), 1);
}

#[test]
fn bulk_read_validates_quantity_before_addresses() {
    let m = bank(&[(0, 10)]);
    assert_eq!(
        ModbusRegisterService::bulk_read_registers(&m, 50, 0),
        Err(Exception::IllegalDataValue)
    );
    assert_eq!(
        ModbusRegisterService::bulk_read_registers(&m, 50, 126),
        Err(Exception::IllegalDataValue)
    );
    assert_eq!(
        ModbusRegisterService::bulk_read_registers(&m, 50, 1),
        Err(Exception::IllegalDataAddress)
    );
    assert_eq!(ModbusRegisterService::bulk_read_registers(&m, 0, 1), Ok(vec![10]));
}
