use modbus_meter::config::Auth;
use modbus_meter::config::DebugConfig;
use modbus_meter::config::MeterConfig;
use modbus_meter::config::MeterData;
use modbus_meter::config::Register;
use modbus_meter::client::bulk_read_span;
use modbus_meter::service_init::initialize_read_registers;
use modbus_meter::service_init::initialize_registers;

fn register(name: &str, address: u16, value: i32, is_input: bool) -> Register {
    Register { name: String::from(name), address, value, is_input }
}

fn config(read_registers: Vec<Register>) -> MeterConfig {
    MeterConfig {
        meter_data: MeterData {
            ip: String::from("127.0.0.1"),
            port: 5502,
            meter_type: String::from("generic"),
        },
        auth: Auth { name: String::from("operator"), register: 100, pin: 1234 },
        write_registers: Vec::new(),
        read_registers,
        debug: DebugConfig {
            mgw_generic: String::from("off"),
            statemachine_modbus: String::from("off"),
            statemachine_read: String::from("off"),
        },
    }
}

#[test]
fn demo_layout_has_documented_values() {
    let rd = initialize_registers();
    assert_eq!(rd.input_registers.len(), 2);
    assert_eq!(rd.input_registers.get(&0), Some(&1234));
    assert_eq!(rd.input_registers.get(&1), Some(&5678));
    assert_eq!(rd.holding_registers.len(), 4);
    assert_eq!(rd.holding_registers.get(&0), Some(&10));
    assert_eq!(rd.holding_registers.get(&1), Some(&20));
    assert_eq!(rd.holding_registers.get(&2), Some(&30));
    assert_eq!(rd.holding_registers.get(&3), Some(&40));
}

#[test]
fn read_registers_are_loaded_into_holding_bank() {
    let mut rd = initialize_registers();
    let cfg = config(vec![register("voltage", 40, 230, false), register("extra", 41, 5, true)]);
    initialize_read_registers(&mut rd, &cfg);
    // Every read-register entry lands in the holding bank, whatever its flag.
    assert_eq!(rd.holding_registers.get(&40), Some(&230));
    assert_eq!(rd.holding_registers.get(&41), Some(&5));
    // Pre-existing holding registers and the input bank are untouched.
    assert_eq!(rd.holding_registers.get(&0), Some(&10));
    assert_eq!(rd.input_registers.len(), 2);
}

#[test]
fn loading_overwrites_earlier_values_at_same_address() {
    let mut rd = initialize_registers();
    let cfg = config(vec![register("first", 50, 1, false), register("second", 50, 2, false)]);
    initialize_read_registers(&mut rd, &cfg);
    assert_eq!(rd.holding_registers.get(&50), Some(&2));
}

#[test]
fn span_of_empty_register_list_is_none() {
    assert_eq!(bulk_read_span(&Vec::new()), None);
}

#[test]
fn span_covers_smallest_and_largest_address() {
    let regs = vec![
        register("a", 17, 0, false),
        register("b", 3, 0, false),
        register("c", 90, 0, false),
        register("d", 44, 0, false),
    ];
    assert_eq!(bulk_read_span(&regs), Some((3, 90)));
}

#[test]
fn span_of_single_register_is_its_address() {
    let regs = vec![register("only", 8, 0, false)];
    assert_eq!(bulk_read_span(&regs), Some((8, 8)));
}
