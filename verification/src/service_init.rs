//! A fixed demonstration register layout: two input registers and four
//! holding registers with known addresses and values, plus the loader that
//! folds a configuration's read-register list into an existing holding bank.

use vstd::prelude::*;
use std::collections::HashMap;

use crate::config::MeterConfig;
use crate::config::Register;
use crate::service::loaded_all;

verus! {

broadcast use vstd::std_specs::hash::group_hash_axioms;

/// A pair of register banks handed to the surrounding transport, which
/// shares it across connection handlers behind its own lock.
pub struct RegisterData {
    pub input_registers: HashMap<u16, u16>,
    pub holding_registers: HashMap<u16, u16>,
}

/// The demonstration layout: input registers 0 and 1 hold 1234 and 5678,
/// holding registers 0 through 3 hold 10, 20, 30 and 40.
pub fn initialize_registers() -> (r: RegisterData)
    ensures
        r.input_registers@ == map![0u16 => 1234u16, 1u16 => 5678u16],
        r.holding_registers@ == map![0u16 => 10u16, 1u16 => 20u16, 2u16 => 30u16, 3u16 => 40u16],
{
    let mut input_registers: HashMap<u16, u16> = HashMap::new();
    input_registers.insert(0, 1234);
    input_registers.insert(1, 5678);

    let mut holding_registers: HashMap<u16, u16> = HashMap::new();
    holding_registers.insert(0, 10);
    holding_registers.insert(1, 20);
    holding_registers.insert(2, 30);
    holding_registers.insert(3, 40);

    proof {
        assert(input_registers@ =~= map![0u16 => 1234u16, 1u16 => 5678u16]);
        assert(holding_registers@ =~= map![
            0u16 => 10u16,
            1u16 => 20u16,
            2u16 => 30u16,
            3u16 => 40u16,
        ]);
    }

    RegisterData { input_registers, holding_registers }
}

/// Insert every entry of the configuration's read-register list into the
/// holding bank, in order, with its initial value truncated to 16 bits; the
/// input bank is left untouched.
pub fn initialize_read_registers(register_data: &mut RegisterData, config: &MeterConfig)
    ensures
        final(register_data).input_registers@ == old(register_data).input_registers@,
        final(register_data).holding_registers@ == loaded_all(
            old(register_data).holding_registers@,
            config.read_registers@,
        ),
{
    let ghost reads: Seq<Register> = config.read_registers@;
    let ghost base: Map<u16, u16> = register_data.holding_registers@;
    let mut idx: usize = 0;
    while idx < config.read_registers.len()
        invariant
            0 <= idx <= reads.len(),
            reads == config.read_registers@,
            register_data.input_registers@ == old(register_data).input_registers@,
            base == old(register_data).holding_registers@,
            register_data.holding_registers@ == loaded_all(base, reads.take(idx as int)),
        decreases reads.len() - idx,
    {
        let register = &config.read_registers[idx];
        let value: u16 = #[verifier::truncate] (register.value as u16);
        register_data.holding_registers.insert(register.address, value);
        proof {
            assert(reads.take(idx + 1).drop_last() =~= reads.take(idx as int));
            assert(reads.take(idx + 1).last() == reads[idx as int]);
        }
        idx = idx + 1;
    }
    proof {
        assert(reads.take(reads.len() as int) =~= reads);
    }
}

} // verus!
