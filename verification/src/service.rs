//! The register service: two register banks (*input* and *holding*), the
//! initializer that loads a configuration into them, and the dispatcher that
//! maps protocol-level requests to bank operations.
//!
//! The dispatcher is a pure function of the current bank contents and the
//! request; it keeps no state of its own between calls. The service is meant
//! to be owned by the surrounding transport, which serializes access to it
//! (one exclusive lock around each request) and reports a failure to acquire
//! that lock as `ServerDeviceFailure` without consulting the service.

use vstd::prelude::*;
use std::collections::HashMap;

use crate::bank::range_registered;
use crate::bank::read_result;
use crate::bank::register_read;
use crate::bank::register_write;
use crate::bank::valid_quantity;
use crate::bank::write_applied;
use crate::bank::write_ok;
use crate::config::MeterConfig;
use crate::config::Register;
use crate::protocol::Exception;
use crate::protocol::Request;
use crate::protocol::Response;

verus! {

broadcast use vstd::std_specs::hash::group_hash_axioms;

/// The bank `m` after inserting, in order, every entry of `regs` whose
/// `is_input` flag equals `input_side`, with its initial value truncated to
/// 16 bits. A later entry at the same address overwrites an earlier one.
pub open spec fn loaded_registers(
    m: Map<u16, u16>,
    regs: Seq<Register>,
    input_side: bool,
) -> Map<u16, u16>
    decreases regs.len(),
{
    if regs.len() == 0 {
        m
    } else {
        let prev = loaded_registers(m, regs.drop_last(), input_side);
        let r = regs.last();
        if r.is_input == input_side {
            prev.insert(r.address, r.value as u16)
        } else {
            prev
        }
    }
}

/// The bank `m` after inserting, in order, every entry of `regs`, with its
/// initial value truncated to 16 bits.
pub open spec fn loaded_all(m: Map<u16, u16>, regs: Seq<Register>) -> Map<u16, u16>
    decreases regs.len(),
{
    if regs.len() == 0 {
        m
    } else {
        loaded_all(m, regs.drop_last()).insert(regs.last().address, regs.last().value as u16)
    }
}

/// The input bank immediately after initialization from `cfg`: the
/// `is_input` entries of the read-register list, over an empty bank.
pub open spec fn spec_input_registers(cfg: MeterConfig) -> Map<u16, u16> {
    loaded_registers(Map::empty(), cfg.read_registers@, true)
}

/// The holding bank immediately after initialization from `cfg`: the
/// non-input entries of the read-register list, then the write-register
/// list, then the auth entry's pin, over an empty bank.
pub open spec fn spec_holding_registers(cfg: MeterConfig) -> Map<u16, u16> {
    loaded_all(
        loaded_registers(Map::empty(), cfg.read_registers@, false),
        cfg.write_registers@,
    ).insert(cfg.auth.register, cfg.auth.pin)
}

/// An address untouched by every entry of `regs` on side `input_side` keeps
/// its binding (or its absence) across `loaded_registers`.
pub proof fn lemma_loaded_registers_absent(
    m: Map<u16, u16>,
    regs: Seq<Register>,
    input_side: bool,
    a: u16,
)
    requires
        forall|i: int|
            0 <= i < regs.len() ==> !((#[trigger] regs[i]).is_input == input_side
                && regs[i].address == a),
    ensures
        loaded_registers(m, regs, input_side).contains_key(a) == m.contains_key(a),
        m.contains_key(a) ==> loaded_registers(m, regs, input_side)[a] == m[a],
    decreases regs.len(),
{
    if regs.len() > 0 {
        lemma_loaded_registers_absent(m, regs.drop_last(), input_side, a);
        assert(regs[regs.len() - 1] == regs.last());
    }
}

/// An entry of `regs` on side `input_side` whose address no later entry of
/// the same side reuses ends up in `loaded_registers` with its own value.
pub proof fn lemma_loaded_registers_present(
    m: Map<u16, u16>,
    regs: Seq<Register>,
    input_side: bool,
    i: int,
)
    requires
        0 <= i < regs.len(),
        regs[i].is_input == input_side,
        forall|j: int|
            i < j < regs.len() ==> !((#[trigger] regs[j]).is_input == input_side && regs[j].address
                == regs[i].address),
    ensures
        loaded_registers(m, regs, input_side).contains_key(regs[i].address),
        loaded_registers(m, regs, input_side)[regs[i].address] == regs[i].value as u16,
    decreases regs.len(),
{
    if i == regs.len() - 1 {
        assert(regs.last() == regs[i]);
    } else {
        lemma_loaded_registers_present(m, regs.drop_last(), input_side, i);
        assert(regs.drop_last()[i] == regs[i]);
        assert(regs[regs.len() - 1] == regs.last());
    }
}

/// An address untouched by every entry of `regs` keeps its binding (or its
/// absence) across `loaded_all`.
pub proof fn lemma_loaded_all_absent(m: Map<u16, u16>, regs: Seq<Register>, a: u16)
    requires
        forall|i: int| 0 <= i < regs.len() ==> (#[trigger] regs[i]).address != a,
    ensures
        loaded_all(m, regs).contains_key(a) == m.contains_key(a),
        m.contains_key(a) ==> loaded_all(m, regs)[a] == m[a],
    decreases regs.len(),
{
    if regs.len() > 0 {
        lemma_loaded_all_absent(m, regs.drop_last(), a);
        assert(regs[regs.len() - 1] == regs.last());
    }
}

/// An entry of `regs` whose address no later entry reuses ends up in
/// `loaded_all` with its own value.
pub proof fn lemma_loaded_all_present(m: Map<u16, u16>, regs: Seq<Register>, i: int)
    requires
        0 <= i < regs.len(),
        forall|j: int| i < j < regs.len() ==> (#[trigger] regs[j]).address != regs[i].address,
    ensures
        loaded_all(m, regs).contains_key(regs[i].address),
        loaded_all(m, regs)[regs[i].address] == regs[i].value as u16,
    decreases regs.len(),
{
    if i == regs.len() - 1 {
        assert(regs.last() == regs[i]);
    } else {
        lemma_loaded_all_present(m, regs.drop_last(), i);
        assert(regs.drop_last()[i] == regs[i]);
        assert(regs[regs.len() - 1] == regs.last());
    }
}

/// Whether every address bound for the holding bank appears exactly once in
/// `cfg`: the non-input read entries, the write entries and the auth entry
/// all carry pairwise distinct addresses.
pub open spec fn holding_addresses_distinct(cfg: MeterConfig) -> bool {
    let reads = cfg.read_registers@;
    let writes = cfg.write_registers@;
    &&& forall|i: int, j: int|
        #![trigger reads[i].address, reads[j].address]
        0 <= i < j < reads.len() && !reads[i].is_input && !reads[j].is_input ==> reads[i].address
            != reads[j].address
    &&& forall|i: int, j: int|
        #![trigger writes[i].address, writes[j].address]
        0 <= i < j < writes.len() ==> writes[i].address != writes[j].address
    &&& forall|i: int, j: int|
        #![trigger reads[i].address, writes[j].address]
        0 <= i < reads.len() && 0 <= j < writes.len() && !reads[i].is_input ==> reads[i].address
            != writes[j].address
    &&& forall|i: int|
        0 <= i < reads.len() && !(#[trigger] reads[i]).is_input ==> reads[i].address
            != cfg.auth.register
    &&& forall|j: int| 0 <= j < writes.len() ==> (#[trigger] writes[j]).address != cfg.auth.register
}

/// Immediately after initialization, every configured holding-bank entry is
/// readable at its own address with its own (16-bit-truncated) initial
/// value: a one-register read returns exactly `[value]`. This holds for the
/// non-input read entries, the write entries and the auth entry, provided
/// the configured holding addresses are pairwise distinct (a repeated
/// address is overwritten by the later entry, and the law does not cover
/// the overwritten one).
pub proof fn lemma_initialized_holding_contents(cfg: MeterConfig)
    requires
        holding_addresses_distinct(cfg),
    ensures
        ({
            let h = spec_holding_registers(cfg);
            let reads = cfg.read_registers@;
            let writes = cfg.write_registers@;
            &&& forall|i: int|
                0 <= i < reads.len() && !(#[trigger] reads[i]).is_input ==> h.contains_key(
                    reads[i].address,
                ) && h[reads[i].address] == reads[i].value as u16 && read_result(
                    h,
                    reads[i].address as int,
                    1,
                ) == seq![reads[i].value as u16]
            &&& forall|j: int|
                0 <= j < writes.len() ==> h.contains_key((#[trigger] writes[j]).address)
                    && h[writes[j].address] == writes[j].value as u16 && read_result(
                    h,
                    writes[j].address as int,
                    1,
                ) == seq![writes[j].value as u16]
            &&& h.contains_key(cfg.auth.register) && h[cfg.auth.register] == cfg.auth.pin
            &&& read_result(h, cfg.auth.register as int, 1) == seq![cfg.auth.pin]
        }),
{
    let h = spec_holding_registers(cfg);
    let reads = cfg.read_registers@;
    let writes = cfg.write_registers@;
    let from_reads = loaded_registers(Map::<u16, u16>::empty(), reads, false);
    let before_auth = loaded_all(from_reads, writes);

    assert forall|i: int|
        0 <= i < reads.len() && !(#[trigger] reads[i]).is_input implies h.contains_key(
        reads[i].address,
    ) && h[reads[i].address] == reads[i].value as u16 && read_result(h, reads[i].address as int, 1)
        == seq![reads[i].value as u16] by {
        lemma_loaded_registers_present(Map::<u16, u16>::empty(), reads, false, i);
        lemma_loaded_all_absent(from_reads, writes, reads[i].address);
        crate::bank::lemma_read_single(h, reads[i].address);
    }
    assert forall|j: int|
        0 <= j < writes.len() implies h.contains_key((#[trigger] writes[j]).address)
        && h[writes[j].address] == writes[j].value as u16 && read_result(
        h,
        writes[j].address as int,
        1,
    ) == seq![writes[j].value as u16] by {
        lemma_loaded_all_present(from_reads, writes, j);
        crate::bank::lemma_read_single(h, writes[j].address);
    }
    crate::bank::lemma_read_single(h, cfg.auth.register);
}

/// Initialization is idempotent: the banks after it depend on the
/// configuration alone, so re-running the initializer with an identical
/// configuration yields banks identical (same key set, same values) to
/// running it once, whatever the store held before.
pub proof fn lemma_initialize_idempotent(
    once: ModbusRegisterService,
    twice: ModbusRegisterService,
    cfg: MeterConfig,
)
    requires
        once.input_registers@ == spec_input_registers(cfg),
        once.holding_registers@ == spec_holding_registers(cfg),
        twice.input_registers@ == spec_input_registers(cfg),
        twice.holding_registers@ == spec_holding_registers(cfg),
    ensures
        once.input_registers@ == twice.input_registers@,
        once.holding_registers@ == twice.holding_registers@,
{
}

/// The register store: the input bank (conceptually read-only to clients)
/// and the holding bank (read and written by clients), each independently
/// keyed by a 16-bit address.
pub struct ModbusRegisterService {
    pub input_registers: HashMap<u16, u16>,
    pub holding_registers: HashMap<u16, u16>,
}

impl ModbusRegisterService {
    /// A store with two empty banks. Initialization is a separate, explicit
    /// step the surrounding startup sequence must run before serving.
    pub fn new() -> (s: Self)
        ensures
            s.input_registers@ == Map::<u16, u16>::empty(),
            s.holding_registers@ == Map::<u16, u16>::empty(),
    {
        Self { input_registers: HashMap::new(), holding_registers: HashMap::new() }
    }

    /// Clear both banks, then populate them from `config`: read-register
    /// entries go to the bank their `is_input` flag selects, write-register
    /// entries to the holding bank, and the auth entry's pin to the holding
    /// bank at its configured address.
    ///
    /// The banks afterwards depend on `config` alone, never on the store's
    /// prior contents, which makes repeated initialization idempotent.
    pub fn initialize_registers(&mut self, config: &MeterConfig)
        ensures
            final(self).input_registers@ == spec_input_registers(*config),
            final(self).holding_registers@ == spec_holding_registers(*config),
    {
        self.input_registers.clear();
        self.holding_registers.clear();

        let ghost reads: Seq<Register> = config.read_registers@;
        let mut idx: usize = 0;
        while idx < config.read_registers.len()
            invariant
                0 <= idx <= reads.len(),
                reads == config.read_registers@,
                self.input_registers@ == loaded_registers(
                    Map::<u16, u16>::empty(),
                    reads.take(idx as int),
                    true,
                ),
                self.holding_registers@ == loaded_registers(
                    Map::<u16, u16>::empty(),
                    reads.take(idx as int),
                    false,
                ),
            decreases reads.len() - idx,
        {
            let register = &config.read_registers[idx];
            let value: u16 = #[verifier::truncate] (register.value as u16);
            if register.is_input {
                self.input_registers.insert(register.address, value);
            } else {
                self.holding_registers.insert(register.address, value);
            }
            proof {
                assert(reads.take(idx + 1).drop_last() =~= reads.take(idx as int));
                assert(reads.take(idx + 1).last() == reads[idx as int]);
            }
            idx = idx + 1;
        }
        proof {
            assert(reads.take(reads.len() as int) =~= reads);
        }

        let ghost writes: Seq<Register> = config.write_registers@;
        let ghost holding_base: Map<u16, u16> = self.holding_registers@;
        let mut idx: usize = 0;
        while idx < config.write_registers.len()
            invariant
                0 <= idx <= writes.len(),
                writes == config.write_registers@,
                self.input_registers@ == spec_input_registers(*config),
                holding_base == loaded_registers(Map::<u16, u16>::empty(), reads, false),
                reads == config.read_registers@,
                self.holding_registers@ == loaded_all(holding_base, writes.take(idx as int)),
            decreases writes.len() - idx,
        {
            let register = &config.write_registers[idx];
            let value: u16 = #[verifier::truncate] (register.value as u16);
            self.holding_registers.insert(register.address, value);
            proof {
                assert(writes.take(idx + 1).drop_last() =~= writes.take(idx as int));
                assert(writes.take(idx + 1).last() == writes[idx as int]);
            }
            idx = idx + 1;
        }
        proof {
            assert(writes.take(writes.len() as int) =~= writes);
        }

        self.holding_registers.insert(config.auth.register, config.auth.pin);
    }

    /// Read `quantity` registers of `registers` starting at `start_address`.
    /// A quantity outside `[1, 125]` fails with `IllegalDataValue`; a range
    /// with any unregistered address fails as a whole with
    /// `IllegalDataAddress`; otherwise the values come back in address order.
    pub fn bulk_read_registers(registers: &HashMap<u16, u16>, start_address: u16, quantity: u16)
        -> (r: Result<Vec<u16>, Exception>)
        ensures
            !valid_quantity(quantity) ==> r == Err::<Vec<u16>, Exception>(
                Exception::IllegalDataValue,
            ),
            valid_quantity(quantity) && range_registered(
                registers@,
                start_address as int,
                quantity as int,
            ) ==> (r matches Ok(v) && v@ == read_result(
                registers@,
                start_address as int,
                quantity as int,
            )),
            valid_quantity(quantity) && !range_registered(
                registers@,
                start_address as int,
                quantity as int,
            ) ==> r == Err::<Vec<u16>, Exception>(Exception::IllegalDataAddress),
    {
        if quantity == 0 || quantity > 125 {
            return Err(Exception::IllegalDataValue);
        }
        register_read(registers, start_address, quantity)
    }

    /// Dispatch one decoded request against the store and return its
    /// response or exception. Reads leave both banks unchanged; writes go to
    /// the holding bank only; any unsupported request kind fails with
    /// `IllegalFunction` and changes nothing.
    pub fn call(&mut self, req: Request) -> (r: Result<Response, Exception>)
        ensures
            ({
                match req {
                    Request::ReadInputRegisters(addr, cnt) => {
                        &&& final(self).input_registers@ == old(self).input_registers@
                        &&& final(self).holding_registers@ == old(self).holding_registers@
                        &&& (!valid_quantity(cnt) ==> r == Err::<Response, Exception>(
                            Exception::IllegalDataValue,
                        ))
                        &&& (valid_quantity(cnt) && range_registered(
                            old(self).input_registers@,
                            addr as int,
                            cnt as int,
                        ) ==> (r matches Ok(Response::ReadInputRegisters(v)) && v@ == read_result(
                            old(self).input_registers@,
                            addr as int,
                            cnt as int,
                        )))
                        &&& (valid_quantity(cnt) && !range_registered(
                            old(self).input_registers@,
                            addr as int,
                            cnt as int,
                        ) ==> r == Err::<Response, Exception>(Exception::IllegalDataAddress))
                    },
                    Request::ReadHoldingRegisters(addr, cnt) => {
                        &&& final(self).input_registers@ == old(self).input_registers@
                        &&& final(self).holding_registers@ == old(self).holding_registers@
                        &&& (!valid_quantity(cnt) ==> r == Err::<Response, Exception>(
                            Exception::IllegalDataValue,
                        ))
                        &&& (valid_quantity(cnt) && range_registered(
                            old(self).holding_registers@,
                            addr as int,
                            cnt as int,
                        ) ==> (r matches Ok(Response::ReadHoldingRegisters(v)) && v@ == read_result(
                            old(self).holding_registers@,
                            addr as int,
                            cnt as int,
                        )))
                        &&& (valid_quantity(cnt) && !range_registered(
                            old(self).holding_registers@,
                            addr as int,
                            cnt as int,
                        ) ==> r == Err::<Response, Exception>(Exception::IllegalDataAddress))
                    },
                    Request::WriteSingleRegister(addr, value) => {
                        &&& final(self).input_registers@ == old(self).input_registers@
                        &&& write_applied(
                            old(self).holding_registers@,
                            final(self).holding_registers@,
                            addr as int,
                            seq![value],
                        )
                        &&& (write_ok(old(self).holding_registers@, addr as int, seq![value])
                            ==> r == Ok::<Response, Exception>(
                            Response::WriteSingleRegister(addr, value),
                        ))
                        &&& (!write_ok(old(self).holding_registers@, addr as int, seq![value])
                            ==> r == Err::<Response, Exception>(Exception::IllegalDataAddress)
                            && final(self).holding_registers@ == old(self).holding_registers@)
                    },
                    Request::WriteMultipleRegisters(addr, values) => {
                        &&& final(self).input_registers@ == old(self).input_registers@
                        &&& write_applied(
                            old(self).holding_registers@,
                            final(self).holding_registers@,
                            addr as int,
                            values@,
                        )
                        &&& (write_ok(old(self).holding_registers@, addr as int, values@) ==> (
                        r matches Ok(Response::WriteMultipleRegisters(a, n)) && a == addr && n
                            == values@.len() as u16))
                        &&& (!write_ok(old(self).holding_registers@, addr as int, values@) ==> r
                            == Err::<Response, Exception>(Exception::IllegalDataAddress))
                    },
                    Request::Unsupported => {
                        &&& final(self).input_registers@ == old(self).input_registers@
                        &&& final(self).holding_registers@ == old(self).holding_registers@
                        &&& r == Err::<Response, Exception>(Exception::IllegalFunction)
                    },
                }
            }),
    {
        match req {
            Request::ReadInputRegisters(addr, cnt) => {
                match Self::bulk_read_registers(&self.input_registers, addr, cnt) {
                    Ok(v) => Ok(Response::ReadInputRegisters(v)),
                    Err(e) => Err(e),
                }
            },
            Request::ReadHoldingRegisters(addr, cnt) => {
                match Self::bulk_read_registers(&self.holding_registers, addr, cnt) {
                    Ok(v) => Ok(Response::ReadHoldingRegisters(v)),
                    Err(e) => Err(e),
                }
            },
            Request::WriteSingleRegister(addr, value) => {
                let values: Vec<u16> = vec![value];
                assert(values@ =~= seq![value]);
                match register_write(&mut self.holding_registers, addr, values.as_slice()) {
                    Ok(()) => Ok(Response::WriteSingleRegister(addr, value)),
                    Err(e) => {
                        proof {
                            crate::bank::lemma_writable_len(
                                old(self).holding_registers@,
                                addr as int,
                                1,
                            );
                        }
                        Err(e)
                    },
                }
            },
            Request::WriteMultipleRegisters(addr, values) => {
                match register_write(&mut self.holding_registers, addr, values.as_slice()) {
                    Ok(()) => {
                        let count: u16 = #[verifier::truncate] (values.len() as u16);
                        Ok(Response::WriteMultipleRegisters(addr, count))
                    },
                    Err(e) => Err(e),
                }
            },
            Request::Unsupported => Err(Exception::IllegalFunction),
        }
    }
}

} // verus!
