//! The register bank: an address-indexed store of 16-bit values with
//! bounded-quantity bulk read and write.
//!
//! A bank is a `HashMap<u16, u16>`; its mathematical model is the map view
//! `Map<u16, u16>`. Addressing is strict: a read fails as a whole if any
//! referenced address is absent, and a write stops at the first absent
//! address, leaving the registers written so far mutated (no rollback).

use vstd::prelude::*;
use std::collections::HashMap;

use crate::protocol::Exception;

verus! {

broadcast use vstd::std_specs::hash::group_hash_axioms;

/// Whether mathematical address `a` denotes a register of bank `m`:
/// it fits in 16 bits and is a key of the bank.
pub open spec fn is_registered(m: Map<u16, u16>, a: int) -> bool {
    0 <= a <= u16::MAX && m.contains_key(a as u16)
}

/// Whether every address in `[start, start + count)` denotes a register of `m`.
pub open spec fn range_registered(m: Map<u16, u16>, start: int, count: int) -> bool {
    forall|i: int| 0 <= i < count ==> #[trigger] is_registered(m, start + i)
}

/// The values of `count` consecutive registers of `m` starting at `start`,
/// in address order.
pub open spec fn read_result(m: Map<u16, u16>, start: int, count: int) -> Seq<u16> {
    Seq::new(count as nat, |i: int| m[(start + i) as u16])
}

/// The number of leading addresses of `[start, start + count)` that denote
/// registers of `m`: a write of `count` values at `start` mutates exactly
/// this many registers before it either finishes or stops.
pub open spec fn writable_len(m: Map<u16, u16>, start: int, count: int) -> int
    decreases count,
{
    if count <= 0 {
        0
    } else if is_registered(m, start) {
        1 + writable_len(m, start + 1, count - 1)
    } else {
        0
    }
}

/// Whether `count` is an acceptable quantity for one bulk read:
/// between 1 and 125 registers.
pub open spec fn valid_quantity(count: u16) -> bool {
    1 <= count <= 125
}

/// How a write of `vals` at `start` relates the bank before (`old_m`) to the
/// bank after (`new_m`): the key set is unchanged, the registered prefix of
/// the range holds the new values, and every other register keeps its old
/// value.
pub open spec fn write_applied(
    old_m: Map<u16, u16>,
    new_m: Map<u16, u16>,
    start: int,
    vals: Seq<u16>,
) -> bool {
    let k = writable_len(old_m, start, vals.len() as int);
    &&& forall|a: u16| new_m.contains_key(a) <==> #[trigger] old_m.contains_key(a)
    &&& forall|i: int| 0 <= i < k ==> #[trigger] new_m[(start + i) as u16] == vals[i]
    &&& forall|a: u16|
        old_m.contains_key(a) && !(start <= a < start + k) ==> #[trigger] new_m[a] == old_m[a]
}

/// Whether a write of `vals` at `start` into bank `m` runs to completion:
/// every address of the range is registered.
pub open spec fn write_ok(m: Map<u16, u16>, start: int, vals: Seq<u16>) -> bool {
    writable_len(m, start, vals.len() as int) == vals.len()
}

/// `writable_len` is the length of the longest registered prefix: it is
/// bounded by `count`, every address before it is registered, and the
/// address at it (if any) is not.
pub proof fn lemma_writable_len(m: Map<u16, u16>, start: int, count: int)
    requires
        0 <= count,
    ensures
        0 <= writable_len(m, start, count) <= count,
        forall|i: int|
            0 <= i < writable_len(m, start, count) ==> #[trigger] is_registered(m, start + i),
        writable_len(m, start, count) < count ==> !is_registered(
            m,
            start + writable_len(m, start, count),
        ),
        range_registered(m, start, count) ==> writable_len(m, start, count) == count,
    decreases count,
{
    if count > 0 && is_registered(m, start) {
        lemma_writable_len(m, start + 1, count - 1);
        assert forall|i: int|
            0 <= i < writable_len(m, start, count) implies #[trigger] is_registered(
            m,
            start + i,
        ) by {
            if i > 0 {
                assert(is_registered(m, (start + 1) + (i - 1)));
            }
        }
        if writable_len(m, start, count) < count {
            assert(!is_registered(m, (start + 1) + writable_len(m, start + 1, count - 1)));
        }
        if range_registered(m, start, count) {
            assert forall|i: int|
                0 <= i < count - 1 implies #[trigger] is_registered(m, (start + 1) + i) by {
                assert(is_registered(m, start + (i + 1)));
            }
        }
    } else if count > 0 {
        if range_registered(m, start, count) {
            assert(is_registered(m, start + 0));
        }
    }
}

/// A one-register read at a registered address `a` succeeds and returns
/// exactly the value stored there.
pub proof fn lemma_read_single(m: Map<u16, u16>, a: u16)
    requires
        m.contains_key(a),
    ensures
        range_registered(m, a as int, 1),
        read_result(m, a as int, 1) == seq![m[a]],
{
    assert forall|i: int| 0 <= i < 1 implies #[trigger] is_registered(m, a + i) by {
        assert(a + i == a as int);
    }
    assert(read_result(m, a as int, 1) =~= seq![m[a]]);
}

/// After a write of the single value `v` at a registered address `a`, a
/// one-register read at `a` returns exactly `[v]`.
pub proof fn lemma_read_after_write(m: Map<u16, u16>, new_m: Map<u16, u16>, a: u16, v: u16)
    requires
        m.contains_key(a),
        write_applied(m, new_m, a as int, seq![v]),
    ensures
        range_registered(new_m, a as int, 1),
        read_result(new_m, a as int, 1) == seq![v],
{
    assert(is_registered(m, a as int));
    assert(writable_len(m, a as int + 1, 0) == 0);
    assert(writable_len(m, a as int, 1) == 1);
    assert(new_m[(a as int + 0) as u16] == seq![v][0]);
    assert(new_m[a] == v);
    lemma_read_single(new_m, a);
    assert(read_result(new_m, a as int, 1) =~= seq![v]);
}

/// Read `cnt` registers of `registers` starting at `addr`, in ascending
/// address order. Strict addressing: if any address in the range is not a
/// key of the bank, the whole call fails with `IllegalDataAddress` and no
/// partial data is returned.
pub fn register_read(registers: &HashMap<u16, u16>, addr: u16, cnt: u16) -> (r: Result<
    Vec<u16>,
    Exception,
>)
    ensures
        range_registered(registers@, addr as int, cnt as int) ==> (r matches Ok(v) && v@
            == read_result(registers@, addr as int, cnt as int)),
        !range_registered(registers@, addr as int, cnt as int) ==> r == Err::<Vec<u16>, Exception>(
            Exception::IllegalDataAddress,
        ),
{
    let mut response_values: Vec<u16> = Vec::new();
    let mut i: u16 = 0;
    while i < cnt
        invariant
            0 <= i <= cnt,
            range_registered(registers@, addr as int, i as int),
            response_values@ == read_result(registers@, addr as int, i as int),
        decreases cnt - i,
    {
        let reg_addr_wide: u32 = addr as u32 + i as u32;
        if reg_addr_wide > u16::MAX as u32 {
            assert(!is_registered(registers@, addr + i));
            return Err(Exception::IllegalDataAddress);
        }
        let reg_addr: u16 = reg_addr_wide as u16;
        match registers.get(&reg_addr) {
            Some(r) => {
                response_values.push(*r);
                assert(response_values@ =~= read_result(registers@, addr as int, i + 1));
            },
            None => {
                assert(!is_registered(registers@, addr + i));
                return Err(Exception::IllegalDataAddress);
            },
        }
        i = i + 1;
    }
    Ok(response_values)
}

/// Read `cnt` registers starting at `addr`, substituting zero for every
/// address that is not a key of the bank instead of failing. This
/// demo-friendly policy masks misconfiguration and is not used by the
/// dispatcher, which reads strictly; it is kept as an explicitly chosen
/// alternative, never a silent one.
pub fn register_read_with_default(registers: &HashMap<u16, u16>, addr: u16, cnt: u16) -> (r: Result<
    Vec<u16>,
    Exception,
>)
    ensures
        r matches Ok(v) && v@.len() == cnt && (forall|i: int|
            0 <= i < cnt ==> v@[i] == (if is_registered(registers@, addr + i) {
                registers@[(addr + i) as u16]
            } else {
                0u16
            })),
{
    let mut response_values: Vec<u16> = Vec::new();
    let mut i: u16 = 0;
    while i < cnt
        invariant
            0 <= i <= cnt,
            response_values@.len() == i,
            forall|j: int|
                0 <= j < i ==> response_values@[j] == (if is_registered(registers@, addr + j) {
                    registers@[(addr + j) as u16]
                } else {
                    0u16
                }),
        decreases cnt - i,
    {
        let reg_addr_wide: u32 = addr as u32 + i as u32;
        if reg_addr_wide > u16::MAX as u32 {
            response_values.push(0);
        } else {
            let reg_addr: u16 = reg_addr_wide as u16;
            match registers.get(&reg_addr) {
                Some(r) => response_values.push(*r),
                None => response_values.push(0),
            }
        }
        i = i + 1;
    }
    Ok(response_values)
}

/// Overwrite consecutive registers of the bank with `values`, starting at
/// `addr`. Used by both the write-single-register and the
/// write-multiple-registers requests.
///
/// Addresses are visited in ascending order; each existing address is
/// overwritten, and the first absent address fails the call with
/// `IllegalDataAddress` and stops it. Registers already overwritten earlier
/// in the same call remain mutated: there is no rollback, and the partial
/// mutation is part of the contract.
pub fn register_write(registers: &mut HashMap<u16, u16>, addr: u16, values: &[u16]) -> (r: Result<
    (),
    Exception,
>)
    ensures
        write_applied(old(registers)@, final(registers)@, addr as int, values@),
        (r == Ok::<(), Exception>(()) <==> write_ok(old(registers)@, addr as int, values@)),
        !write_ok(old(registers)@, addr as int, values@) ==> r == Err::<(), Exception>(
            Exception::IllegalDataAddress,
        ),
        values@.len() > 0 && !is_registered(old(registers)@, addr as int) ==> final(registers)@
            == old(registers)@,
{
    proof {
        lemma_writable_len(old(registers)@, addr as int, values@.len() as int);
    }
    let ghost k: int = writable_len(old(registers)@, addr as int, values@.len() as int);
    let mut i: usize = 0;
    while i < values.len()
        invariant
            0 <= i <= values@.len(),
            k == writable_len(old(registers)@, addr as int, values@.len() as int),
            0 <= k <= values@.len(),
            forall|j: int| 0 <= j < k ==> #[trigger] is_registered(old(registers)@, addr + j),
            k < values@.len() ==> !is_registered(old(registers)@, addr + k),
            i <= k,
            forall|a: u16|
                registers@.contains_key(a) <==> #[trigger] old(registers)@.contains_key(a),
            forall|j: int| 0 <= j < i ==> #[trigger] registers@[(addr + j) as u16] == values@[j],
            forall|a: u16|
                old(registers)@.contains_key(a) && !(addr <= a < addr + i)
                    ==> #[trigger] registers@[a] == old(registers)@[a],
        decreases values@.len() - i,
    {
        let value: u16 = values[i];
        if i > (u16::MAX - addr) as usize {
            assert(!is_registered(old(registers)@, addr + i));
            assert(i == k);
            return Err(Exception::IllegalDataAddress);
        }
        let reg_addr: u16 = addr + i as u16;
        if registers.contains_key(&reg_addr) {
            proof {
                assert(old(registers)@.contains_key(reg_addr));
                assert(is_registered(old(registers)@, addr + i));
                assert(i < k);
            }
            registers.insert(reg_addr, value);
        } else {
            assert(!is_registered(old(registers)@, addr + i));
            assert(i == k);
            proof {
                if values@.len() > 0 && !is_registered(old(registers)@, addr as int) {
                    assert(registers@ =~= old(registers)@);
                }
            }
            return Err(Exception::IllegalDataAddress);
        }
        i = i + 1;
    }
    assert(i == k);
    Ok(())
}

} // verus!
