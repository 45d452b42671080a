//! Client-side planning of a bulk read: the smallest and largest configured
//! read-register addresses determine the one contiguous span a client
//! requests instead of reading register by register. The connection itself
//! is made by the surrounding transport.

use vstd::prelude::*;

use crate::config::Register;

verus! {

/// The smallest and largest addresses of `registers`, or `None` when the
/// list is empty. A client bulk-reads the span `[min, max]` in one request.
pub fn bulk_read_span(registers: &Vec<Register>) -> (r: Option<(u16, u16)>)
    ensures
        (r is Some <==> registers@.len() > 0),
        r matches Some((lo, hi)) ==> {
            &&& forall|i: int|
                0 <= i < registers@.len() ==> lo <= #[trigger] registers@[i].address <= hi
            &&& exists|i: int| 0 <= i < registers@.len() && #[trigger] registers@[i].address == lo
            &&& exists|i: int| 0 <= i < registers@.len() && #[trigger] registers@[i].address == hi
        },
{
    if registers.len() == 0 {
        return None;
    }
    let mut lo: u16 = registers[0].address;
    let mut hi: u16 = registers[0].address;
    let mut idx: usize = 1;
    while idx < registers.len()
        invariant
            1 <= idx <= registers@.len(),
            forall|i: int| 0 <= i < idx ==> lo <= #[trigger] registers@[i].address <= hi,
            exists|i: int| 0 <= i < idx && #[trigger] registers@[i].address == lo,
            exists|i: int| 0 <= i < idx && #[trigger] registers@[i].address == hi,
        decreases registers@.len() - idx,
    {
        let a: u16 = registers[idx].address;
        if a < lo {
            lo = a;
        }
        if a > hi {
            hi = a;
        }
        idx = idx + 1;
    }
    Some((lo, hi))
}

} // verus!
