//! Hardware-in-the-loop bridge core: a registry of configured bus links, the
//! forwarding engines that relay traffic between a real peripheral bus and a
//! simulated bus, and the command interpreter that activates links.
use vstd::prelude::*;

pub mod link;
pub mod registry;
pub mod command;
pub mod uart;
pub mod i2c;
pub mod supervisor;

verus! {

/// The two bus kinds a link can belong to.
#[derive(Clone, Copy, PartialEq, Eq, Structural, Debug)]
pub enum BusKind {
    Uart,
    I2c,
}

/// Compares two byte slices element by element.
pub fn bytes_eq(a: &[u8], b: &[u8]) -> (r: bool)
    ensures
        r == (a@ == b@),
{
    if a.len() != b.len() {
        return false;
    }
    let mut i: usize = 0;
    while i < a.len()
        invariant
            0 <= i <= a.len(),
            a.len() == b.len(),
            forall|k: int| 0 <= k < i ==> a@[k] == b@[k],
        decreases a.len() - i,
    {
        if a[i] != b[i] {
            return false;
        }
        i += 1;
    }
    assert(a@ =~= b@);
    true
}

} // verus!
