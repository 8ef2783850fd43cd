//! The UART bridge engine: the forwarding decisions of a byte-stream bridge
//! between one real serial port and one simulated UART channel.
//!
//! Bytes arriving from the real port are accumulated until a read finds the
//! port drained, and the whole accumulation is then flushed as a single write
//! to the simulated channel, coalescing bursty byte-at-a-time arrivals.
//! Bytes arriving from the simulated channel are written through unchanged.
//! The surrounding task performs the reads and writes; the engine only
//! decides, so every decision is checked here.
use vstd::prelude::*;

verus! {

/// The forwarding state of one UART bridge: the bytes read from the real
/// port and not yet flushed to the simulated channel.
pub struct UartEngine {
    /// Accumulated real-port bytes awaiting a flush.
    pub pending: Vec<u8>,
}

impl UartEngine {
    /// A fresh engine with nothing accumulated.
    pub fn new() -> (e: UartEngine)
        ensures
            e.pending@ == Seq::<u8>::empty(),
    {
        UartEngine { pending: Vec::new() }
    }

    /// Feeds the outcome of one bounded real-port read: the bytes it
    /// returned, empty when it found no data or failed.
    ///
    /// New bytes are appended to the accumulation. A drained read with a
    /// non-empty accumulation flushes: the returned bytes are to be written
    /// to the simulated channel as one message, and the accumulation is
    /// cleared. A drained read with nothing accumulated does nothing.
    pub fn on_real_read(&mut self, data: &[u8]) -> (flush: Option<Vec<u8>>)
        ensures
            data@.len() > 0 ==> {
                &&& final(self).pending@ == old(self).pending@ + data@
                &&& flush is None
            },
            data@.len() == 0 && old(self).pending@.len() > 0 ==> {
                &&& flush matches Some(f) && f@ == old(self).pending@
                &&& final(self).pending@ == Seq::<u8>::empty()
            },
            data@.len() == 0 && old(self).pending@.len() == 0 ==> {
                &&& flush is None
                &&& final(self).pending@ == old(self).pending@
            },
    {
        if data.len() > 0 {
            let mut i: usize = 0;
            while i < data.len()
                invariant
                    i <= data.len(),
                    self.pending@ == old(self).pending@ + data@.subrange(0, i as int),
                decreases data.len() - i,
            {
                self.pending.push(data[i]);
                proof {
                    assert(data@.subrange(0, i + 1) =~= data@.subrange(0, i as int).push(
                        data@[i as int],
                    ));
                }
                i += 1;
            }
            proof {
                assert(data@.subrange(0, data@.len() as int) =~= data@);
            }
            None
        } else if self.pending.len() > 0 {
            let mut flushed: Vec<u8> = Vec::new();
            core::mem::swap(&mut self.pending, &mut flushed);
            Some(flushed)
        } else {
            None
        }
    }

    /// Feeds the outcome of one bounded simulated-channel read: a non-empty
    /// chunk is to be written to the real port in full; an empty one means
    /// nothing arrived, and nothing is written.
    pub fn on_sim_read(&self, data: Vec<u8>) -> (w: Option<Vec<u8>>)
        ensures
            data@.len() > 0 ==> w == Some(data),
            data@.len() == 0 ==> w is None,
    {
        if data.len() > 0 {
            Some(data)
        } else {
            None
        }
    }
}

} // verus!
