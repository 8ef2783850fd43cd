//! The I2C bridge engine: the forwarding decisions of a transaction bridge
//! between one real I2C slave device and one simulated I2C master.
//!
//! The modeled protocol is register-style: a master writes a one-byte
//! command (a register pointer), optionally followed by data, and a later
//! read is implicitly addressed by the most recently written command byte.
//! The engine therefore keeps one byte of state: the last command byte seen
//! in either direction. The surrounding task performs the reads and writes;
//! the engine only decides, so every decision is checked here.
use vstd::prelude::*;

verus! {

/// A block write to the real slave device: `command` selects the register,
/// `payload` is the data written at it.
#[derive(Debug, PartialEq, Eq)]
pub struct BlockWrite {
    /// The register pointer the write is addressed by.
    pub command: u8,
    /// The data bytes.
    pub payload: Vec<u8>,
}

/// The forwarding state of one I2C bridge.
pub struct I2cEngine {
    /// The command byte most recently observed in either direction.
    pub last_command: u8,
}

impl I2cEngine {
    /// A fresh engine; before any traffic the command byte is zero.
    pub fn new() -> (e: I2cEngine)
        ensures
            e.last_command == 0,
    {
        I2cEngine { last_command: 0 }
    }

    /// Feeds one poll of the simulated master: the bytes it wrote to this
    /// bridge's simulated slave address, empty when none arrived.
    ///
    /// Data from the simulated master becomes one block write to the real
    /// device, addressed by the last known command byte: whether the first
    /// payload byte is itself a new command byte is ambiguous in the modeled
    /// protocol, so the engine deliberately always keeps the last one seen
    /// on the real side. Nothing arriving means nothing to write.
    pub fn on_sim_data(&self, data: Vec<u8>) -> (w: Option<BlockWrite>)
        ensures
            data@.len() > 0 ==> {
                &&& w matches Some(bw)
                &&& bw.command == self.last_command
                &&& bw.payload == data
            },
            data@.len() == 0 ==> w is None,
    {
        if data.len() > 0 {
            Some(BlockWrite { command: self.last_command, payload: data })
        } else {
            None
        }
    }

    /// Feeds one read cycle on the real device: the command byte it
    /// returned, and the outcome of the block read issued at that register
    /// (`None` when the block read failed).
    ///
    /// The command byte becomes the new register pointer. A successful block
    /// read of `n` bytes yields one message `[command] + payload` for the
    /// simulated master — just `[command]` when `n` is zero, acknowledging a
    /// command with no payload. A failed block read yields no message.
    pub fn on_real_read(&mut self, command: u8, block: Option<Vec<u8>>) -> (msg: Option<Vec<u8>>)
        ensures
            final(self).last_command == command,
            block matches Some(payload) ==> {
                &&& msg matches Some(m)
                &&& m@ == seq![command] + payload@
            },
            block is None ==> msg is None,
    {
        self.last_command = command;
        match block {
            Some(payload) => {
                let mut m: Vec<u8> = Vec::new();
                m.push(command);
                let mut i: usize = 0;
                while i < payload.len()
                    invariant
                        i <= payload.len(),
                        m@ == seq![command] + payload@.subrange(0, i as int),
                    decreases payload.len() - i,
                {
                    m.push(payload[i]);
                    proof {
                        assert(payload@.subrange(0, i + 1) =~= payload@.subrange(0, i as int).push(
                            payload@[i as int],
                        ));
                    }
                    i += 1;
                }
                proof {
                    assert(payload@.subrange(0, payload@.len() as int) =~= payload@);
                    assert(seq![command] + payload@.subrange(0, 0) =~= seq![command]);
                }
                Some(m)
            },
            None => None,
        }
    }
}

} // verus!
