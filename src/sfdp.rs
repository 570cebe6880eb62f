//! Reading a chip's serial flash discoverable parameters (SFDP) table.
use vstd::prelude::*;
use crate::define::CMD_READ_SFDP;
use crate::serial_interface::{SerialInterface, TransportError};
use crate::trace::Exchange;

verus! {

/// A reader of the parameter table of the chip behind transport `I`.
pub struct SFDP<I> where I: SerialInterface {
    cmd: [u8; 5],
    interface: I,
}

impl<I> SFDP<I> where I: SerialInterface {
    /// The read command as it stands: opcode, 3-byte address, dummy byte.
    pub closed spec fn command(&self) -> Seq<u8> {
        self.cmd@
    }

    /// The transport the reader was built with.
    pub closed spec fn transport(&self) -> I {
        self.interface
    }

    pub fn new(interface: I) -> (r: Self)
        ensures
            r.command() == seq![CMD_READ_SFDP, 0u8, 0u8, 0u8, 0xFFu8],
            r.transport() == interface,
    {
        let r = SFDP { cmd: [CMD_READ_SFDP, 0, 0, 0, 0xFF], interface };
        proof {
            assert(r.cmd@ =~= seq![CMD_READ_SFDP, 0u8, 0u8, 0u8, 0xFFu8]);
        }
        r
    }

    /// Reads `buffer.len()` bytes of the table from `address` over
    /// `interface`: one query of the SFDP opcode, a 3-byte address and a
    /// dummy byte.
    #[allow(dead_code)]
    fn read_sfdp_data(&mut self, interface: &mut I, address: u32, buffer: &mut [u8]) -> (r: Result<(), TransportError>)
        ensures
            final(self).command() == seq![CMD_READ_SFDP] + crate::trace::address_bytes(address, false) + seq![0xFFu8],
            final(self).transport() == old(self).transport(),
            final(buffer)@.len() == old(buffer)@.len(),
            final(interface).exchanges() == old(interface).exchanges().push(Exchange::Query {
                request: final(self).command(),
                reply: final(buffer)@,
                answered: r is Ok,
            }),
    {
        self.cmd[0] = CMD_READ_SFDP;
        self.cmd[1] = (address >> 16u32) as u8;
        self.cmd[2] = (address >> 8u32) as u8;
        self.cmd[3] = address as u8;
        self.cmd[4] = 0xFF;
        proof {
            assert(self.cmd@ =~= seq![CMD_READ_SFDP] + crate::trace::address_bytes(address, false) + seq![0xFFu8]);
        }
        interface.write_and_read(&self.cmd, buffer)
    }
}

} // verus!
