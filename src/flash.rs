//! The protocol engine: sequencing of write-enable, commands, busy-polling
//! and address encoding over a transport.
use vstd::prelude::*;
use vstd::slice::slice_subrange;
use crate::define::{
    CMD_ENTER_4BYTE_MODE, CMD_ERASE_BLOCK_32K, CMD_ERASE_BLOCK_64K, CMD_ERASE_CHIP,
    CMD_ERASE_SECTOR, CMD_JEDEC_ID, CMD_PAGE_PROGRAM, CMD_READ_DATA, CMD_READ_STATUS1,
    CMD_WRITE_DISABLE, CMD_WRITE_ENABLE, CMD_WRITE_STATUS, PAGE_SIZE, POLL_DELAY_MS, POLL_LIMIT,
    STATUS_BUSY, STATUS_WEL, THREE_BYTE_LIMIT,
};
use crate::serial_interface::SerialInterface;
use crate::trace::Exchange;
use crate::{FlashError, FlashInfo, FlashOperations};

verus! {

/// A flash chip behind transport `I`, identified and configured.
pub struct Flash<I> where I: SerialInterface {
    flash_info: FlashInfo,
    interface: I,
    enable_address_4_byte: bool,
}

/// The next piece of an erase region, as `crate::trace::erase_step` says.
fn erase_step(address: u32, remaining: usize, sector: u32) -> (r: (u8, usize))
    requires
        sector > 0,
    ensures
        (r.0, r.1 as int) == crate::trace::erase_step(address as int, remaining as int, sector as int),
{
    if address % 0x10000 == 0 && remaining >= 0x10000 && 0x10000u32 % sector == 0 {
        (CMD_ERASE_BLOCK_64K, 0x10000)
    } else if address % 0x8000 == 0 && remaining >= 0x8000 && 0x8000u32 % sector == 0 {
        (CMD_ERASE_BLOCK_32K, 0x8000)
    } else {
        (CMD_ERASE_SECTOR, sector as usize)
    }
}

impl<I> Flash<I> where I: SerialInterface {
    /// Every transfer the transport has carried, oldest first.
    pub closed spec fn log(&self) -> Seq<Exchange> {
        self.interface.exchanges()
    }

    pub closed spec fn info(&self) -> FlashInfo {
        self.flash_info
    }

    pub closed spec fn transport(&self) -> I {
        self.interface
    }

    pub closed spec fn four_byte(&self) -> bool {
        self.enable_address_4_byte
    }

    /// The descriptor fits the address space and the addressing mode is the
    /// one its capacity calls for.
    pub open spec fn well_formed(&self) -> bool {
        &&& self.info().valid()
        &&& self.four_byte() == self.info().wide()
    }

    /// Same descriptor and addressing mode.
    pub open spec fn same_setup(&self, other: &Self) -> bool {
        &&& self.info() == other.info()
        &&& self.four_byte() == other.four_byte()
    }

    /// Reads the chip's JEDEC ID, verifies it against `flash_info`, clears
    /// the status register and, for a chip above 16 MiB, switches to 4-byte
    /// addresses. Fails without yielding a device if any step fails, and then
    /// hands the transport back with the error.
    pub fn new(interface: I, flash_info: FlashInfo) -> (r: Result<Self, (FlashError, I)>)
        requires
            flash_info.valid(),
        ensures
            match r {
                Ok(flash) => {
                    &&& flash.well_formed()
                    &&& flash.info() == flash_info
                    &&& crate::trace::ran(interface.exchanges(), flash.log(),
                        crate::trace::init_run(flash.log(), interface.exchanges().len() as int, flash_info),
                        Ok::<(), FlashError>(()))
                },
                Err((e, back)) => crate::trace::ran(interface.exchanges(), back.exchanges(),
                    crate::trace::init_run(back.exchanges(), interface.exchanges().len() as int, flash_info),
                    Err::<(), FlashError>(e)),
            },
    {
        let ghost h0 = interface.exchanges();
        let ghost at = h0.len() as int;
        let capacity = flash_info.capacity();
        let mut flash = Flash { flash_info, interface, enable_address_4_byte: capacity > THREE_BYTE_LIMIT };
        let mut jedec_id = [0u8; 3];
        let read = flash.read_jedec_id(&mut jedec_id);
        let ghost h1 = flash.interface.exchanges();
        if read.is_err() {
            return Err((FlashError::Transport, flash.interface));
        }
        if !flash.flash_info.matches_id(&jedec_id) {
            return Err((FlashError::IdentityMismatch, flash.interface));
        }
        let cleared = flash.write_state(true, 0x00);
        let ghost h2 = flash.interface.exchanges();
        proof {
            assert(h2[at] == h1[at]);
            crate::trace::lemma_extends_trans(h0, h1, h2);
        }
        if let Err(e) = cleared {
            return Err((e, flash.interface));
        }
        if !flash.enable_address_4_byte {
            return Ok(flash);
        }
        let switched = flash.set_4byte_address_mode();
        proof {
            let h3 = flash.interface.exchanges();
            assert(h3[at] == h1[at]);
            crate::trace::lemma_extends_trans(h0, h2, h3);
            crate::trace::lemma_guarded_stable(h2, h3, at + 1, seq![CMD_WRITE_STATUS, 0u8], seq![]);
            assert(crate::trace::init_run(h3, at, flash_info) == Some((h3.len() as int, crate::trace::as_configuration(switched))));
        }
        match switched {
            Ok(()) => Ok(flash),
            Err(FlashError::Transport) => Err((FlashError::Transport, flash.interface)),
            Err(_) => Err((FlashError::ConfigurationFailed, flash.interface)),
        }
    }

    /// The transport the device talks through.
    pub fn interface(&self) -> (r: &I)
        ensures
            *r == self.transport(),
    {
        &self.interface
    }

    /// The descriptor of the chip.
    pub fn flash_info(&self) -> (r: &FlashInfo)
        ensures
            *r == self.info(),
    {
        &self.flash_info
    }

    fn read_jedec_id(&mut self, buff: &mut [u8]) -> (r: Result<(), FlashError>)
        ensures
            final(self).same_setup(old(self)),
            final(buff)@.len() == old(buff)@.len(),
            final(self).log() == old(self).log().push(Exchange::Query {
                request: seq![CMD_JEDEC_ID],
                reply: final(buff)@,
                answered: r is Ok,
            }),
    {
        let cmd = [CMD_JEDEC_ID];
        let res = self.interface.write_and_read(&cmd, buff);
        proof {
            assert(cmd@ =~= seq![CMD_JEDEC_ID]);
        }
        match res {
            Ok(()) => Ok(()),
            Err(_) => Err(FlashError::Transport),
        }
    }

    /// Switches the chip to 4-byte addresses under the write-enable protocol.
    fn set_4byte_address_mode(&mut self) -> (r: Result<(), FlashError>)
        ensures
            final(self).same_setup(old(self)),
            crate::trace::ran(old(self).log(), final(self).log(),
                crate::trace::guarded_run(final(self).log(), old(self).log().len() as int,
                    seq![CMD_ENTER_4BYTE_MODE], seq![]), r),
    {
        let cmd = [CMD_ENTER_4BYTE_MODE];
        proof {
            assert(cmd@ =~= seq![CMD_ENTER_4BYTE_MODE]);
        }
        self.write_operation(&cmd, None)
    }

    fn read_status_register(&mut self) -> (r: Result<u8, FlashError>)
        ensures
            final(self).same_setup(old(self)),
            crate::trace::ran(old(self).log(), final(self).log(),
                crate::trace::status_run(final(self).log(), old(self).log().len() as int), r),
    {
        let mut buff = [0u8; 1];
        let cmd = [CMD_READ_STATUS1];
        let res = self.interface.write_and_read(&cmd, &mut buff);
        proof {
            assert(cmd@ =~= seq![CMD_READ_STATUS1]);
        }
        match res {
            Ok(()) => Ok(buff[0]),
            Err(_) => Err(FlashError::Transport),
        }
    }

    fn wait_busy(&mut self) -> (r: Result<u8, FlashError>)
        ensures
            final(self).same_setup(old(self)),
            crate::trace::ran(old(self).log(), final(self).log(),
                crate::trace::wait_run(final(self).log(), old(self).log().len() as int), r),
    {
        let ghost at = self.interface.exchanges().len() as int;
        let ghost start = self.interface.exchanges();
        let mut k: u32 = 0;
        let mut last: u8 = 0;
        while k < POLL_LIMIT
            invariant
                k <= POLL_LIMIT,
                self.same_setup(old(self)),
                start == old(self).log(),
                at == start.len(),
                self.interface.exchanges().len() == at + 2 * k,
                crate::trace::extends(self.interface.exchanges(), start),
                forall|j: int| 0 <= j < k ==> #[trigger] crate::trace::busy_round(self.interface.exchanges(), at, j),
                k > 0 ==> last == crate::trace::polled_status(self.interface.exchanges()[at + 2 * k - 2]),
            decreases POLL_LIMIT - k,
        {
            let ghost before = self.interface.exchanges();
            let polled = self.read_status_register();
            proof {
                assert forall|j: int| 0 <= j < k implies #[trigger] crate::trace::busy_round(self.interface.exchanges(), at, j) by {
                    assert(crate::trace::busy_round(before, at, j));
                    assert(self.interface.exchanges()[at + 2 * j] == before[at + 2 * j]);
                    assert(self.interface.exchanges()[at + 2 * j + 1] == before[at + 2 * j + 1]);
                }
                crate::trace::lemma_wait_skip(self.interface.exchanges(), at, 0, k as int);
            }
            let status = match polled {
                Err(e) => {
                    return Err(e);
                },
                Ok(s) => s,
            };
            if status & STATUS_BUSY == 0 {
                return Ok(status);
            }
            let ghost mid = self.interface.exchanges();
            self.interface.delay(POLL_DELAY_MS);
            proof {
                assert forall|j: int| 0 <= j < k implies #[trigger] crate::trace::busy_round(self.interface.exchanges(), at, j) by {
                    assert(crate::trace::busy_round(mid, at, j));
                    assert(self.interface.exchanges()[at + 2 * j] == mid[at + 2 * j]);
                    assert(self.interface.exchanges()[at + 2 * j + 1] == mid[at + 2 * j + 1]);
                }
                assert(self.interface.exchanges()[at + 2 * k] == mid[at + 2 * k]);
                assert(crate::trace::busy_round(self.interface.exchanges(), at, k as int));
            }
            last = status;
            k = k + 1;
        }
        proof {
            crate::trace::lemma_wait_skip(self.interface.exchanges(), at, 0, POLL_LIMIT - 1);
            assert(crate::trace::busy_round(self.interface.exchanges(), at, POLL_LIMIT - 1));
        }
        Err(FlashError::Timeout(last))
    }

    fn write_enable(&mut self, enable: bool) -> (r: Result<(), FlashError>)
        ensures
            final(self).same_setup(old(self)),
            crate::trace::ran(old(self).log(), final(self).log(),
                crate::trace::latch_run(final(self).log(), old(self).log().len() as int, enable), r),
    {
        let ghost at = self.interface.exchanges().len() as int;
        let cmd = if enable { [CMD_WRITE_ENABLE] } else { [CMD_WRITE_DISABLE] };
        let res = self.interface.write(&cmd, None);
        proof {
            assert(cmd@ =~= seq![crate::trace::latch_cmd(enable)]);
        }
        if res.is_err() {
            return Err(FlashError::Transport);
        }
        let ghost mid = self.interface.exchanges();
        let waited = self.wait_busy();
        proof {
            assert(self.interface.exchanges()[at] == mid[at]);
        }
        match waited {
            Ok(status) => {
                if (status & STATUS_WEL != 0) == enable {
                    Ok(())
                } else {
                    Err(FlashError::WriteEnableFailed)
                }
            },
            Err(e) => Err(e),
        }
    }

    /// Sends a command that starts an internal chip operation, then waits
    /// for the chip to finish it.
    fn send_command(&mut self, cmd: &[u8], data: Option<&[u8]>) -> (r: Result<(), FlashError>)
        ensures
            final(self).same_setup(old(self)),
            crate::trace::ran(old(self).log(), final(self).log(),
                crate::trace::command_run(final(self).log(), old(self).log().len() as int, cmd@, crate::trace::payload_of(data)), r),
    {
        let ghost at = self.interface.exchanges().len() as int;
        let res = self.interface.write(cmd, data);
        if res.is_err() {
            return Err(FlashError::Transport);
        }
        let ghost mid = self.interface.exchanges();
        let waited = self.wait_busy();
        proof {
            assert(self.interface.exchanges()[at] == mid[at]);
        }
        match waited {
            Ok(_) => Ok(()),
            Err(e) => Err(e),
        }
    }

    /// Runs one mutating command under the write-enable protocol: the latch
    /// is set first, the command runs only if that worked, and the latch is
    /// cleared afterwards whatever happened.
    fn write_operation(&mut self, cmd: &[u8], data: Option<&[u8]>) -> (r: Result<(), FlashError>)
        ensures
            final(self).same_setup(old(self)),
            crate::trace::ran(old(self).log(), final(self).log(),
                crate::trace::guarded_run(final(self).log(), old(self).log().len() as int, cmd@, crate::trace::payload_of(data)), r),
    {
        let ghost at = self.interface.exchanges().len() as int;
        let ghost h0 = self.interface.exchanges();
        let enabled = self.write_enable(true);
        let ghost h1 = self.interface.exchanges();
        let ret = match enabled {
            Ok(()) => self.send_command(cmd, data),
            Err(e) => Err(e),
        };
        let ghost h2 = self.interface.exchanges();
        let disabled = self.write_enable(false);
        proof {
            let h3 = self.interface.exchanges();
            crate::trace::lemma_extends_trans(h1, h2, h3);
            crate::trace::lemma_extends_trans(h0, h1, h2);
            crate::trace::lemma_extends_trans(h0, h2, h3);
            crate::trace::lemma_latch_stable(h1, h3, at, true);
            if enabled is Ok {
                crate::trace::lemma_command_stable(h2, h3, h1.len() as int, cmd@, crate::trace::payload_of(data));
            }
        }
        match ret {
            Err(e) => Err(e),
            Ok(()) => disabled,
        }
    }

    pub closed spec fn spec_address_len(&self) -> usize {
        if self.four_byte() { 4 } else { 3 }
    }

    #[verifier::when_used_as_spec(spec_address_len)]
    fn address_len(&self) -> (r: usize)
        ensures
            r == self.spec_address_len(),
    {
        if self.enable_address_4_byte { 4 } else { 3 }
    }

    /// Writes the big-endian encoding of `address` to the front of `buff`.
    fn make_address_byte_array(&self, address: u32, buff: &mut [u8])
        requires
            old(buff)@.len() >= self.address_len(),
        ensures
            final(buff)@.len() == old(buff)@.len(),
            final(buff)@.subrange(0, self.address_len() as int) == crate::trace::address_bytes(address, self.four_byte()),
            forall|i: int| self.address_len() <= i < old(buff)@.len() ==> #[trigger] final(buff)@[i] == old(buff)@[i],
            self.four_byte() || address < 0x100_0000 ==>
                crate::trace::big_endian_value(final(buff)@.subrange(0, self.address_len() as int)) == address,
    {
        if self.enable_address_4_byte {
            buff[0] = (address >> 24u32) as u8;
            buff[1] = (address >> 16u32) as u8;
            buff[2] = (address >> 8u32) as u8;
            buff[3] = address as u8;
        } else {
            buff[0] = (address >> 16u32) as u8;
            buff[1] = (address >> 8u32) as u8;
            buff[2] = address as u8;
        }
        proof {
            assert(buff@.subrange(0, self.address_len() as int) =~= crate::trace::address_bytes(address, self.four_byte()));
            if self.four_byte() || address < 0x100_0000 {
                crate::trace::lemma_address_round_trip(address, self.four_byte());
            }
        }
    }

    /// `op` followed by the encoded `address`, in the first `len` bytes.
    fn address_command(&self, op: u8, address: u32) -> (r: ([u8; 5], usize))
        ensures
            r.1 <= 5,
            r.0@.subrange(0, r.1 as int) == crate::trace::address_cmd(op, address as int, self.four_byte()),
    {
        let mut addr = [0u8; 4];
        self.make_address_byte_array(address, &mut addr);
        let cmd = [op, addr[0], addr[1], addr[2], addr[3]];
        let len = self.address_len() + 1;
        proof {
            assert(cmd@.subrange(0, len as int) =~= crate::trace::address_cmd(op, address as int, self.four_byte()));
        }
        (cmd, len)
    }

    /// Programs at most one page worth of `data` at `address`.
    fn page_write(&mut self, address: u32, data: &[u8]) -> (r: Result<(), FlashError>)
        requires
            data@.len() <= PAGE_SIZE,
        ensures
            final(self).same_setup(old(self)),
            crate::trace::ran(old(self).log(), final(self).log(),
                crate::trace::guarded_run(final(self).log(), old(self).log().len() as int,
                    crate::trace::address_cmd(CMD_PAGE_PROGRAM, address as int, old(self).four_byte()), data@), r),
    {
        let (cmd, len) = self.address_command(CMD_PAGE_PROGRAM, address);
        let cmd_slice = slice_subrange(&cmd, 0, len);
        self.write_operation(cmd_slice, Some(data))
    }
}

impl<I> FlashOperations for Flash<I> where I: SerialInterface {
    open spec fn transcript(&self) -> Seq<Exchange> {
        self.log()
    }

    open spec fn geometry(&self) -> FlashInfo {
        self.info()
    }

    open spec fn ready(&self) -> bool {
        self.well_formed()
    }

    fn erase_chip(&mut self) -> (r: Result<(), FlashError>) {
        let cmd = [CMD_ERASE_CHIP];
        proof {
            assert(cmd@ =~= seq![CMD_ERASE_CHIP]);
        }
        self.write_operation(&cmd, None)
    }

    fn erase(&mut self, address: u32, size: usize) -> (r: Result<(), FlashError>) {
        let sector = self.flash_info.sector_size();
        if sector == 0 || size == 0 || size % (sector as usize) != 0 || address % sector != 0 {
            return Err(FlashError::AlignmentViolation);
        }
        let capacity = self.flash_info.capacity();
        if size > capacity || address as usize > capacity - size {
            return Err(FlashError::OutOfBounds);
        }
        if address == 0 && size == capacity {
            return self.erase_chip();
        }
        let ghost at = self.interface.exchanges().len() as int;
        let ghost four = self.four_byte();
        let mut addr: u32 = address;
        let mut remaining: usize = size;
        loop
            invariant
                self.same_setup(old(self)),
                old(self).well_formed(),
                at == old(self).log().len(),
                four == self.four_byte(),
                sector == self.flash_info.spec_sector_size(),
                sector > 0,
                size > 0,
                size as int % sector as int == 0,
                address as int % sector as int == 0,
                !(address == 0 && size == capacity),
                capacity == self.flash_info.spec_capacity(),
                remaining > 0,
                addr as int + remaining as int == address as int + size as int,
                address as int + size as int <= capacity,
                crate::trace::extends(self.interface.exchanges(), old(self).log()),
                forall|u: Seq<Exchange>| crate::trace::extends(u, self.interface.exchanges()) ==>
                    #[trigger] crate::trace::erase_blocks_run(u, at, address as int, size as int, sector as int, four)
                    == crate::trace::erase_blocks_run(u, self.interface.exchanges().len() as int, addr as int, remaining as int, sector as int, four),
            decreases remaining,
        {
            let (op, len) = erase_step(addr, remaining, sector);
            let (cmd, n) = self.address_command(op, addr);
            let ghost h0 = self.interface.exchanges();
            let res = self.write_operation(slice_subrange(&cmd, 0, n), None);
            let ghost h1 = self.interface.exchanges();
            proof {
                crate::trace::lemma_extends_trans(old(self).log(), h0, h1);
            }
            proof {
                assert(crate::trace::payload_of(None) == Seq::<u8>::empty());
                assert(crate::trace::extends(h1, h0));
            }
            if res.is_err() || remaining <= len {
                proof {
                    assert(crate::trace::erase_blocks_run(h1, at, address as int, size as int, sector as int, four)
                        == crate::trace::erase_blocks_run(h1, h0.len() as int, addr as int, remaining as int, sector as int, four));
                    assert(crate::trace::erase_blocks_run(h1, h0.len() as int, addr as int, remaining as int, sector as int, four)
                        == Some((h1.len() as int, res)));
                }
                return res;
            }
            remaining = remaining - len;
            addr = addr + len as u32;
            proof {
                assert forall|u: Seq<Exchange>| crate::trace::extends(u, h1) implies
                    #[trigger] crate::trace::erase_blocks_run(u, at, address as int, size as int, sector as int, four)
                    == crate::trace::erase_blocks_run(u, h1.len() as int, addr as int, remaining as int, sector as int, four) by {
                    crate::trace::lemma_extends_trans(h0, h1, u);
                    crate::trace::lemma_guarded_stable(h1, u, h0.len() as int,
                        crate::trace::address_cmd(op, (addr - len) as int, four), seq![]);
                }
            }
        }
    }

    fn write_data(&mut self, address: u32, data: &[u8]) -> (r: Result<(), FlashError>) {
        let capacity = self.flash_info.capacity();
        if data.len() == 0 {
            return Ok(());
        }
        if data.len() > capacity || address as usize > capacity - data.len() {
            return Err(FlashError::OutOfBounds);
        }
        let ghost at = self.interface.exchanges().len() as int;
        let ghost four = self.four_byte();
        let mut offset: usize = 0;
        loop
            invariant
                self.same_setup(old(self)),
                old(self).well_formed(),
                at == old(self).log().len(),
                four == self.four_byte(),
                capacity == self.flash_info.spec_capacity(),
                offset < data@.len(),
                address as int + data@.len() <= capacity,
                crate::trace::extends(self.interface.exchanges(), old(self).log()),
                forall|u: Seq<Exchange>| crate::trace::extends(u, self.interface.exchanges()) ==>
                    #[trigger] crate::trace::program_run(u, at, address as int, data@, 0, four)
                    == crate::trace::program_run(u, self.interface.exchanges().len() as int, address as int, data@, offset as int, four),
            decreases data@.len() - offset,
        {
            let chunk_address = address + offset as u32;
            let room = PAGE_SIZE - chunk_address % PAGE_SIZE;
            let left = data.len() - offset;
            let n = if left < room as usize { left } else { room as usize };
            let ghost h0 = self.interface.exchanges();
            let res = self.page_write(chunk_address, slice_subrange(data, offset, offset + n));
            let ghost h1 = self.interface.exchanges();
            proof {
                crate::trace::lemma_extends_trans(old(self).log(), h0, h1);
                assert(n as int == crate::trace::chunk_len(address + offset, data@.len() - offset));
            }
            if res.is_err() || offset + n >= data.len() {
                proof {
                    assert(crate::trace::extends(h1, h1));
                }
                return res;
            }
            let ghost prev = offset as int;
            offset = offset + n;
            proof {
                assert forall|u: Seq<Exchange>| crate::trace::extends(u, h1) implies
                    #[trigger] crate::trace::program_run(u, at, address as int, data@, 0, four)
                    == crate::trace::program_run(u, h1.len() as int, address as int, data@, offset as int, four) by {
                    crate::trace::lemma_extends_trans(h0, h1, u);
                    crate::trace::lemma_guarded_stable(h1, u, h0.len() as int,
                        crate::trace::address_cmd(CMD_PAGE_PROGRAM, address + prev, four),
                        data@.subrange(prev, offset as int));
                }
            }
        }
    }

    fn read_data(&mut self, address: u32, buffer: &mut [u8]) -> (r: Result<(), FlashError>) {
        let capacity = self.flash_info.capacity();
        if buffer.len() > capacity || address as usize > capacity - buffer.len() {
            return Err(FlashError::OutOfBounds);
        }
        let ghost at = self.interface.exchanges().len() as int;
        match self.wait_busy() {
            Err(e) => {
                return Err(e);
            },
            Ok(_) => {},
        }
        let ghost h1 = self.interface.exchanges();
        let (cmd, n) = self.address_command(CMD_READ_DATA, address);
        let request = slice_subrange(&cmd, 0, n);
        let res = self.interface.write_and_read(request, buffer);
        proof {
            crate::trace::lemma_wait_stable(h1, self.interface.exchanges(), at, 0);
        }
        match res {
            Ok(()) => Ok(()),
            Err(_) => Err(FlashError::Transport),
        }
    }

    fn read_status(&mut self) -> (r: Result<u8, FlashError>) {
        self.read_status_register()
    }

    fn write_state(&mut self, _is_volatile: bool, state: u8) -> (r: Result<(), FlashError>) {
        let cmd = [CMD_WRITE_STATUS, state];
        proof {
            assert(cmd@ =~= seq![CMD_WRITE_STATUS, state]);
        }
        self.write_operation(&cmd, None)
    }
}

} // verus!
