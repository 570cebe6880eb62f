//! A driver for SPI-attached NOR flash chips.
use vstd::prelude::*;
use crate::define::{ADDRESS_SPACE, CMD_ERASE_CHIP, CMD_READ_DATA, CMD_WRITE_STATUS, THREE_BYTE_LIMIT};
use crate::trace::Exchange;

pub mod define;
pub mod flash;
pub mod serial_interface;
pub mod sfdp;
pub mod trace;

verus! {

/// Why an operation of the driver failed.
#[derive(Clone, Copy, Debug, PartialEq, Eq, Structural)]
pub enum FlashError {
    /// The transport reported a failure.
    Transport,
    /// The chip's JEDEC ID differs from the descriptor.
    IdentityMismatch,
    /// The chip stayed busy through every poll; holds the last status seen.
    Timeout(u8),
    /// An erase region that is not made of whole, aligned sectors.
    AlignmentViolation,
    /// A region that reaches past the end of the device.
    OutOfBounds,
    /// The write-enable latch did not take the requested state.
    WriteEnableFailed,
    /// Switching the addressing mode failed.
    ConfigurationFailed,
}

/// Identity and geometry of one chip.
pub struct FlashInfo {
    manufacturer_id: u8,
    type_id: u8,
    capacity_id: u8,
    capacity: usize,
    sector_size: u32,
}

impl FlashInfo {
    /// The three JEDEC ID bytes: manufacturer, memory type, capacity class.
    pub closed spec fn jedec_id(&self) -> Seq<u8> {
        seq![self.manufacturer_id, self.type_id, self.capacity_id]
    }

    /// Total addressable capacity, in bytes.
    pub closed spec fn spec_capacity(&self) -> usize {
        self.capacity
    }

    /// Size of the smallest erasable unit, in bytes.
    pub closed spec fn spec_sector_size(&self) -> u32 {
        self.sector_size
    }

    /// Every byte of the device has a `u32` address.
    pub open spec fn valid(&self) -> bool {
        self.spec_capacity() as int <= ADDRESS_SPACE as int
    }

    /// The device needs 4-byte addresses.
    pub open spec fn wide(&self) -> bool {
        self.spec_capacity() > THREE_BYTE_LIMIT
    }

    pub fn new(manufacturer_id: u8, type_id: u8, capacity_id: u8, capacity: usize, secter_size: u32) -> (r: Self)
        requires
            capacity as int <= ADDRESS_SPACE as int,
        ensures
            r.jedec_id() == seq![manufacturer_id, type_id, capacity_id],
            r.spec_capacity() == capacity,
            r.spec_sector_size() == secter_size,
            r.valid(),
    {
        FlashInfo { manufacturer_id, type_id, capacity_id, capacity, sector_size: secter_size }
    }

    #[verifier::when_used_as_spec(spec_capacity)]
    pub fn capacity(&self) -> (r: usize)
        ensures
            r == self.spec_capacity(),
    {
        self.capacity
    }

    #[verifier::when_used_as_spec(spec_sector_size)]
    pub fn sector_size(&self) -> (r: u32)
        ensures
            r == self.spec_sector_size(),
    {
        self.sector_size
    }

    /// Whether `id` holds exactly this chip's JEDEC ID.
    pub fn matches_id(&self, id: &[u8]) -> (r: bool)
        ensures
            r == (id@ == self.jedec_id()),
    {
        if id.len() != 3 {
            return false;
        }
        let r = id[0] == self.manufacturer_id && id[1] == self.type_id && id[2] == self.capacity_id;
        assert(r ==> id@ =~= self.jedec_id());
        r
    }
}

/// The operations a ready flash device offers. Each one is described by the
/// exchanges it adds to the device's transcript and by what it returns for
/// the answers the transport gave in them.
pub trait FlashOperations {
    /// Every exchange so far with the transport, oldest first.
    spec fn transcript(&self) -> Seq<Exchange>;

    /// The descriptor of the chip.
    spec fn geometry(&self) -> FlashInfo;

    /// The device is set up for its descriptor.
    spec fn ready(&self) -> bool;

    /// Erases the whole chip under the write-enable protocol.
    fn erase_chip(&mut self) -> (r: Result<(), FlashError>)
        requires
            old(self).ready(),
        ensures
            final(self).ready(),
            final(self).geometry() == old(self).geometry(),
            crate::trace::ran(old(self).transcript(), final(self).transcript(),
                crate::trace::guarded_run(final(self).transcript(), old(self).transcript().len() as int,
                    seq![CMD_ERASE_CHIP], seq![]), r),
    ;

    /// Erases `size` bytes from `address`; both must be whole sectors.
    fn erase(&mut self, address: u32, size: usize) -> (r: Result<(), FlashError>)
        requires
            old(self).ready(),
        ensures
            final(self).ready(),
            final(self).geometry() == old(self).geometry(),
            crate::trace::ran(old(self).transcript(), final(self).transcript(),
                crate::trace::erase_outcome(final(self).transcript(), old(self).transcript().len() as int,
                    address, size, old(self).geometry()), r),
    ;

    /// Programs `data` from `address` on, one page chunk at a time.
    fn write_data(&mut self, address: u32, data: &[u8]) -> (r: Result<(), FlashError>)
        requires
            old(self).ready(),
        ensures
            final(self).ready(),
            final(self).geometry() == old(self).geometry(),
            crate::trace::ran(old(self).transcript(), final(self).transcript(),
                crate::trace::write_outcome(final(self).transcript(), old(self).transcript().len() as int,
                    address, data@, old(self).geometry()), r),
    ;

    /// Fills `buffer` with the bytes stored from `address` on.
    fn read_data(&mut self, address: u32, buffer: &mut [u8]) -> (r: Result<(), FlashError>)
        requires
            old(self).ready(),
        ensures
            final(self).ready(),
            final(self).geometry() == old(self).geometry(),
            final(buffer)@.len() == old(buffer)@.len(),
            crate::trace::ran(old(self).transcript(), final(self).transcript(),
                crate::trace::read_outcome(final(self).transcript(), old(self).transcript().len() as int,
                    address, old(buffer)@.len() as int, old(self).geometry()), r),
            r is Ok ==> final(buffer)@ == final(self).transcript().last()->reply,
            final(buffer)@ != old(buffer)@ ==> final(self).transcript().last() == (Exchange::Query {
                request: crate::trace::address_cmd(CMD_READ_DATA, address as int, old(self).geometry().wide()),
                reply: final(buffer)@,
                answered: r is Ok,
            }),
    ;

    /// Reads status register 1.
    fn read_status(&mut self) -> (r: Result<u8, FlashError>)
        requires
            old(self).ready(),
        ensures
            final(self).ready(),
            final(self).geometry() == old(self).geometry(),
            crate::trace::ran(old(self).transcript(), final(self).transcript(),
                crate::trace::status_run(final(self).transcript(), old(self).transcript().len() as int), r),
    ;

    /// Writes `state` to status register 1 under the write-enable protocol.
    /// The register is always written through the write-enable latch, so
    /// the value persists whatever `is_volatile` says.
    fn write_state(&mut self, is_volatile: bool, state: u8) -> (r: Result<(), FlashError>)
        requires
            old(self).ready(),
        ensures
            final(self).ready(),
            final(self).geometry() == old(self).geometry(),
            crate::trace::ran(old(self).transcript(), final(self).transcript(),
                crate::trace::guarded_run(final(self).transcript(), old(self).transcript().len() as int,
                    seq![CMD_WRITE_STATUS, state], seq![]), r),
    ;
}

} // verus!
