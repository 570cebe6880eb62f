//! JEDEC / SPI-NOR command opcodes and status-register bit masks.
use vstd::prelude::*;

verus! {

// Write control.
pub const CMD_WRITE_ENABLE: u8 = 0x06;
pub const CMD_WRITE_DISABLE: u8 = 0x04;
pub const CMD_WRITE_STATUS: u8 = 0x01;
pub const CMD_PAGE_PROGRAM: u8 = 0x02;

// Reads.
pub const CMD_READ_STATUS1: u8 = 0x05;
pub const CMD_READ_STATUS2: u8 = 0x35;
pub const CMD_READ_DATA: u8 = 0x03;
pub const CMD_FAST_READ: u8 = 0x0B;
pub const CMD_FAST_READ_DUAL: u8 = 0x3B;
pub const CMD_FAST_READ_DUAL_IO: u8 = 0xBB;

// Power and mode switches.
pub const CMD_POWER_DOWN: u8 = 0xB9;
pub const CMD_HIGH_PERFORMANCE: u8 = 0xA3;
pub const CMD_MODE_RESET: u8 = 0xFF;
pub const CMD_RELEASE_POWER_DOWN: u8 = 0xAB;
pub const CMD_ENTER_4BYTE_MODE: u8 = 0xB7;
pub const CMD_EXIT_4BYTE_MODE: u8 = 0xE9;

// Identity.
pub const CMD_DEVICE_ID: u8 = 0xAB;
pub const CMD_MANUFACTURER_ID: u8 = 0x90;
pub const CMD_UNIQUE_ID: u8 = 0x4B;
pub const CMD_JEDEC_ID: u8 = 0x9F;

// Erase.
pub const CMD_ERASE_BLOCK_64K: u8 = 0xD8;
pub const CMD_ERASE_BLOCK_32K: u8 = 0x52;
pub const CMD_ERASE_SECTOR: u8 = 0x20;
pub const CMD_ERASE_CHIP: u8 = 0xC7;
pub const CMD_ERASE_SUSPEND: u8 = 0x75;
pub const CMD_ERASE_RESUME: u8 = 0x7A;

// Parameter discovery.
pub const CMD_READ_SFDP: u8 = 0x5A;

// Status register 1.
pub const STATUS_BUSY: u8 = 0x01;
pub const STATUS_WEL: u8 = 0x02;
pub const STATUS_BP0: u8 = 0x04;
pub const STATUS_BP1: u8 = 0x08;
pub const STATUS_BP2: u8 = 0x10;
pub const STATUS_TB: u8 = 0x20;
pub const STATUS_SEC: u8 = 0x40;
pub const STATUS_SRP0: u8 = 0x80;

// Status register 2.
pub const STATUS2_SRP1: u8 = 0x01;
pub const STATUS2_QE: u8 = 0x02;

/// Largest number of bytes one page-program command may carry.
pub const PAGE_SIZE: u32 = 256;
/// Number of status polls before a busy-wait gives up.
pub const POLL_LIMIT: u32 = 50;
/// Pause between two status polls, in milliseconds.
pub const POLL_DELAY_MS: u32 = 10;
/// Capacities above this many bytes need 4-byte addresses.
pub const THREE_BYTE_LIMIT: usize = 0x100_0000;
/// The addresses of the public interface are `u32`.
pub const ADDRESS_SPACE: u64 = 0x1_0000_0000;

} // verus!
