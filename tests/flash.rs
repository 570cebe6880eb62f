use std::cell::RefCell;
use std::rc::Rc;

use sfmd_rs::flash::Flash;
use sfmd_rs::serial_interface::{SerialInterface, TransportError};
use sfmd_rs::sfdp::SFDP;
use sfmd_rs::{FlashError, FlashInfo, FlashOperations};

#[derive(Debug, Clone, PartialEq)]
enum Call {
    Write(Vec<u8>, Option<Vec<u8>>),
    Query(Vec<u8>, usize),
    Delay(u32),
}

#[derive(Default)]
struct Bus {
    jedec: [u8; 3],
    calls: Vec<Call>,
    latch: bool,
    stuck_busy: bool,
    fail_transfers: bool,
    enables_left: Option<usize>,
    extra_status: u8,
    busy_polls: usize,
}

#[derive(Clone)]
struct SimBus(Rc<RefCell<Bus>>);

impl SimBus {
    fn new(jedec: [u8; 3]) -> SimBus {
        SimBus(Rc::new(RefCell::new(Bus { jedec, ..Bus::default() })))
    }

    fn calls(&self) -> Vec<Call> {
        self.0.borrow().calls.clone()
    }

    fn writes(&self) -> Vec<(Vec<u8>, Option<Vec<u8>>)> {
        self.calls()
            .into_iter()
            .filter_map(|c| match c {
                Call::Write(cmd, data) => Some((cmd, data)),
                _ => None,
            })
            .collect()
    }

    fn clear(&self) {
        self.0.borrow_mut().calls.clear();
    }
}

impl SerialInterface for SimBus {
    fn write(&mut self, cmd: &[u8], data: Option<&[u8]>) -> Result<(), TransportError> {
        let mut bus = self.0.borrow_mut();
        bus.calls.push(Call::Write(cmd.to_vec(), data.map(|d| d.to_vec())));
        if bus.fail_transfers {
            return Err(TransportError);
        }
        match cmd.first() {
            Some(0x06) => {
                let allowed = match bus.enables_left {
                    Some(0) => false,
                    Some(n) => {
                        bus.enables_left = Some(n - 1);
                        true
                    }
                    None => true,
                };
                bus.latch = allowed;
            }
            Some(0x04) => bus.latch = false,
            _ => {}
        }
        Ok(())
    }

    fn write_and_read(&mut self, cmd: &[u8], rev: &mut [u8]) -> Result<(), TransportError> {
        let mut bus = self.0.borrow_mut();
        bus.calls.push(Call::Query(cmd.to_vec(), rev.len()));
        if bus.fail_transfers {
            return Err(TransportError);
        }
        match cmd[0] {
            0x9F => rev.copy_from_slice(&bus.jedec),
            0x05 => {
                let mut s = bus.extra_status;
                if bus.stuck_busy {
                    s |= 0x01;
                }
                if bus.busy_polls > 0 {
                    bus.busy_polls -= 1;
                    s |= 0x01;
                }
                if bus.latch {
                    s |= 0x02;
                }
                rev[0] = s;
            }
            0x03 => {
                for (i, b) in rev.iter_mut().enumerate() {
                    *b = (i as u8).wrapping_add(cmd[cmd.len() - 1]);
                }
            }
            _ => {}
        }
        Ok(())
    }

    fn delay(&mut self, ms: u32) {
        self.0.borrow_mut().calls.push(Call::Delay(ms));
    }
}

const ID: [u8; 3] = [0xEF, 0x40, 0x17];
const MIB16: usize = 16 * 1024 * 1024;

fn info(capacity: usize) -> FlashInfo {
    FlashInfo::new(ID[0], ID[1], ID[2], capacity, 4096)
}

fn ready_flash(capacity: usize) -> (Flash<SimBus>, SimBus) {
    let bus = SimBus::new(ID);
    let flash = match Flash::new(bus.clone(), info(capacity)) {
        Ok(f) => f,
        Err((e, _)) => panic!("construction failed: {:?}", e),
    };
    bus.clear();
    (flash, bus)
}

fn is_guarded(writes: &[(Vec<u8>, Option<Vec<u8>>)], op: u8) -> bool {
    writes.len() == 3 && writes[0].0 == vec![0x06] && writes[1].0[0] == op && writes[2].0 == vec![0x04]
}

#[test]
fn construction_reads_id_and_clears_status() {
    let bus = SimBus::new(ID);
    let flash = Flash::new(bus.clone(), info(MIB16));
    assert!(flash.is_ok());
    let calls = bus.calls();
    assert_eq!(calls[0], Call::Query(vec![0x9F], 3));
    let writes = bus.writes();
    assert_eq!(writes.len(), 3);
    assert_eq!(writes[0].0, vec![0x06]);
    assert_eq!(writes[1].0, vec![0x01, 0x00]);
    assert_eq!(writes[2].0, vec![0x04]);
    assert!(!writes.iter().any(|w| w.0 == vec![0xB7]));
}

#[test]
fn identity_mismatch_in_each_byte() {
    for pos in 0..3 {
        let mut id = ID;
        id[pos] ^= 0x01;
        let bus = SimBus::new(id);
        let r = Flash::new(bus.clone(), info(MIB16));
        match r {
            Err((FlashError::IdentityMismatch, back)) => {
                assert_eq!(back.calls(), vec![Call::Query(vec![0x9F], 3)]);
            }
            _ => panic!("expected an identity mismatch"),
        }
    }
}

#[test]
fn construction_transport_failure() {
    let bus = SimBus::new(ID);
    bus.0.borrow_mut().fail_transfers = true;
    let r = Flash::new(bus.clone(), info(MIB16));
    assert!(matches!(r, Err((FlashError::Transport, _))));
    assert_eq!(bus.calls(), vec![Call::Query(vec![0x9F], 3)]);
}

#[test]
fn large_chip_switches_to_four_byte_addresses() {
    let bus = SimBus::new(ID);
    let mut flash = match Flash::new(bus.clone(), info(2 * MIB16)) {
        Ok(f) => f,
        Err((e, _)) => panic!("construction failed: {:?}", e),
    };
    let writes = bus.writes();
    assert_eq!(writes.len(), 6);
    assert_eq!(writes[4].0, vec![0xB7]);
    bus.clear();
    let mut buf = [0u8; 4];
    assert_eq!(flash.read_data(0x0112_3456, &mut buf), Ok(()));
    let calls = bus.calls();
    assert_eq!(calls.last(), Some(&Call::Query(vec![0x03, 0x01, 0x12, 0x34, 0x56], 4)));
}

#[test]
fn mode_switch_failure_is_configuration_failure() {
    let bus = SimBus::new(ID);
    bus.0.borrow_mut().enables_left = Some(1);
    let r = Flash::new(bus.clone(), info(2 * MIB16));
    assert!(matches!(r, Err((FlashError::ConfigurationFailed, _))));
}

#[test]
fn three_byte_address_encoding() {
    let (mut flash, bus) = ready_flash(MIB16);
    let mut buf = [0u8; 2];
    assert_eq!(flash.read_data(0x12_3456, &mut buf), Ok(()));
    assert_eq!(bus.calls().last(), Some(&Call::Query(vec![0x03, 0x12, 0x34, 0x56], 2)));
    assert_eq!(buf, [0x56, 0x57]);
}

#[test]
fn misaligned_erase_makes_no_transfer() {
    let (mut flash, bus) = ready_flash(MIB16);
    assert_eq!(flash.erase(0, 100), Err(FlashError::AlignmentViolation));
    assert_eq!(flash.erase(0, 4097), Err(FlashError::AlignmentViolation));
    assert_eq!(flash.erase(100, 4096), Err(FlashError::AlignmentViolation));
    assert_eq!(flash.erase(4096, 0), Err(FlashError::AlignmentViolation));
    assert!(bus.calls().is_empty());
}

#[test]
fn erase_past_end_is_out_of_bounds() {
    let (mut flash, bus) = ready_flash(MIB16);
    assert_eq!(flash.erase((MIB16 - 4096) as u32, 8192), Err(FlashError::OutOfBounds));
    assert!(bus.calls().is_empty());
}

#[test]
fn whole_device_erase_is_one_chip_erase() {
    let (mut flash, bus) = ready_flash(MIB16);
    assert_eq!(flash.erase(0, MIB16), Ok(()));
    let writes = bus.writes();
    assert!(is_guarded(&writes, 0xC7));
    assert_eq!(writes[1].0, vec![0xC7]);
    assert_eq!(writes.iter().filter(|w| matches!(w.0[0], 0xD8 | 0x52 | 0x20)).count(), 0);
}

#[test]
fn erase_chip_directly() {
    let (mut flash, bus) = ready_flash(MIB16);
    assert_eq!(flash.erase_chip(), Ok(()));
    assert!(is_guarded(&bus.writes(), 0xC7));
}

#[test]
fn erase_one_sector() {
    let (mut flash, bus) = ready_flash(MIB16);
    assert_eq!(flash.erase(4096, 4096), Ok(()));
    let writes = bus.writes();
    assert!(is_guarded(&writes, 0x20));
    assert_eq!(writes[1].0, vec![0x20, 0x00, 0x10, 0x00]);
}

#[test]
fn erase_picks_block_sizes() {
    let (mut flash, bus) = ready_flash(MIB16);
    assert_eq!(flash.erase(0x8000, 0x1_8000), Ok(()));
    let erases: Vec<Vec<u8>> = bus
        .writes()
        .into_iter()
        .map(|w| w.0)
        .filter(|c| c[0] != 0x06 && c[0] != 0x04)
        .collect();
    assert_eq!(erases, vec![vec![0x52, 0x00, 0x80, 0x00], vec![0xD8, 0x01, 0x00, 0x00]]);
    let writes = bus.writes();
    assert_eq!(writes.len(), 6);
    assert!(is_guarded(&writes[0..3], 0x52));
    assert!(is_guarded(&writes[3..6], 0xD8));
}

#[test]
fn write_600_bytes_in_three_guarded_pages() {
    let (mut flash, bus) = ready_flash(MIB16);
    let data = [0xABu8; 600];
    assert_eq!(flash.write_data(0, &data), Ok(()));
    let writes = bus.writes();
    assert_eq!(writes.len(), 9);
    let lens: Vec<usize> = writes
        .iter()
        .filter(|w| w.0[0] == 0x02)
        .map(|w| w.1.as_ref().map(|d| d.len()).unwrap_or(0))
        .collect();
    assert_eq!(lens, vec![256, 256, 88]);
    for k in 0..3 {
        assert!(is_guarded(&writes[3 * k..3 * k + 3], 0x02));
    }
    assert_eq!(writes[1].0, vec![0x02, 0x00, 0x00, 0x00]);
    assert_eq!(writes[4].0, vec![0x02, 0x00, 0x01, 0x00]);
    assert_eq!(writes[7].0, vec![0x02, 0x00, 0x02, 0x00]);
}

#[test]
fn write_from_mid_page_stops_at_page_boundary() {
    let (mut flash, bus) = ready_flash(MIB16);
    let data: Vec<u8> = (0..300).map(|i| i as u8).collect();
    assert_eq!(flash.write_data(100, &data), Ok(()));
    let programs: Vec<(Vec<u8>, Option<Vec<u8>>)> =
        bus.writes().into_iter().filter(|w| w.0[0] == 0x02).collect();
    assert_eq!(programs.len(), 2);
    assert_eq!(programs[0].0, vec![0x02, 0x00, 0x00, 100]);
    assert_eq!(programs[0].1.as_ref().unwrap().as_slice(), &data[..156]);
    assert_eq!(programs[1].0, vec![0x02, 0x00, 0x01, 0x00]);
    assert_eq!(programs[1].1.as_ref().unwrap().as_slice(), &data[156..]);
}

#[test]
fn empty_write_makes_no_transfer() {
    let (mut flash, bus) = ready_flash(MIB16);
    assert_eq!(flash.write_data(0, &[]), Ok(()));
    assert!(bus.calls().is_empty());
}

#[test]
fn write_past_end_is_out_of_bounds() {
    let (mut flash, bus) = ready_flash(MIB16);
    assert_eq!(flash.write_data((MIB16 - 4) as u32, &[1, 2, 3, 4, 5]), Err(FlashError::OutOfBounds));
    assert!(bus.calls().is_empty());
}

#[test]
fn read_at_end_of_device() {
    let (mut flash, bus) = ready_flash(MIB16);
    let mut ten = [0u8; 10];
    assert_eq!(flash.read_data((MIB16 - 10) as u32, &mut ten), Ok(()));
    assert!(!bus.calls().is_empty());
    bus.clear();
    let mut eleven = [0u8; 11];
    assert_eq!(flash.read_data((MIB16 - 10) as u32, &mut eleven), Err(FlashError::OutOfBounds));
    assert!(bus.calls().is_empty());
    assert_eq!(eleven, [0u8; 11]);
}

#[test]
fn stuck_busy_erase_times_out() {
    let (mut flash, bus) = ready_flash(MIB16);
    bus.0.borrow_mut().stuck_busy = true;
    let r = flash.erase(4096, 4096);
    match r {
        Err(FlashError::Timeout(s)) => assert_eq!(s & 0x01, 0x01),
        other => panic!("expected a timeout, got {:?}", other),
    }
    let calls = bus.calls();
    let polls = calls.iter().filter(|c| **c == Call::Query(vec![0x05], 1)).count();
    let pauses = calls.iter().filter(|c| **c == Call::Delay(10)).count();
    assert_eq!(polls, 100);
    assert_eq!(pauses, 100);
    assert!(!bus.writes().iter().any(|w| w.0[0] == 0x20));
}

#[test]
fn read_busy_device_times_out() {
    let (mut flash, bus) = ready_flash(MIB16);
    bus.0.borrow_mut().stuck_busy = true;
    let mut buf = [0u8; 4];
    assert_eq!(flash.read_data(0, &mut buf), Err(FlashError::Timeout(0x01)));
    assert_eq!(bus.calls().len(), 100);
}

#[test]
fn latch_refused_is_write_enable_failure() {
    let (mut flash, bus) = ready_flash(MIB16);
    bus.0.borrow_mut().enables_left = Some(0);
    assert_eq!(flash.write_state(false, 0x1C), Err(FlashError::WriteEnableFailed));
    let writes = bus.writes();
    assert_eq!(writes.len(), 2);
    assert_eq!(writes[0].0, vec![0x06]);
    assert_eq!(writes[1].0, vec![0x04]);
}

#[test]
fn transport_failure_during_write() {
    let (mut flash, bus) = ready_flash(MIB16);
    bus.0.borrow_mut().fail_transfers = true;
    assert_eq!(flash.write_data(0, &[1, 2, 3]), Err(FlashError::Transport));
    assert_eq!(flash.read_status(), Err(FlashError::Transport));
}

#[test]
fn status_read_and_write() {
    let (mut flash, bus) = ready_flash(MIB16);
    bus.0.borrow_mut().extra_status = 0x1C;
    assert_eq!(flash.read_status(), Ok(0x1C));
    assert_eq!(bus.calls(), vec![Call::Query(vec![0x05], 1)]);
    bus.clear();
    assert_eq!(flash.write_state(true, 0x00), Ok(()));
    let writes = bus.writes();
    assert!(is_guarded(&writes, 0x01));
    assert_eq!(writes[1].0, vec![0x01, 0x00]);
}

#[test]
fn getters_return_the_parts() {
    let (flash, _bus) = ready_flash(MIB16);
    assert_eq!(flash.flash_info().capacity(), MIB16);
    assert_eq!(flash.flash_info().sector_size(), 4096);
    assert!(flash.interface().calls().is_empty());
}

#[test]
fn flash_info_matches_id() {
    let i = info(MIB16);
    assert!(i.matches_id(&ID));
    assert!(!i.matches_id(&[0xEF, 0x40, 0x18]));
    assert!(!i.matches_id(&[0xEF, 0x40]));
}

#[test]
fn sfdp_reader_builds() {
    let _reader = SFDP::new(SimBus::new(ID));
}

#[test]
fn busy_then_ready_read() {
    let (mut flash, bus) = ready_flash(MIB16);
    bus.0.borrow_mut().busy_polls = 3;
    let mut buf = [0u8; 1];
    assert_eq!(flash.read_data(0x20, &mut buf), Ok(()));
    let calls = bus.calls();
    assert_eq!(calls.len(), 8);
    assert_eq!(calls.iter().filter(|c| **c == Call::Delay(10)).count(), 3);
    assert_eq!(calls[7], Call::Query(vec![0x03, 0x00, 0x00, 0x20], 1));
    assert_eq!(buf, [0x20]);
}

#[test]
fn empty_write_past_end_is_accepted() {
    let (mut flash, bus) = ready_flash(MIB16);
    assert_eq!(flash.write_data(0xFFFF_FFFF, &[]), Ok(()));
    assert!(bus.calls().is_empty());
}

#[test]
fn busy_read_leaves_buffer_alone() {
    let (mut flash, bus) = ready_flash(MIB16);
    bus.0.borrow_mut().stuck_busy = true;
    let mut buf = [0x77u8; 3];
    assert_eq!(flash.read_data(0x100, &mut buf), Err(FlashError::Timeout(0x01)));
    assert_eq!(buf, [0x77u8; 3]);
}
