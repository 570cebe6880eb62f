//! The model of what passes over the transport.
//!
//! A driver records every exchange it has with its transport, together with
//! the transport's answer. Each operation is then described by a parser over
//! that record: starting at a position, it says whether the exchanges there
//! form a complete run of the operation, where that run ends, and what the
//! operation returns for the answers recorded in it. The parsers only look at
//! positions before the end they report, which the stability lemmas state.
use vstd::prelude::*;
use crate::define::{
    CMD_ERASE_BLOCK_32K, CMD_ERASE_BLOCK_64K, CMD_ERASE_CHIP, CMD_ERASE_SECTOR,
    CMD_PAGE_PROGRAM, CMD_READ_DATA, CMD_READ_STATUS1, CMD_WRITE_DISABLE, CMD_WRITE_ENABLE,
    CMD_WRITE_STATUS, CMD_JEDEC_ID, CMD_ENTER_4BYTE_MODE, PAGE_SIZE, POLL_DELAY_MS, POLL_LIMIT,
    STATUS_BUSY, STATUS_WEL,
};
use crate::{FlashError, FlashInfo};

verus! {

/// One transfer over the transport, with its outcome.
pub enum Exchange {
    /// A command, with the data that followed it in the same selection
    /// (empty when none did), and whether the transport reported success.
    Send { cmd: Seq<u8>, payload: Seq<u8>, sent: bool },
    /// A command followed by a response, with the bytes left in the response
    /// buffer and whether the transport reported success.
    Query { request: Seq<u8>, reply: Seq<u8>, answered: bool },
    /// A blocking delay.
    Pause { ms: u32 },
}

/// The data that follows a command: none is recorded as empty.
pub open spec fn payload_of(data: Option<&[u8]>) -> Seq<u8> {
    match data {
        Some(d) => d@,
        None => seq![],
    }
}

/// `after` continues `before`: nothing recorded earlier was changed.
pub open spec fn extends(after: Seq<Exchange>, before: Seq<Exchange>) -> bool {
    &&& before.len() <= after.len()
    &&& forall|i: int| 0 <= i < before.len() ==> #[trigger] after[i] == before[i]
}

/// The exchanges added from `before` to `after` form one complete run whose
/// parse is `parsed`, and the operation returned `r`.
pub open spec fn ran<R>(
    before: Seq<Exchange>,
    after: Seq<Exchange>,
    parsed: Option<(int, R)>,
    r: R,
) -> bool {
    &&& extends(after, before)
    &&& parsed == Some((after.len() as int, r))
}

/// Big-endian address bytes: four of them in 4-byte mode, else the low three.
pub open spec fn address_bytes(address: u32, four: bool) -> Seq<u8> {
    if four {
        seq![(address >> 24u32) as u8, (address >> 16u32) as u8, (address >> 8u32) as u8, address as u8]
    } else {
        seq![(address >> 16u32) as u8, (address >> 8u32) as u8, address as u8]
    }
}

/// The number that a big-endian byte sequence denotes.
pub open spec fn big_endian_value(b: Seq<u8>) -> int
    decreases b.len(),
{
    if b.len() == 0 {
        0
    } else {
        big_endian_value(b.drop_last()) * 256 + b.last() as int
    }
}

/// An opcode followed by an encoded address.
pub open spec fn address_cmd(op: u8, address: int, four: bool) -> Seq<u8> {
    seq![op] + address_bytes(address as u32, four)
}

pub open spec fn is_busy(status: u8) -> bool {
    status & STATUS_BUSY != 0
}

pub open spec fn latch_set(status: u8) -> bool {
    status & STATUS_WEL != 0
}

/// A read of status register 1 into a one-byte buffer.
pub open spec fn is_status_poll(e: Exchange) -> bool {
    &&& e is Query
    &&& e->request == seq![CMD_READ_STATUS1]
    &&& e->reply.len() == 1
}

pub open spec fn polled_status(e: Exchange) -> u8 {
    e->reply[0]
}

/// A single status read starting at `at`.
pub open spec fn status_run(t: Seq<Exchange>, at: int) -> Option<(int, Result<u8, FlashError>)> {
    if 0 <= at < t.len() && is_status_poll(t[at]) {
        if t[at]->answered {
            Some((at + 1, Ok(polled_status(t[at]))))
        } else {
            Some((at + 1, Err(FlashError::Transport)))
        }
    } else {
        None
    }
}

/// Round `k` of a busy-wait that starts at `at`: a successful poll that saw
/// the busy bit, then the pause.
pub open spec fn busy_round(t: Seq<Exchange>, at: int, k: int) -> bool {
    let i = at + 2 * k;
    &&& 0 <= i
    &&& i + 1 < t.len()
    &&& is_status_poll(t[i])
    &&& t[i]->answered
    &&& is_busy(polled_status(t[i]))
    &&& t[i + 1] == (Exchange::Pause { ms: POLL_DELAY_MS })
}

/// A busy-wait that starts at `at`, from its round `k` on.
pub open spec fn wait_from(t: Seq<Exchange>, at: int, k: int) -> Option<(int, Result<u8, FlashError>)>
    decreases POLL_LIMIT - k,
{
    let i = at + 2 * k;
    if !(0 <= at && 0 <= k < POLL_LIMIT && i < t.len() && is_status_poll(t[i])) {
        None
    } else if !t[i]->answered {
        Some((i + 1, Err(FlashError::Transport)))
    } else if !is_busy(polled_status(t[i])) {
        Some((i + 1, Ok(polled_status(t[i]))))
    } else if !(i + 1 < t.len() && t[i + 1] == (Exchange::Pause { ms: POLL_DELAY_MS })) {
        None
    } else if k + 1 == POLL_LIMIT {
        Some((i + 2, Err(FlashError::Timeout(polled_status(t[i])))))
    } else {
        wait_from(t, at, k + 1)
    }
}

/// Polling the status register until the chip is no longer busy: at most
/// `POLL_LIMIT` polls, each busy one followed by a pause. Returns the first
/// status without the busy bit.
pub open spec fn wait_run(t: Seq<Exchange>, at: int) -> Option<(int, Result<u8, FlashError>)> {
    wait_from(t, at, 0)
}

/// A command alone, with no data after it.
pub open spec fn is_bare_send(e: Exchange, cmd: Seq<u8>) -> bool {
    &&& e is Send
    &&& e->cmd == cmd
    &&& e->payload.len() == 0
}

pub open spec fn latch_cmd(enable: bool) -> u8 {
    if enable {
        CMD_WRITE_ENABLE
    } else {
        CMD_WRITE_DISABLE
    }
}

/// Setting (`enable`) or clearing the write-enable latch: the command, a
/// busy-wait, and a check that the latch bit now reads as requested.
pub open spec fn latch_run(t: Seq<Exchange>, at: int, enable: bool) -> Option<(int, Result<(), FlashError>)> {
    if !(0 <= at < t.len() && is_bare_send(t[at], seq![latch_cmd(enable)])) {
        None
    } else if !t[at]->sent {
        Some((at + 1, Err(FlashError::Transport)))
    } else {
        match wait_run(t, at + 1) {
            Some((end, Ok(status))) => Some(
                (end, if latch_set(status) == enable { Ok(()) } else { Err(FlashError::WriteEnableFailed) }),
            ),
            Some((end, Err(e))) => Some((end, Err(e))),
            None => None,
        }
    }
}

/// A command that starts an internal chip operation: the command with its
/// data, then a busy-wait.
pub open spec fn command_run(t: Seq<Exchange>, at: int, cmd: Seq<u8>, data: Seq<u8>) -> Option<(int, Result<(), FlashError>)> {
    if !(0 <= at < t.len() && t[at] is Send && t[at]->cmd == cmd && t[at]->payload == data) {
        None
    } else if !t[at]->sent {
        Some((at + 1, Err(FlashError::Transport)))
    } else {
        match wait_run(t, at + 1) {
            Some((end, Ok(_))) => Some((end, Ok(()))),
            Some((end, Err(e))) => Some((end, Err(e))),
            None => None,
        }
    }
}

/// A mutating command under the write-enable protocol: set the latch, run
/// the command only if that worked, and clear the latch in any case. The
/// first failure is returned; a failure to clear the latch counts only when
/// everything before it succeeded.
pub open spec fn guarded_run(t: Seq<Exchange>, at: int, cmd: Seq<u8>, data: Seq<u8>) -> Option<(int, Result<(), FlashError>)> {
    match latch_run(t, at, true) {
        None => None,
        Some((e1, r1)) => {
            let inner = if r1 is Ok { command_run(t, e1, cmd, data) } else { Some((e1, r1)) };
            match inner {
                None => None,
                Some((e2, r2)) => match latch_run(t, e2, false) {
                    None => None,
                    Some((e3, r3)) => Some((e3, if r2 is Err { r2 } else { r3 })),
                },
            }
        },
    }
}

/// The erase command for the next piece of a region: a 64 KiB or 32 KiB
/// block where the address is aligned to it and enough of the region remains,
/// else one sector.
pub open spec fn erase_step(address: int, remaining: int, sector: int) -> (u8, int) {
    if address % 0x10000 == 0 && remaining >= 0x10000 && 0x10000int % sector == 0 {
        (CMD_ERASE_BLOCK_64K, 0x10000)
    } else if address % 0x8000 == 0 && remaining >= 0x8000 && 0x8000int % sector == 0 {
        (CMD_ERASE_BLOCK_32K, 0x8000)
    } else {
        (CMD_ERASE_SECTOR, sector)
    }
}

/// Erasing `remaining` bytes from `address` piece by piece, each piece under
/// the write-enable protocol; the first failure ends the run.
pub open spec fn erase_blocks_run(
    t: Seq<Exchange>,
    at: int,
    address: int,
    remaining: int,
    sector: int,
    four: bool,
) -> Option<(int, Result<(), FlashError>)>
    decreases remaining,
{
    if !(remaining > 0 && sector > 0) {
        None
    } else {
        let (op, len) = erase_step(address, remaining, sector);
        match guarded_run(t, at, address_cmd(op, address, four), seq![]) {
            None => None,
            Some((end, r)) => if r is Err || remaining <= len {
                Some((end, r))
            } else {
                erase_blocks_run(t, end, address + len, remaining - len, sector, four)
            },
        }
    }
}

/// `erase(address, size)`: rejected without any exchange unless the region
/// is made of whole aligned sectors inside the device; the whole device is
/// erased by one chip-erase command, any other region piece by piece.
pub open spec fn erase_outcome(t: Seq<Exchange>, at: int, address: u32, size: usize, info: FlashInfo) -> Option<(int, Result<(), FlashError>)> {
    let sector = info.spec_sector_size() as int;
    let capacity = info.spec_capacity() as int;
    if sector == 0 || size == 0 || size as int % sector != 0 || address as int % sector != 0 {
        Some((at, Err(FlashError::AlignmentViolation)))
    } else if address + size > capacity {
        Some((at, Err(FlashError::OutOfBounds)))
    } else if address == 0 && size == capacity {
        guarded_run(t, at, seq![CMD_ERASE_CHIP], seq![])
    } else {
        erase_blocks_run(t, at, address as int, size as int, sector, info.wide())
    }
}

/// Length of the next program chunk: up to the end of the page that holds
/// `address`, and no more than what remains.
pub open spec fn chunk_len(address: int, remaining: int) -> int {
    let room = PAGE_SIZE - address % (PAGE_SIZE as int);
    if remaining < room { remaining } else { room }
}

/// Programming `data` from `offset` on, one page chunk per command, each
/// under the write-enable protocol; the first failure ends the run.
pub open spec fn program_run(
    t: Seq<Exchange>,
    at: int,
    address: int,
    data: Seq<u8>,
    offset: int,
    four: bool,
) -> Option<(int, Result<(), FlashError>)>
    decreases data.len() - offset,
{
    if !(0 <= offset < data.len() && 0 <= address) {
        None
    } else {
        let n = chunk_len(address + offset, data.len() - offset);
        match guarded_run(t, at, address_cmd(CMD_PAGE_PROGRAM, address + offset, four), data.subrange(offset, offset + n)) {
            None => None,
            Some((end, r)) => if r is Err || offset + n >= data.len() {
                Some((end, r))
            } else {
                program_run(t, end, address, data, offset + n, four)
            },
        }
    }
}

/// `write_data(address, data)`: nothing to do for no data; rejected without
/// any exchange when the data would reach past the device.
pub open spec fn write_outcome(t: Seq<Exchange>, at: int, address: u32, data: Seq<u8>, info: FlashInfo) -> Option<(int, Result<(), FlashError>)> {
    if data.len() == 0 {
        Some((at, Ok(())))
    } else if address + data.len() > info.spec_capacity() {
        Some((at, Err(FlashError::OutOfBounds)))
    } else {
        program_run(t, at, address as int, data, 0, info.wide())
    }
}

/// `read_data(address, buffer)` of `len` bytes: rejected without any
/// exchange past the device; else a busy-wait, then one read-data query that
/// fills the whole buffer.
pub open spec fn read_outcome(t: Seq<Exchange>, at: int, address: u32, len: int, info: FlashInfo) -> Option<(int, Result<(), FlashError>)> {
    if address + len > info.spec_capacity() {
        Some((at, Err(FlashError::OutOfBounds)))
    } else {
        match wait_run(t, at) {
            None => None,
            Some((end, Err(e))) => Some((end, Err(e))),
            Some((end, Ok(_))) => if 0 <= end < t.len() && t[end] is Query
                && t[end]->request == address_cmd(CMD_READ_DATA, address as int, info.wide())
                && t[end]->reply.len() == len {
                Some((end + 1, if t[end]->answered { Ok(()) } else { Err(FlashError::Transport) }))
            } else {
                None
            },
        }
    }
}

/// Failures of the addressing-mode switch, other than transport faults.
pub open spec fn as_configuration(r: Result<(), FlashError>) -> Result<(), FlashError> {
    match r {
        Err(FlashError::Transport) => Err(FlashError::Transport),
        Err(_) => Err(FlashError::ConfigurationFailed),
        Ok(()) => Ok(()),
    }
}

/// Bringing a chip up from position `at` of the record: read the JEDEC ID
/// and compare it with the descriptor, clear the status register, and switch
/// to 4-byte addresses when the capacity needs them. The first failure ends
/// the run.
pub open spec fn init_run(t: Seq<Exchange>, at: int, info: FlashInfo) -> Option<(int, Result<(), FlashError>)> {
    if !(0 <= at < t.len() && t[at] is Query && t[at]->request == seq![CMD_JEDEC_ID] && t[at]->reply.len() == 3) {
        None
    } else if !t[at]->answered {
        Some((at + 1, Err(FlashError::Transport)))
    } else if t[at]->reply != info.jedec_id() {
        Some((at + 1, Err(FlashError::IdentityMismatch)))
    } else {
        match guarded_run(t, at + 1, seq![CMD_WRITE_STATUS, 0u8], seq![]) {
            None => None,
            Some((end, Err(e))) => Some((end, Err(e))),
            Some((end, Ok(()))) => if !info.wide() {
                Some((end, Ok(())))
            } else {
                match guarded_run(t, end, seq![CMD_ENTER_4BYTE_MODE], seq![]) {
                    None => None,
                    Some((last, r)) => Some((last, as_configuration(r))),
                }
            },
        }
    }
}

/// Encoding an address and decoding its bytes most significant first gives
/// the address back: in 4-byte mode for every address, in 3-byte mode for
/// every address below 16 MiB.
pub proof fn lemma_address_round_trip(address: u32, four: bool)
    requires
        four || address < 0x100_0000,
    ensures
        big_endian_value(address_bytes(address, four)) == address,
{
    let b0 = (address >> 24u32) as u8;
    let b1 = (address >> 16u32) as u8;
    let b2 = (address >> 8u32) as u8;
    let b3 = address as u8;
    assert(address as u64 == ((b0 as u64 * 256 + b1 as u64) * 256 + b2 as u64) * 256 + b3 as u64) by (bit_vector)
        requires
            b0 == (address >> 24u32) as u8,
            b1 == (address >> 16u32) as u8,
            b2 == (address >> 8u32) as u8,
            b3 == address as u8,
    ;
    let s = address_bytes(address, four);
    if four {
        assert(s.drop_last() =~= seq![b0, b1, b2]);
        assert(s.drop_last().drop_last() =~= seq![b0, b1]);
        assert(s.drop_last().drop_last().drop_last() =~= seq![b0]);
        assert(s.drop_last().drop_last().drop_last().drop_last() =~= Seq::<u8>::empty());
        reveal_with_fuel(big_endian_value, 5);
    } else {
        assert(b0 == 0) by (bit_vector)
            requires
                b0 == (address >> 24u32) as u8,
                address < 0x100_0000,
        ;
        assert(s.drop_last() =~= seq![b1, b2]);
        assert(s.drop_last().drop_last() =~= seq![b1]);
        assert(s.drop_last().drop_last().drop_last() =~= Seq::<u8>::empty());
        reveal_with_fuel(big_endian_value, 4);
    }
}

/// Every address inside a device round-trips through the encoding in the
/// addressing mode that the device's capacity calls for.
pub proof fn lemma_device_address_round_trip(info: FlashInfo, address: u32)
    requires
        info.valid(),
        (address as int) < info.spec_capacity() as int,
    ensures
        big_endian_value(address_bytes(address, info.wide())) == address,
{
    lemma_address_round_trip(address, info.wide());
}

/// A run that ends where it started added nothing to the record.
pub proof fn lemma_no_exchange<R>(before: Seq<Exchange>, after: Seq<Exchange>, r: R)
    requires
        ran(before, after, Some((before.len() as int, r)), r),
    ensures
        after == before,
{
    assert(after =~= before);
}

/// A chip whose JEDEC ID differs from the descriptor in any of its three
/// bytes is refused with `IdentityMismatch` right after the ID read.
pub proof fn lemma_identity_mismatch(t: Seq<Exchange>, at: int, info: FlashInfo)
    requires
        0 <= at < t.len(),
        t[at] is Query,
        t[at]->request == seq![CMD_JEDEC_ID],
        t[at]->answered,
        t[at]->reply.len() == 3,
        exists|i: int| 0 <= i < 3 && #[trigger] t[at]->reply[i] != info.jedec_id()[i],
    ensures
        init_run(t, at, info) == Some((at + 1, Err::<(), FlashError>(FlashError::IdentityMismatch))),
{
}

/// An erase whose size is not a whole number of sectors, or whose address
/// is not sector-aligned, is refused with `AlignmentViolation` before any
/// exchange.
pub proof fn lemma_misaligned_erase(t: Seq<Exchange>, at: int, address: u32, size: usize, info: FlashInfo)
    requires
        info.spec_sector_size() > 0,
        size as int % info.spec_sector_size() as int != 0 || address as int % info.spec_sector_size() as int != 0,
    ensures
        erase_outcome(t, at, address, size, info) == Some((at, Err::<(), FlashError>(FlashError::AlignmentViolation))),
{
}

/// Erasing the whole device takes one chip-erase command under the
/// write-enable protocol, and no block or sector erase.
pub proof fn lemma_whole_device_erase(t: Seq<Exchange>, at: int, info: FlashInfo)
    requires
        info.spec_sector_size() > 0,
        info.spec_capacity() > 0,
        info.spec_capacity() as int % info.spec_sector_size() as int == 0,
    ensures
        erase_outcome(t, at, 0, info.spec_capacity(), info) == guarded_run(t, at, seq![CMD_ERASE_CHIP], seq![]),
{
}

/// A busy-wait that finds the chip busy at every one of its polls ends in
/// `Timeout` with the last status seen.
pub proof fn lemma_busy_throughout(t: Seq<Exchange>, at: int)
    requires
        0 <= at,
        forall|k: int| 0 <= k < POLL_LIMIT ==> #[trigger] busy_round(t, at, k),
    ensures
        wait_run(t, at) == Some((at + 2 * POLL_LIMIT, Err::<u8, FlashError>(
            FlashError::Timeout(polled_status(t[at + 2 * POLL_LIMIT - 2]))))),
{
    lemma_wait_skip(t, at, 0, POLL_LIMIT - 1);
    assert(busy_round(t, at, POLL_LIMIT - 1));
}

/// A mutating command after which the chip stays busy through every poll
/// makes the whole guarded operation fail with `Timeout`; it never reports
/// success.
pub proof fn lemma_guarded_timeout(t: Seq<Exchange>, at: int, cmd: Seq<u8>, data: Seq<u8>, e1: int)
    requires
        latch_run(t, at, true) == Some((e1, Ok::<(), FlashError>(()))),
        0 <= e1 < t.len(),
        t[e1] == (Exchange::Send { cmd, payload: data, sent: true }),
        forall|k: int| 0 <= k < POLL_LIMIT ==> #[trigger] busy_round(t, e1 + 1, k),
        guarded_run(t, at, cmd, data) is Some,
    ensures
        guarded_run(t, at, cmd, data).unwrap().1 == Err::<(), FlashError>(
            FlashError::Timeout(polled_status(t[e1 + 2 * POLL_LIMIT - 1]))),
{
    lemma_busy_throughout(t, e1 + 1);
}

/// A busy-wait fails only through the transport or by running out of polls.
pub proof fn lemma_wait_failures(t: Seq<Exchange>, at: int, k: int)
    requires
        wait_from(t, at, k) is Some,
        wait_from(t, at, k).unwrap().1 is Err,
    ensures
        wait_from(t, at, k).unwrap().1->Err_0 is Transport || wait_from(t, at, k).unwrap().1->Err_0 is Timeout,
    decreases POLL_LIMIT - k,
{
    let i = at + 2 * k;
    if t[i]->answered && is_busy(polled_status(t[i])) && k + 1 < POLL_LIMIT {
        lemma_wait_failures(t, at, k + 1);
    }
}

/// A read that stays inside the device is never refused: it fails only
/// through the transport or a busy-wait that ran out of polls.
pub proof fn lemma_read_within_device(t: Seq<Exchange>, at: int, address: u32, len: int, info: FlashInfo)
    requires
        address + len <= info.spec_capacity(),
        read_outcome(t, at, address, len, info) is Some,
        read_outcome(t, at, address, len, info).unwrap().1 is Err,
    ensures
        read_outcome(t, at, address, len, info).unwrap().1->Err_0 is Transport
            || read_outcome(t, at, address, len, info).unwrap().1->Err_0 is Timeout,
{
    if wait_run(t, at).unwrap().1 is Err {
        lemma_wait_failures(t, at, 0);
    }
}

pub proof fn lemma_extends_trans(a: Seq<Exchange>, b: Seq<Exchange>, c: Seq<Exchange>)
    requires
        extends(b, a),
        extends(c, b),
    ensures
        extends(c, a),
{
    assert forall|i: int| 0 <= i < a.len() implies #[trigger] c[i] == a[i] by {
        assert(c[i] == b[i]);
    }
}

/// Busy rounds from `j` up to `k` carry a busy-wait from round `j` to round `k`.
pub proof fn lemma_wait_skip(t: Seq<Exchange>, at: int, j: int, k: int)
    requires
        0 <= at,
        0 <= j <= k < POLL_LIMIT,
        forall|m: int| j <= m < k ==> #[trigger] busy_round(t, at, m),
    ensures
        wait_from(t, at, j) == wait_from(t, at, k),
    decreases k - j,
{
    if j < k {
        assert(busy_round(t, at, j));
        lemma_wait_skip(t, at, j + 1, k);
    }
}

/// A busy-wait parsed in a record is parsed the same in any continuation.
pub proof fn lemma_wait_stable(t: Seq<Exchange>, u: Seq<Exchange>, at: int, k: int)
    requires
        wait_from(t, at, k) is Some,
        extends(u, t),
    ensures
        wait_from(u, at, k) == wait_from(t, at, k),
    decreases POLL_LIMIT - k,
{
    let i = at + 2 * k;
    assert(u[i] == t[i]);
    if t[i]->answered && is_busy(polled_status(t[i])) {
        assert(u[i + 1] == t[i + 1]);
        if k + 1 < POLL_LIMIT {
            lemma_wait_stable(t, u, at, k + 1);
        }
    }
}

pub proof fn lemma_latch_stable(t: Seq<Exchange>, u: Seq<Exchange>, at: int, enable: bool)
    requires
        latch_run(t, at, enable) is Some,
        extends(u, t),
    ensures
        latch_run(u, at, enable) == latch_run(t, at, enable),
{
    assert(u[at] == t[at]);
    if t[at]->sent {
        lemma_wait_stable(t, u, at + 1, 0);
    }
}

pub proof fn lemma_command_stable(t: Seq<Exchange>, u: Seq<Exchange>, at: int, cmd: Seq<u8>, data: Seq<u8>)
    requires
        command_run(t, at, cmd, data) is Some,
        extends(u, t),
    ensures
        command_run(u, at, cmd, data) == command_run(t, at, cmd, data),
{
    assert(u[at] == t[at]);
    if t[at]->sent {
        lemma_wait_stable(t, u, at + 1, 0);
    }
}

pub proof fn lemma_guarded_stable(t: Seq<Exchange>, u: Seq<Exchange>, at: int, cmd: Seq<u8>, data: Seq<u8>)
    requires
        guarded_run(t, at, cmd, data) is Some,
        extends(u, t),
    ensures
        guarded_run(u, at, cmd, data) == guarded_run(t, at, cmd, data),
{
    lemma_latch_stable(t, u, at, true);
    let (e1, r1) = latch_run(t, at, true).unwrap();
    let e2 = if r1 is Ok {
        lemma_command_stable(t, u, e1, cmd, data);
        command_run(t, e1, cmd, data).unwrap().0
    } else {
        e1
    };
    lemma_latch_stable(t, u, e2, false);
}

} // verus!
