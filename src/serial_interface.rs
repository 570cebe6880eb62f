//! The transport that carries commands to the chip.
use vstd::prelude::*;
use crate::trace::Exchange;

verus! {

/// A bus-level failure reported by the transport.
#[derive(Clone, Copy, Debug, PartialEq, Eq, Structural)]
pub struct TransportError;

/// The capability a platform supplies to reach one flash chip: SPI, quad-SPI,
/// or a simulated bus. Selecting the chip for the duration of one transfer is
/// the transport's own business.
///
/// An implementation keeps, as ghost state, the record of every transfer it
/// carried and how it ended; each method appends its own transfer.
pub trait SerialInterface {
    /// Every transfer so far, oldest first. An implementation that is not
    /// itself verified keeps no such record and inherits an empty one.
    closed spec fn exchanges(&self) -> Seq<Exchange> {
        Seq::empty()
    }

    /// Sends `cmd`, followed in the same selection by `data` when given.
    fn write(&mut self, cmd: &[u8], data: Option<&[u8]>) -> (r: Result<(), TransportError>)
        ensures
            final(self).exchanges() == old(self).exchanges().push(Exchange::Send {
                cmd: cmd@,
                payload: crate::trace::payload_of(data),
                sent: r is Ok,
            }),
    ;

    /// Sends `cmd`, then captures `rev.len()` response bytes into `rev`.
    /// A slice keeps its length, whatever the implementation does.
    fn write_and_read(&mut self, cmd: &[u8], rev: &mut [u8]) -> (r: Result<(), TransportError>)
        ensures
            final(rev)@.len() == old(rev)@.len(),
            final(self).exchanges() == old(self).exchanges().push(Exchange::Query {
                request: cmd@,
                reply: final(rev)@,
                answered: r is Ok,
            }),
    ;

    /// Blocks for at least `ms` milliseconds.
    fn delay(&mut self, ms: u32)
        ensures
            final(self).exchanges() == old(self).exchanges().push(Exchange::Pause { ms }),
    ;
}

} // verus!
