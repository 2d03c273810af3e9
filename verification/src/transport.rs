//! Transport layer traits.
//!
//! These traits abstract over the physical connection to the robot.
//! [`Transport`] is the blocking interface implemented by concrete drivers
//! (for example a serial port); the library only ever talks to the robot
//! through it.

use vstd::prelude::*;
use crate::protocol::types::BaudRate;

verus! {

#[verifier::external_type_specification]
#[verifier::external_body]
pub struct ExIoError(std::io::Error);

/// Synchronous (blocking) transport for communicating with the robot.
///
/// `sent` is the sequence of bytes the transport has submitted to its
/// transmit path so far and `received` the sequence of bytes its reads have
/// delivered so far; `waited` is the sequence of waits it has performed and
/// `flushes` the number of flushes.
/// The contracts below are the obligations the documentation places on
/// every implementation, stated over these histories; an implementation
/// whose behaviour is verified defines them.
/// Their default definitions (no history) only let unverified
/// implementations compile: nothing about a generic transport is derived
/// from them.
pub trait Transport: core::fmt::Debug + Send {
    /// Bytes submitted for transmission so far.
    open spec fn sent(&self) -> Seq<u8> {
        Seq::empty()
    }

    /// Bytes delivered by reads so far.
    open spec fn received(&self) -> Seq<u8> {
        Seq::empty()
    }

    /// The waits performed so far, in order.
    open spec fn waited(&self) -> Seq<core::time::Duration> {
        Seq::empty()
    }

    /// How many flushes have been performed so far.
    open spec fn flushes(&self) -> nat {
        0
    }

    /// Write all bytes to the transport.
    ///
    /// Implementations MUST submit all bytes into the transport's transmit
    /// path before returning, without requiring a subsequent
    /// [`flush`](Transport::flush) call to make progress.
    /// A following [`read`](Transport::read) call MUST be able to
    /// receive a response to the written bytes without an intervening flush.
    fn write_all(&mut self, data: &[u8]) -> (r: std::io::Result<()>)
        ensures
            r is Ok ==> final(self).sent() == old(self).sent() + data@,
            final(self).received() == old(self).received(),
            final(self).flushes() == old(self).flushes();

    /// Read available bytes into `buf`. Returns the number of bytes read.
    /// Must return at least 1 byte on success (0 indicates EOF/disconnect).
    /// The bytes read are the first `n` of `buf`; an error reads nothing.
    fn read(&mut self, buf: &mut [u8]) -> (r: std::io::Result<usize>)
        ensures
            final(self).sent() == old(self).sent(),
            final(self).flushes() == old(self).flushes(),
            final(buf)@.len() == old(buf)@.len(),
            match r {
                Ok(n) => n <= old(buf)@.len()
                    && final(self).received() == old(self).received() + final(buf)@.take(n as int),
                Err(_) => final(self).received() == old(self).received(),
            };

    /// Flush the output buffer.
    fn flush(&mut self) -> (r: std::io::Result<()>)
        ensures
            final(self).sent() == old(self).sent(),
            final(self).received() == old(self).received(),
            final(self).flushes() == old(self).flushes() + 1;

    /// Set the read timeout. `None` means blocking forever.
    fn set_read_timeout(&mut self, timeout: Option<core::time::Duration>) -> (r: std::io::Result<()>)
        ensures
            final(self).sent() == old(self).sent(),
            final(self).received() == old(self).received();

    /// Close the connection. Transports are also closed when dropped; the
    /// default does nothing and succeeds.
    fn close(&mut self) -> (r: std::io::Result<()>)
        ensures
            final(self).sent() == old(self).sent(),
            final(self).received() == old(self).received(),
        default_ensures
            r is Ok,
            final(self).waited() == old(self).waited(),
    {
        Ok(())
    }

    /// Block for `duration`, recording the wait. Used for the protocol's
    /// mode-change and baud-change waits: hardware transports sleep,
    /// simulated transports may return at once.
    fn delay(&mut self, duration: core::time::Duration)
        ensures
            final(self).sent() == old(self).sent(),
            final(self).received() == old(self).received(),
            final(self).waited() == old(self).waited().push(duration);
}

/// Extension trait for [`Transport`] implementations that support runtime baud-rate switching.
///
/// # Protocol sequence
///
/// 1. Send OI `BAUD` opcode + baud code byte.
/// 2. Wait 100 ms (the robot switches baud rate after this delay).
/// 3. Call `set_baud()` to reconfigure the host serial port.
pub trait BaudConfigurable: Transport {
    /// Reconfigure the serial connection to the given baud rate.
    fn set_baud(&mut self, rate: BaudRate) -> (r: std::io::Result<()>)
        ensures
            final(self).sent() == old(self).sent(),
            final(self).received() == old(self).received();
}

} // verus!
