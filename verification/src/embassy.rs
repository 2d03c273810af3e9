//! Containers for embedded UART peripherals.
//!
//! [`EmbassyTransport`] wraps a combined read+write UART peripheral and
//! [`EmbassySplitTransport`] separately-owned RX and TX halves. Configure the
//! UART baud rate (57600 for Create 1, 115200 for Create 2) before handing
//! the peripheral over: these containers do not change it.

use vstd::prelude::*;

verus! {

/// Wraps a combined read+write UART peripheral.
#[derive(Debug)]
pub struct EmbassyTransport<T> {
    io: T,
}

impl<T> EmbassyTransport<T> {
    /// The wrapped peripheral.
    pub closed spec fn spec_inner(&self) -> T {
        self.io
    }

    /// Wrap a UART peripheral.
    pub fn new(io: T) -> (t: Self)
        ensures
            t.spec_inner() == io,
    {
        EmbassyTransport { io }
    }

    /// Consume the transport and return the inner peripheral.
    pub fn into_inner(self) -> (io: T)
        ensures
            io == self.spec_inner(),
    {
        self.io
    }

    /// Borrow the inner peripheral.
    pub fn inner(&self) -> (io: &T)
        ensures
            *io == self.spec_inner(),
    {
        &self.io
    }

    /// Borrow the inner peripheral mutably.
    pub fn inner_mut(&mut self) -> (io: &mut T)
        ensures
            *io == old(self).spec_inner(),
            final(self).spec_inner() == *final(io),
    {
        &mut self.io
    }
}

/// Wraps separately-owned RX and TX halves of a UART.
#[derive(Debug)]
pub struct EmbassySplitTransport<R, W> {
    rx: R,
    tx: W,
}

impl<R, W> EmbassySplitTransport<R, W> {
    /// The receiving half.
    pub closed spec fn spec_rx(&self) -> R {
        self.rx
    }

    /// The transmitting half.
    pub closed spec fn spec_tx(&self) -> W {
        self.tx
    }

    /// Wrap an RX and a TX half.
    pub fn new(rx: R, tx: W) -> (t: Self)
        ensures
            t.spec_rx() == rx,
            t.spec_tx() == tx,
    {
        EmbassySplitTransport { rx, tx }
    }

    /// Consume the transport and return `(rx, tx)`.
    pub fn into_parts(self) -> (parts: (R, W))
        ensures
            parts == (self.spec_rx(), self.spec_tx()),
    {
        (self.rx, self.tx)
    }

    /// Borrow the RX half.
    pub fn rx(&self) -> (rx: &R)
        ensures
            *rx == self.spec_rx(),
    {
        &self.rx
    }

    /// Borrow the TX half.
    pub fn tx(&self) -> (tx: &W)
        ensures
            *tx == self.spec_tx(),
    {
        &self.tx
    }

    /// Borrow the RX half mutably.
    pub fn rx_mut(&mut self) -> (rx: &mut R)
        ensures
            *rx == old(self).spec_rx(),
            final(self).spec_rx() == *final(rx),
            final(self).spec_tx() == old(self).spec_tx(),
    {
        &mut self.rx
    }

    /// Borrow the TX half mutably.
    pub fn tx_mut(&mut self) -> (tx: &mut W)
        ensures
            *tx == old(self).spec_tx(),
            final(self).spec_tx() == *final(tx),
            final(self).spec_rx() == old(self).spec_rx(),
    {
        &mut self.tx
    }
}

} // verus!
