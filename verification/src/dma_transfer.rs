//! The transfer engine: a two-state machine over the transfer device.
//!
//! While the hardware transmits one buffer, software fills the other; a
//! submission when a transfer is already running first blocks until that
//! transfer completes and reclaims its buffer. The device handle is never
//! duplicated or dropped: it is always recoverable from whichever state the
//! engine currently holds.

use crate::buffer::Buffer;
use crate::device::{TxDevice, TxTransfer};
use vstd::prelude::*;

verus! {

/// Either no transfer is in flight and the engine holds the device and a
/// spare buffer, or one transfer is in flight and the engine holds its
/// handle. A state that is idle yet holds a running handle, or that holds
/// no spare while idle, is unrepresentable.
enum DmaState {
    Idle(TxDevice, Buffer),
    Running(TxTransfer),
}

/// The transfer engine. The `Option` is `None` only transiently inside a
/// state transition; [`wf`] rules it out between calls.
///
/// [`wf`]: DmaTransfer::wf
pub struct DmaTransfer {
    state: Option<DmaState>,
}

impl DmaTransfer {
    pub closed spec fn wf(&self) -> bool {
        match self.state {
            Some(DmaState::Idle(_, spare)) => spare.wf(),
            Some(DmaState::Running(t)) => t.buffer().wf(),
            None => false,
        }
    }

    /// Whether a transfer is in flight.
    pub closed spec fn running(&self) -> bool {
        self.state matches Some(DmaState::Running(_))
    }

    /// Whether the engine is idle, holding the device and a spare buffer.
    pub closed spec fn idle(&self) -> bool {
        self.state matches Some(DmaState::Idle(_, _))
    }

    /// Every payload submitted to the hardware so far, in submission order,
    /// wherever the device currently is.
    pub closed spec fn log(&self) -> Seq<Seq<u8>> {
        match self.state {
            Some(DmaState::Idle(dev, _)) => dev.log(),
            Some(DmaState::Running(t)) => t.device().log(),
            None => Seq::<Seq<u8>>::empty(),
        }
    }

    /// The one buffer the engine holds: the spare while idle, the in-flight
    /// buffer while running. It is what the next `do_transfer` or `free`
    /// hands back.
    pub closed spec fn held_buffer(&self) -> Buffer {
        match self.state {
            Some(DmaState::Idle(_, spare)) => spare,
            Some(DmaState::Running(t)) => t.buffer(),
            None => arbitrary(),
        }
    }

    /// How many buffers are currently owned by the hardware.
    pub closed spec fn in_flight_count(&self) -> nat {
        match self.state {
            Some(DmaState::Running(_)) => 1nat,
            _ => 0nat,
        }
    }

    /// How many buffers the engine holds ready to hand back without waiting.
    pub closed spec fn reclaimable_count(&self) -> nat {
        match self.state {
            Some(DmaState::Idle(_, _)) => 1nat,
            _ => 0nat,
        }
    }

    /// A fresh, idle engine holding the device and `buffer` as its spare.
    pub fn new(spi: TxDevice, buffer: Buffer) -> (r: DmaTransfer)
        requires
            buffer.wf(),
        ensures
            r.wf(),
            r.idle(),
            r.log() == spi.log(),
            r.held_buffer() == buffer,
    {
        DmaTransfer { state: Some(DmaState::Idle(spi, buffer)) }
    }

    /// Submits a filled buffer. If the engine is idle, the write starts
    /// immediately and the spare held since construction comes back without
    /// blocking; if a transfer is running, the call first blocks until it
    /// completes and reclaims its buffer. Either way the engine is running
    /// afterwards and the submitted content is appended to the log.
    pub fn do_transfer(&mut self, buffer: Buffer) -> (r: Buffer)
        requires
            old(self).wf(),
            buffer.wf(),
        ensures
            final(self).wf(),
            final(self).running(),
            final(self).log() == old(self).log().push(buffer.content()),
            final(self).held_buffer() == buffer,
            r == old(self).held_buffer(),
            r.wf(),
    {
        let state = self.state.take().unwrap();
        let (spi, reclaimed) = match state {
            DmaState::Idle(spi_dma, second_buffer) => (spi_dma, second_buffer),
            DmaState::Running(transfer) => transfer.wait(),
        };
        self.state = Some(DmaState::Running(spi.begin_write(buffer)));
        reclaimed
    }

    /// Submits one scanline; the engine overlaps its transmission with the
    /// caller's next fill.
    pub fn send_scanline(&mut self, line: Buffer) -> (r: Buffer)
        requires
            old(self).wf(),
            line.wf(),
        ensures
            final(self).wf(),
            final(self).running(),
            final(self).log() == old(self).log().push(line.content()),
            final(self).held_buffer() == line,
            r == old(self).held_buffer(),
            r.wf(),
    {
        self.do_transfer(line)
    }

    /// Blocks until any in-flight transfer completes and returns the device
    /// and the buffer the engine held, leaving nothing behind. Used only at
    /// teardown or reconfiguration.
    pub fn free(self) -> (r: (TxDevice, Buffer))
        requires
            self.wf(),
        ensures
            r.0.log() == self.log(),
            r.1 == self.held_buffer(),
            r.1.wf(),
    {
        let state = self.state.unwrap();
        match state {
            DmaState::Idle(spi_dma, second_buffer) => (spi_dma, second_buffer),
            DmaState::Running(transfer) => transfer.wait(),
        }
    }

    /// Whether a transfer is in flight.
    pub fn is_running(&self) -> (r: bool)
        requires
            self.wf(),
        ensures
            r == self.running(),
    {
        match &self.state {
            Some(DmaState::Running(_)) => true,
            _ => false,
        }
    }

    /// Whether the engine is idle.
    pub fn is_idle(&self) -> (r: bool)
        requires
            self.wf(),
        ensures
            r == self.idle(),
    {
        match &self.state {
            Some(DmaState::Idle(_, _)) => true,
            _ => false,
        }
    }
}

/// At every instant at most one buffer is owned by the hardware, and the
/// engine holds exactly one buffer in total — in flight or reclaimable,
/// never both. The second buffer of the pair is with the producer, which
/// alone may write it: ownership of a `Buffer` value is exclusive, so no
/// buffer is ever held by the producer and the hardware at once.
pub proof fn lemma_single_buffer_in_flight(t: DmaTransfer)
    requires
        t.wf(),
    ensures
        t.in_flight_count() <= 1,
        t.in_flight_count() + t.reclaimable_count() == 1,
        t.idle() <==> t.in_flight_count() == 0,
{
}

/// Draining and reconstructing: building a fresh engine from exactly what
/// `free` returned yields an idle engine whose transmission log and whose
/// held buffer's capacity are unchanged. The premises are the contracts of
/// [`DmaTransfer::free`] on `(dev, b)` and of [`DmaTransfer::new`] on `t2`.
pub proof fn lemma_drain_reconstruct(t1: DmaTransfer, dev: TxDevice, b: Buffer, t2: DmaTransfer)
    requires
        t1.wf(),
        dev.log() == t1.log(),
        b == t1.held_buffer(),
        t2.wf(),
        t2.idle(),
        t2.log() == dev.log(),
        t2.held_buffer() == b,
    ensures
        t2.idle(),
        t2.log() == t1.log(),
        t2.held_buffer().cap() == t1.held_buffer().cap(),
{
}

} // verus!
