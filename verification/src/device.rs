//! Models of the two hardware endpoints the display core drives: the
//! transfer-capable SPI peripheral and the command/data control line.
//!
//! The peripheral is modelled as the display controller sees it: an ordered
//! log of the payloads handed to the hardware, in submission order, one
//! transfer at a time. `begin_write` starts an asynchronous write and logs
//! the payload; `wait` blocks until that write has completed and gives the
//! buffer back. The control line is a binary output whose set operation can
//! fail, as a real pin driver's can.

use crate::buffer::Buffer;
use vstd::prelude::*;

verus! {

/// A transfer-capable device, currently idle. Exactly one exists; it
/// alternates between being held here and being consumed to create a
/// [`TxTransfer`].
pub struct TxDevice {
    sent: Vec<Vec<u8>>,
}

/// An in-flight asynchronous write: the device together with the buffer the
/// hardware is transmitting. Software gets both back only through [`wait`].
///
/// [`wait`]: TxTransfer::wait
pub struct TxTransfer {
    dev: TxDevice,
    buf: Buffer,
}

impl TxDevice {
    /// Every payload handed to the hardware so far, in submission order.
    /// Entry `i` holds exactly the bytes transmitted by submission `i`.
    pub closed spec fn log(&self) -> Seq<Seq<u8>> {
        Seq::new(self.sent@.len() as nat, |i: int| self.sent@[i]@)
    }

    /// A device that has transmitted nothing yet.
    pub fn new() -> (r: TxDevice)
        ensures
            r.log() == Seq::<Seq<u8>>::empty(),
    {
        let r = TxDevice { sent: Vec::new() };
        proof {
            assert(r.log() =~= Seq::<Seq<u8>>::empty());
        }
        r
    }

    /// Starts an asynchronous write of the buffer's valid content. The
    /// device and the buffer are both owned by the returned in-flight
    /// transfer until the write completes.
    pub fn begin_write(self, buffer: Buffer) -> (t: TxTransfer)
        requires
            buffer.wf(),
        ensures
            t.device().log() == self.log().push(buffer.content()),
            t.buffer() == buffer,
    {
        let payload = buffer.copy_content();
        let mut dev = self;
        dev.sent.push(payload);
        let t = TxTransfer { dev, buf: buffer };
        proof {
            assert(t.device().log() =~= self.log().push(buffer.content()));
        }
        t
    }

    /// How many submissions the hardware has received.
    pub fn submission_count(&self) -> (r: usize)
        ensures
            r == self.log().len(),
    {
        self.sent.len()
    }

    /// The bytes of submission `i`.
    pub fn submission(&self, i: usize) -> (r: &Vec<u8>)
        requires
            i < self.log().len(),
        ensures
            r@ == self.log()[i as int],
    {
        &self.sent[i]
    }
}

impl TxTransfer {
    /// The device embedded in this in-flight transfer.
    pub closed spec fn device(&self) -> TxDevice {
        self.dev
    }

    /// The buffer the hardware is transmitting.
    pub closed spec fn buffer(&self) -> Buffer {
        self.buf
    }

    /// Blocks until the write has completed, then returns the device and
    /// the transmitted buffer, ready to be reused.
    pub fn wait(self) -> (r: (TxDevice, Buffer))
        ensures
            r.0 == self.device(),
            r.1 == self.buffer(),
    {
        (self.dev, self.buf)
    }
}

/// The two levels of the command/data control line. Low selects command
/// mode, high selects data mode.
#[derive(Clone, Copy, PartialEq, Eq, Structural, Debug)]
pub enum Level {
    Low,
    High,
}

/// The command/data control line: a single-bit output. Setting it can fail,
/// as a real pin driver's set operation can; a line that is not working
/// rejects every set and keeps its level.
pub struct ControlLine {
    level: Level,
    working: bool,
}

impl ControlLine {
    /// The level the line currently drives.
    pub closed spec fn line_level(&self) -> Level {
        self.level
    }

    /// Whether set operations on this line succeed.
    pub closed spec fn is_working(&self) -> bool {
        self.working
    }

    pub fn new(working: bool, initial: Level) -> (r: ControlLine)
        ensures
            r.is_working() == working,
            r.line_level() == initial,
    {
        ControlLine { level: initial, working }
    }

    /// Drives the line to `l`. Fails, changing nothing, exactly when the
    /// line is not working.
    pub fn set_level(&mut self, l: Level) -> (r: Result<(), ()>)
        ensures
            final(self).is_working() == old(self).is_working(),
            old(self).is_working() ==> r is Ok && final(self).line_level() == l,
            !old(self).is_working() ==> r is Err && *final(self) == *old(self),
    {
        if self.working {
            self.level = l;
            Ok(())
        } else {
            Err(())
        }
    }

    /// Drives the line low (command mode).
    pub fn set_low(&mut self) -> (r: Result<(), ()>)
        ensures
            final(self).is_working() == old(self).is_working(),
            old(self).is_working() ==> r is Ok && final(self).line_level() == Level::Low,
            !old(self).is_working() ==> r is Err && *final(self) == *old(self),
    {
        self.set_level(Level::Low)
    }

    /// Drives the line high (data mode).
    pub fn set_high(&mut self) -> (r: Result<(), ()>)
        ensures
            final(self).is_working() == old(self).is_working(),
            old(self).is_working() ==> r is Ok && final(self).line_level() == Level::High,
            !old(self).is_working() ==> r is Err && *final(self) == *old(self),
    {
        self.set_level(Level::High)
    }

    /// The level the line currently drives.
    pub fn level(&self) -> (r: Level)
        ensures
            r == self.line_level(),
    {
        self.level
    }

    /// Whether set operations on this line succeed.
    pub fn working(&self) -> (r: bool)
        ensures
            r == self.is_working(),
    {
        self.working
    }
}

} // verus!
