//! The scanline streamer and the display command/data adapter.
//!
//! The streamer converts a finite sequence of pixel samples into a sequence
//! of buffer submissions to the transfer engine, packing each sample into
//! one or two bytes with an optional byte-order transform. The adapter maps
//! a display-protocol payload onto streamer calls and toggles the control
//! line to distinguish commands from data.

use crate::buffer::Buffer;
use crate::device::{ControlLine, Level, TxDevice};
use crate::dma_transfer::DmaTransfer;
use vstd::arithmetic::div_mod::{
    lemma_fundamental_div_mod, lemma_fundamental_div_mod_converse, lemma_mod_bound,
    lemma_small_mod,
};
use vstd::prelude::*;

verus! {

broadcast use crate::buffer::lemma_raw_len;

/// The byte order in which a 16-bit sample is packed onto the wire. The
/// supported display targets are little-endian machines, so the native
/// order of a word payload is its little-endian order.
#[derive(Clone, Copy, PartialEq, Eq, Structural, Debug)]
pub enum WordOrder {
    Little,
    Big,
}

/// The two bytes of a 16-bit sample in the given order: low byte first for
/// little-endian, high byte first for big-endian.
pub open spec fn word_bytes(order: WordOrder, w: u16) -> Seq<u8> {
    match order {
        WordOrder::Little => seq![(w % 256) as u8, (w / 256) as u8],
        WordOrder::Big => seq![(w / 256) as u8, (w % 256) as u8],
    }
}

/// The byte stream of a whole word sequence: each word contributes its two
/// bytes, in sequence order.
pub open spec fn pack_words(order: WordOrder, ws: Seq<u16>) -> Seq<u8>
    decreases ws.len(),
{
    if ws.len() == 0 {
        Seq::<u8>::empty()
    } else {
        pack_words(order, ws.drop_last()) + word_bytes(order, ws.last())
    }
}

/// The submissions a byte stream is delivered in: chunks of exactly `cap`
/// bytes, except that a final shorter remainder is submitted at its true
/// length, and a remainder of zero is not submitted at all.
pub open spec fn chunks(s: Seq<u8>, cap: int) -> Seq<Seq<u8>>
    decreases s.len(),
{
    if cap <= 0 || s.len() == 0 {
        Seq::<Seq<u8>>::empty()
    } else if s.len() <= cap {
        seq![s]
    } else {
        seq![s.take(cap)] + chunks(s.skip(cap), cap)
    }
}

pub proof fn lemma_pack_words_len(order: WordOrder, ws: Seq<u16>)
    ensures
        pack_words(order, ws).len() == 2 * ws.len(),
    decreases ws.len(),
{
    if ws.len() > 0 {
        lemma_pack_words_len(order, ws.drop_last());
    }
}

/// Word `j` of the sequence occupies bytes `2 j` and `2 j + 1` of the
/// packed stream.
pub proof fn lemma_pack_words_index(order: WordOrder, ws: Seq<u16>, j: int)
    requires
        0 <= j < ws.len(),
    ensures
        pack_words(order, ws).subrange(2 * j, 2 * j + 2) == word_bytes(order, ws[j]),
    decreases ws.len(),
{
    lemma_pack_words_len(order, ws);
    lemma_pack_words_len(order, ws.drop_last());
    if j == ws.len() - 1 {
        assert(pack_words(order, ws).subrange(2 * j, 2 * j + 2) =~= word_bytes(
            order,
            ws[j],
        ));
    } else {
        lemma_pack_words_index(order, ws.drop_last(), j);
        assert(pack_words(order, ws).subrange(2 * j, 2 * j + 2) =~= pack_words(
            order,
            ws.drop_last(),
        ).subrange(2 * j, 2 * j + 2));
    }
}

/// A stream at least one chunk long splits into its first full chunk and
/// the chunks of the rest.
pub proof fn lemma_chunks_unfold(s: Seq<u8>, cap: int)
    requires
        0 < cap <= s.len(),
    ensures
        chunks(s, cap) == seq![s.take(cap)] + chunks(s.skip(cap), cap),
{
    if s.len() == cap {
        assert(s.take(cap) =~= s);
        assert(s.skip(cap) =~= Seq::<u8>::empty());
        assert(chunks(s, cap) =~~= seq![s.take(cap)] + chunks(s.skip(cap), cap));
    }
}

/// The shape of a delivery: the chunks concatenate back to the whole byte
/// stream (so the total bytes delivered equal the stream's length); every
/// submission is exactly `cap` bytes except the last; and the last is the
/// remainder of the stream's length modulo `cap`, or a full `cap` when that
/// remainder is zero, or absent entirely when the stream is empty.
pub proof fn lemma_chunks_shape(s: Seq<u8>, cap: int)
    requires
        cap > 0,
    ensures
        chunks(s, cap).flatten() == s,
        s.len() == 0 ==> chunks(s, cap).len() == 0,
        s.len() as int % cap == 0 ==> chunks(s, cap).len() == s.len() as int / cap,
        s.len() as int % cap != 0 ==> chunks(s, cap).len() == s.len() as int / cap + 1,
        forall|i: int|
            0 <= i < chunks(s, cap).len() - 1 ==> (#[trigger] chunks(s, cap)[i]).len() == cap,
        s.len() > 0 && s.len() as int % cap == 0 ==> chunks(s, cap).last().len() == cap,
        s.len() as int % cap != 0 ==> chunks(s, cap).last().len() == s.len() as int % cap,
    decreases s.len(),
{
    let cs = chunks(s, cap);
    if s.len() == 0 {
        assert(cs.flatten() =~= s);
        lemma_small_mod(0nat, cap as nat);
    } else if s.len() <= cap {
        assert(cs =~= seq![s]);
        cs.lemma_flatten_one_element();
        if s.len() < cap {
            lemma_small_mod(s.len(), cap as nat);
            lemma_fundamental_div_mod_converse(s.len() as int, cap, 0, s.len() as int);
        } else {
            lemma_fundamental_div_mod_converse(s.len() as int, cap, 1, 0);
        }
    } else {
        let rest = s.skip(cap);
        lemma_chunks_shape(rest, cap);
        lemma_chunks_unfold(s, cap);
        let rcs = chunks(rest, cap);
        assert(cs.first() == s.take(cap));
        assert(cs.drop_first() =~= rcs);
        assert(cs.flatten() == cs.first() + cs.drop_first().flatten());
        assert(cs.flatten() =~= s);
        // s.len() and rest.len() agree modulo cap, and differ by one chunk
        lemma_fundamental_div_mod(rest.len() as int, cap);
        lemma_mod_bound(rest.len() as int, cap);
        assert((rest.len() as int / cap + 1) * cap == (rest.len() as int / cap) * cap + cap)
            by (nonlinear_arith);
        lemma_fundamental_div_mod_converse(
            s.len() as int,
            cap,
            rest.len() as int / cap + 1,
            rest.len() as int % cap,
        );
        assert(forall|i: int|
            0 <= i < cs.len() - 1 ==> (#[trigger] cs[i]).len() == cap) by {
            assert(forall|i: int| 1 <= i < cs.len() ==> cs[i] == rcs[i - 1]);
        }
        assert(cs.last() == rcs.last());
    }
}

/// What one `stream_u16` call delivers — its ensures appends exactly
/// `chunks(pack_words(order, samples), cap)` to the log. Streaming `N`
/// two-byte samples into a capacity that is a multiple of the width
/// delivers exactly `2 N` bytes: the appended submissions concatenate back
/// to the packed byte stream; each is exactly `cap` bytes except a final
/// one of `(2 N) % cap` bytes, which is absent when that remainder is zero;
/// and zero samples append nothing. For one-byte samples, `stream_u8`
/// appends `chunks(samples, cap)`, whose shape `lemma_chunks_shape` gives
/// directly.
pub proof fn lemma_stream_u16_delivery(order: WordOrder, samples: Seq<u16>, cap: int)
    requires
        cap > 0,
        cap % 2 == 0,
    ensures
        pack_words(order, samples).len() == 2 * samples.len(),
        chunks(pack_words(order, samples), cap).flatten() == pack_words(order, samples),
        samples.len() == 0 ==> chunks(pack_words(order, samples), cap).len() == 0,
        forall|i: int|
            0 <= i < chunks(pack_words(order, samples), cap).len() - 1 ==> (#[trigger] chunks(
                pack_words(order, samples),
                cap,
            )[i]).len() == cap,
        2 * samples.len() as int % cap != 0 ==> chunks(pack_words(order, samples), cap).len() == 2
            * samples.len() as int / cap + 1 && chunks(
            pack_words(order, samples),
            cap,
        ).last().len() == 2 * samples.len() as int % cap,
        samples.len() > 0 && 2 * samples.len() as int % cap == 0 ==> chunks(
            pack_words(order, samples),
            cap,
        ).len() == 2 * samples.len() as int / cap && chunks(
            pack_words(order, samples),
            cap,
        ).last().len() == cap,
{
    lemma_pack_words_len(order, samples);
    lemma_chunks_shape(pack_words(order, samples), cap);
}

/// The scanline streamer: owns the two buffers and the transfer device
/// between calls, and drives the transfer engine while a call is packing.
pub struct DmaStreamer {
    spare_buffer: Option<Buffer>,
    main_buffer: Option<Buffer>,
    spi: Option<TxDevice>,
}

impl DmaStreamer {
    /// Between calls the streamer holds both buffers and the device; the
    /// buffers share one capacity, large enough for at least one sample.
    pub closed spec fn wf(&self) -> bool {
        &&& self.spare_buffer is Some
        &&& self.main_buffer is Some
        &&& self.spi is Some
        &&& (self.spare_buffer->0).wf()
        &&& (self.main_buffer->0).wf()
        &&& (self.spare_buffer->0).cap() == (self.main_buffer->0).cap()
        &&& (self.spare_buffer->0).cap() > 0
    }

    /// The common capacity of the two buffers.
    pub closed spec fn cap(&self) -> nat {
        (self.spare_buffer->0).cap()
    }

    /// Every payload submitted to the hardware so far, in submission order.
    pub closed spec fn log(&self) -> Seq<Seq<u8>> {
        (self.spi->0).log()
    }

    /// A streamer over `spi` and two fresh buffers of one capacity.
    pub fn new(spi: TxDevice, main_buffer: Buffer, spare_buffer: Buffer) -> (r: DmaStreamer)
        requires
            main_buffer.wf(),
            spare_buffer.wf(),
            main_buffer.cap() == spare_buffer.cap(),
            main_buffer.cap() > 0,
        ensures
            r.wf(),
            r.cap() == main_buffer.cap(),
            r.log() == spi.log(),
    {
        DmaStreamer {
            spi: Some(spi),
            spare_buffer: Some(spare_buffer),
            main_buffer: Some(main_buffer),
        }
    }

    /// Streams one-byte samples: the identity transform. Delivers the
    /// sample bytes to the hardware as capacity-sized submissions with the
    /// remainder flushed at its true length.
    pub fn stream_u8(&mut self, samples: &[u8])
        requires
            old(self).wf(),
        ensures
            final(self).wf(),
            final(self).cap() == old(self).cap(),
            final(self).log() == old(self).log() + chunks(samples@, old(self).cap() as int),
    {
        let spare_buffer = self.spare_buffer.take().unwrap();
        let main_buffer = self.main_buffer.take().unwrap();
        let tx = self.spi.take().unwrap();
        let stream = DmaTransfer::new(tx, main_buffer);

        let (stream, spare_buffer) = Self::compute_line_u8(stream, spare_buffer, samples);

        let (spi, main_buffer) = stream.free();
        self.main_buffer = Some(main_buffer);
        self.spare_buffer = Some(spare_buffer);
        self.spi = Some(spi);
    }

    /// Streams two-byte samples, packing each in the given byte order.
    /// A sample is never split across two submissions, so the capacity must
    /// be a whole number of samples.
    pub fn stream_u16(&mut self, samples: &[u16], order: WordOrder)
        requires
            old(self).wf(),
            old(self).cap() % 2 == 0,
        ensures
            final(self).wf(),
            final(self).cap() == old(self).cap(),
            final(self).log() == old(self).log() + chunks(
                pack_words(order, samples@),
                old(self).cap() as int,
            ),
    {
        let spare_buffer = self.spare_buffer.take().unwrap();
        let main_buffer = self.main_buffer.take().unwrap();
        let tx = self.spi.take().unwrap();
        let stream = DmaTransfer::new(tx, main_buffer);

        let (stream, spare_buffer) = Self::compute_line_u16(stream, spare_buffer, samples, order);

        let (spi, main_buffer) = stream.free();
        self.main_buffer = Some(main_buffer);
        self.spare_buffer = Some(spare_buffer);
        self.spi = Some(spi);
    }

    /// The transfer device, for inspection.
    pub fn device(&self) -> (r: &TxDevice)
        requires
            self.wf(),
        ensures
            r.log() == self.log(),
    {
        self.spi.as_ref().unwrap()
    }

    /// The common capacity of the two buffers.
    pub fn capacity(&self) -> (r: usize)
        requires
            self.wf(),
        ensures
            r == self.cap(),
    {
        self.spare_buffer.as_ref().unwrap().capacity()
    }

    /// Fills the buffer from the byte samples, submitting it each time the
    /// fill position reaches the fixed capacity, and flushes a nonzero
    /// remainder at its true length.
    fn compute_line_u8(transfer: DmaTransfer, buffer: Buffer, samples: &[u8]) -> (res: (
        DmaTransfer,
        Buffer,
    ))
        requires
            transfer.wf(),
            buffer.wf(),
            transfer.held_buffer().cap() == buffer.cap(),
            buffer.cap() > 0,
        ensures
            res.0.wf(),
            res.1.wf(),
            res.1.cap() == buffer.cap(),
            res.0.held_buffer().cap() == buffer.cap(),
            res.0.log() == transfer.log() + chunks(samples@, buffer.cap() as int),
    {
        let mut engine = transfer;
        let mut fill = buffer;
        let ghost c: int = buffer.cap() as int;
        let ghost log0: Seq<Seq<u8>> = transfer.log();
        let ghost all: Seq<u8> = samples@;
        let capacity: usize = fill.capacity();
        let mut width_position: usize = 0;
        let mut idx: usize = 0;
        proof {
            assert(all.skip(0) =~= all);
        }
        while idx < samples.len()
            invariant
                engine.wf(),
                fill.wf(),
                fill.cap() == c,
                engine.held_buffer().cap() == c,
                capacity as int == c,
                0 < c,
                all == samples@,
                idx <= all.len(),
                width_position <= idx,
                (width_position as int) < c,
                forall|k: int|
                    0 <= k < width_position ==> #[trigger] fill.raw()[k] == all[idx
                        - width_position + k],
                engine.log() + chunks(all.skip(idx - width_position), c) == log0 + chunks(all, c),
            decreases all.len() - idx,
        {
            let out = *vstd::slice::slice_index_get(samples, idx);
            fill.write(width_position, out);
            idx = idx + 1;
            width_position = width_position + 1;
            if width_position == capacity {
                fill.set_length(width_position);
                let ghost f: int = idx - width_position;
                let ghost prev: Seq<Seq<u8>> = engine.log();
                proof {
                    assert(fill.content() =~= all.skip(f).take(c));
                    lemma_chunks_unfold(all.skip(f), c);
                    assert(all.skip(f).skip(c) =~= all.skip(idx as int));
                }
                fill = engine.send_scanline(fill);
                width_position = 0;
                proof {
                    assert(engine.log() =~= prev + seq![all.skip(f).take(c)]);
                    assert(engine.log() + chunks(all.skip(idx as int), c) =~= prev + chunks(
                        all.skip(f),
                        c,
                    ));
                }
            }
        }
        if width_position > 0 {
            fill.set_length(width_position);
            let ghost f: int = all.len() - width_position;
            let ghost prev: Seq<Seq<u8>> = engine.log();
            proof {
                assert(fill.content() =~= all.skip(f));
                assert(chunks(all.skip(f), c) =~= seq![all.skip(f)]);
            }
            fill = engine.send_scanline(fill);
            proof {
                assert(engine.log() =~= prev + seq![all.skip(f)]);
                assert(engine.log() =~= log0 + chunks(all, c));
            }
        } else {
            proof {
                assert(all.skip(all.len() as int) =~= Seq::<u8>::empty());
                assert(engine.log() + chunks(Seq::<u8>::empty(), c) =~= engine.log());
                assert(engine.log() =~= log0 + chunks(all, c));
            }
        }
        (engine, fill)
    }

    /// Fills the buffer from the word samples, two bytes per sample in the
    /// given order; the full-buffer check is against the fixed capacity, so
    /// a sample is never split across two submissions.
    fn compute_line_u16(
        transfer: DmaTransfer,
        tx_buffer: Buffer,
        samples: &[u16],
        order: WordOrder,
    ) -> (res: (DmaTransfer, Buffer))
        requires
            transfer.wf(),
            tx_buffer.wf(),
            transfer.held_buffer().cap() == tx_buffer.cap(),
            tx_buffer.cap() > 0,
            tx_buffer.cap() % 2 == 0,
        ensures
            res.0.wf(),
            res.1.wf(),
            res.1.cap() == tx_buffer.cap(),
            res.0.held_buffer().cap() == tx_buffer.cap(),
            res.0.log() == transfer.log() + chunks(
                pack_words(order, samples@),
                tx_buffer.cap() as int,
            ),
    {
        let mut engine = transfer;
        let mut fill = tx_buffer;
        let ghost c: int = tx_buffer.cap() as int;
        let ghost log0: Seq<Seq<u8>> = transfer.log();
        let ghost all: Seq<u8> = pack_words(order, samples@);
        proof {
            lemma_pack_words_len(order, samples@);
            assert(all.skip(0) =~= all);
        }
        let capacity: usize = fill.capacity();
        let mut width_position: usize = 0;
        let mut j: usize = 0;
        while j < samples.len()
            invariant
                engine.wf(),
                fill.wf(),
                fill.cap() == c,
                engine.held_buffer().cap() == c,
                capacity as int == c,
                0 < c,
                c % 2 == 0,
                all == pack_words(order, samples@),
                all.len() == 2 * samples@.len(),
                j <= samples@.len(),
                width_position <= 2 * j,
                (width_position as int) < c,
                width_position % 2 == 0,
                forall|k: int|
                    0 <= k < width_position ==> #[trigger] fill.raw()[k] == all[2 * j
                        - width_position + k],
                engine.log() + chunks(all.skip(2 * j - width_position), c) == log0 + chunks(
                    all,
                    c,
                ),
            decreases samples@.len() - j,
        {
            let word = *vstd::slice::slice_index_get(samples, j);
            let (p1, p2) = pack_word(order, word);
            proof {
                lemma_pack_words_index(order, samples@, j as int);
                assert(all[2 * j] == word_bytes(order, samples@[j as int])[0]);
                assert(all[2 * j + 1] == word_bytes(order, samples@[j as int])[1]);
            }
            fill.write(width_position, p1);
            fill.write(width_position + 1, p2);
            j = j + 1;
            width_position = width_position + 2;
            if width_position == capacity {
                fill.set_length(width_position);
                let ghost f: int = 2 * j - width_position;
                let ghost prev: Seq<Seq<u8>> = engine.log();
                proof {
                    assert(fill.content() =~= all.skip(f).take(c));
                    lemma_chunks_unfold(all.skip(f), c);
                    assert(all.skip(f).skip(c) =~= all.skip(2 * j));
                }
                fill = engine.send_scanline(fill);
                width_position = 0;
                proof {
                    assert(engine.log() =~= prev + seq![all.skip(f).take(c)]);
                    assert(engine.log() + chunks(all.skip(2 * j), c) =~= prev + chunks(
                        all.skip(f),
                        c,
                    ));
                }
            }
        }
        if width_position > 0 {
            fill.set_length(width_position);
            let ghost f: int = all.len() - width_position;
            let ghost prev: Seq<Seq<u8>> = engine.log();
            proof {
                assert(fill.content() =~= all.skip(f));
                assert(chunks(all.skip(f), c) =~= seq![all.skip(f)]);
            }
            fill = engine.send_scanline(fill);
            proof {
                assert(engine.log() =~= prev + seq![all.skip(f)]);
                assert(engine.log() =~= log0 + chunks(all, c));
            }
        } else {
            proof {
                assert(all.skip(all.len() as int) =~= Seq::<u8>::empty());
                assert(engine.log() + chunks(Seq::<u8>::empty(), c) =~= engine.log());
                assert(engine.log() =~= log0 + chunks(all, c));
            }
        }
        (engine, fill)
    }
}

/// Packs one 16-bit sample into its two wire bytes in the given order.
pub fn pack_word(order: WordOrder, w: u16) -> (r: (u8, u8))
    ensures
        seq![r.0, r.1] == word_bytes(order, w),
{
    let lo = (w % 256) as u8;
    let hi = (w / 256) as u8;
    match order {
        WordOrder::Little => (lo, hi),
        WordOrder::Big => (hi, lo),
    }
}

/// A display-protocol payload: a fixed byte sequence, a fixed 16-bit-word
/// sequence in the native, little- or big-endian byte order, or a shape the
/// adapter does not recognize. A lazy payload source is drained into a
/// slice by the caller before it reaches the adapter.
#[derive(Clone, Copy)]
pub enum Payload<'a> {
    U8(&'a [u8]),
    U16(&'a [u16]),
    U16Le(&'a [u16]),
    U16Be(&'a [u16]),
    Other,
}

/// The recoverable failures of the adapter: the control line could not be
/// set, or the payload shape is not recognized.
#[derive(Clone, Copy, PartialEq, Eq, Structural, Debug)]
pub enum DisplayError {
    ControlLineError,
    UnsupportedFormat,
}

/// Whether the adapter recognizes the payload's shape.
pub open spec fn payload_supported(p: Payload) -> bool {
    !(p is Other)
}

/// The byte stream a payload is packed into: bytes verbatim, words two
/// bytes each in the payload's order. The native order is little-endian on
/// the supported targets.
pub open spec fn payload_bytes(p: Payload) -> Seq<u8> {
    match p {
        Payload::U8(s) => s@,
        Payload::U16(s) => pack_words(WordOrder::Little, s@),
        Payload::U16Le(s) => pack_words(WordOrder::Little, s@),
        Payload::U16Be(s) => pack_words(WordOrder::Big, s@),
        Payload::Other => Seq::<u8>::empty(),
    }
}

/// The display command/data adapter: forwards payloads to the streamer and
/// toggles the control line so the display can tell commands from data.
pub struct SpiDmaCMInterface {
    streamer: DmaStreamer,
    rs: ControlLine,
}

impl SpiDmaCMInterface {
    /// Word payloads pack two bytes per sample, so the adapter asks its
    /// streamer for a capacity that holds whole samples of either width.
    pub closed spec fn wf(&self) -> bool {
        &&& self.streamer.wf()
        &&& self.streamer.cap() % 2 == 0
    }

    /// Every payload submitted to the hardware so far, in submission order.
    pub closed spec fn log(&self) -> Seq<Seq<u8>> {
        self.streamer.log()
    }

    /// The common capacity of the streamer's two buffers.
    pub closed spec fn cap(&self) -> nat {
        self.streamer.cap()
    }

    /// The level the control line currently drives.
    pub closed spec fn line_level(&self) -> Level {
        self.rs.line_level()
    }

    /// Whether set operations on the control line succeed.
    pub closed spec fn line_working(&self) -> bool {
        self.rs.is_working()
    }

    pub fn new(streamer: DmaStreamer, rs: ControlLine) -> (r: SpiDmaCMInterface)
        requires
            streamer.wf(),
            streamer.cap() % 2 == 0,
        ensures
            r.wf(),
            r.log() == streamer.log(),
            r.cap() == streamer.cap(),
            r.line_level() == rs.line_level(),
            r.line_working() == rs.is_working(),
    {
        SpiDmaCMInterface { streamer, rs }
    }

    /// Streams a recognized payload; an unrecognized shape fails with
    /// `UnsupportedFormat` and streams nothing.
    fn dispatch(&mut self, words: Payload) -> (r: Result<(), DisplayError>)
        requires
            old(self).wf(),
        ensures
            final(self).wf(),
            final(self).cap() == old(self).cap(),
            final(self).line_level() == old(self).line_level(),
            final(self).line_working() == old(self).line_working(),
            payload_supported(words) ==> r is Ok && final(self).log() == old(self).log()
                + chunks(payload_bytes(words), old(self).cap() as int),
            !payload_supported(words) ==> r == Err::<(), DisplayError>(
                DisplayError::UnsupportedFormat,
            ) && final(self).log() == old(self).log(),
    {
        match words {
            Payload::U8(slice) => {
                self.streamer.stream_u8(slice);
                Ok(())
            },
            Payload::U16(slice) => {
                self.streamer.stream_u16(slice, WordOrder::Little);
                Ok(())
            },
            Payload::U16Le(slice) => {
                self.streamer.stream_u16(slice, WordOrder::Little);
                Ok(())
            },
            Payload::U16Be(slice) => {
                self.streamer.stream_u16(slice, WordOrder::Big);
                Ok(())
            },
            Payload::Other => Err(DisplayError::UnsupportedFormat),
        }
    }

    /// Sets the control line to command mode, then forwards the payload to
    /// the streamer. A line failure surfaces as `ControlLineError` before
    /// any payload byte reaches the transfer engine; an unrecognized shape
    /// fails with `UnsupportedFormat` after the line was already set, which
    /// is observable.
    pub fn send_commands(&mut self, cmd: Payload) -> (r: Result<(), DisplayError>)
        requires
            old(self).wf(),
        ensures
            final(self).wf(),
            final(self).cap() == old(self).cap(),
            final(self).line_working() == old(self).line_working(),
            !old(self).line_working() ==> r == Err::<(), DisplayError>(
                DisplayError::ControlLineError,
            ) && final(self).log() == old(self).log() && final(self).line_level() == old(
                self,
            ).line_level(),
            old(self).line_working() ==> final(self).line_level() == Level::Low,
            old(self).line_working() && payload_supported(cmd) ==> r is Ok && final(self).log()
                == old(self).log() + chunks(payload_bytes(cmd), old(self).cap() as int),
            old(self).line_working() && !payload_supported(cmd) ==> r == Err::<(), DisplayError>(
                DisplayError::UnsupportedFormat,
            ) && final(self).log() == old(self).log(),
    {
        match self.rs.set_low() {
            Ok(_) => self.dispatch(cmd),
            Err(_) => Err(DisplayError::ControlLineError),
        }
    }

    /// Sets the control line to data mode, then forwards the payload to the
    /// streamer; otherwise exactly as [`send_commands`].
    ///
    /// [`send_commands`]: SpiDmaCMInterface::send_commands
    pub fn send_data(&mut self, buf: Payload) -> (r: Result<(), DisplayError>)
        requires
            old(self).wf(),
        ensures
            final(self).wf(),
            final(self).cap() == old(self).cap(),
            final(self).line_working() == old(self).line_working(),
            !old(self).line_working() ==> r == Err::<(), DisplayError>(
                DisplayError::ControlLineError,
            ) && final(self).log() == old(self).log() && final(self).line_level() == old(
                self,
            ).line_level(),
            old(self).line_working() ==> final(self).line_level() == Level::High,
            old(self).line_working() && payload_supported(buf) ==> r is Ok && final(self).log()
                == old(self).log() + chunks(payload_bytes(buf), old(self).cap() as int),
            old(self).line_working() && !payload_supported(buf) ==> r == Err::<(), DisplayError>(
                DisplayError::UnsupportedFormat,
            ) && final(self).log() == old(self).log(),
    {
        match self.rs.set_high() {
            Ok(_) => self.dispatch(buf),
            Err(_) => Err(DisplayError::ControlLineError),
        }
    }

    /// The transfer device, for inspection.
    pub fn device(&self) -> (r: &TxDevice)
        requires
            self.wf(),
        ensures
            r.log() == self.log(),
    {
        self.streamer.device()
    }

    /// The level the control line currently drives.
    pub fn level(&self) -> (r: Level)
        requires
            self.wf(),
        ensures
            r == self.line_level(),
    {
        self.rs.level()
    }
}

} // verus!


