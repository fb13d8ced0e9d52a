//! Double-buffered scanline streaming for an SPI-attached display controller.
//!
//! The crate drives a stream of pixel samples onto a display through a
//! DMA-capable transfer device, overlapping "fill the next scanline buffer"
//! with "the hardware is still transmitting the previous one".
//!
//! - [`buffer`] holds the DMA-addressable byte buffer with its fixed capacity
//!   and current valid length.
//! - [`device`] models the transfer-capable SPI peripheral and the
//!   command/data control line as the display sees them: an ordered log of
//!   transmitted payloads and a binary output level.
//! - [`dma_transfer`] is the transfer engine: a two-state machine
//!   (idle / transfer in progress) that hands buffers between software and
//!   the asynchronous hardware write.
//! - [`dma_streamer`] packs pixel samples into the two owned buffers and
//!   submits them in order, and adapts display-protocol payloads
//!   (bytes, 16-bit words in either byte order) onto the streamer while
//!   toggling the command/data line.
//! - [`sound`] is a silent audio sink for configurations without sound
//!   output.

pub mod buffer;
pub mod device;
pub mod dma_streamer;
pub mod dma_transfer;
pub mod sound;
