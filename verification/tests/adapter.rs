use dma_streamer::buffer::Buffer;
use dma_streamer::device::{ControlLine, Level, TxDevice};
use dma_streamer::dma_streamer::{DisplayError, DmaStreamer, Payload, SpiDmaCMInterface};
use dma_streamer::sound::NullAudioPlayer;

fn adapter(cap: usize, line_working: bool) -> SpiDmaCMInterface {
    let streamer = DmaStreamer::new(TxDevice::new(), Buffer::new(cap), Buffer::new(cap));
    let rs = ControlLine::new(line_working, Level::High);
    SpiDmaCMInterface::new(streamer, rs)
}

#[test]
fn send_commands_drives_the_line_low_before_the_payload() {
    let mut a = adapter(4, true);
    let r = a.send_commands(Payload::U8(&[0x2a, 0x00]));
    assert_eq!(r, Ok(()));
    assert_eq!(a.level(), Level::Low);
    assert_eq!(a.device().submission_count(), 1);
    assert_eq!(a.device().submission(0), &vec![0x2a, 0x00]);
}

#[test]
fn send_data_drives_the_line_high_before_the_payload() {
    let mut a = adapter(4, true);
    a.send_commands(Payload::U8(&[0x2c]));
    let r = a.send_data(Payload::U8(&[1, 2, 3]));
    assert_eq!(r, Ok(()));
    assert_eq!(a.level(), Level::High);
    assert_eq!(a.device().submission_count(), 2);
    assert_eq!(a.device().submission(1), &vec![1, 2, 3]);
}

#[test]
fn a_broken_line_fails_before_any_byte_reaches_the_engine() {
    let mut a = adapter(4, false);
    let r = a.send_commands(Payload::U8(&[0x2a]));
    assert_eq!(r, Err(DisplayError::ControlLineError));
    assert_eq!(a.device().submission_count(), 0);
    assert_eq!(a.level(), Level::High);

    let r = a.send_data(Payload::U8(&[1]));
    assert_eq!(r, Err(DisplayError::ControlLineError));
    assert_eq!(a.device().submission_count(), 0);
}

#[test]
fn an_unsupported_shape_streams_nothing_but_the_line_is_already_set() {
    let mut a = adapter(4, true);
    let r = a.send_data(Payload::Other);
    assert_eq!(r, Err(DisplayError::UnsupportedFormat));
    assert_eq!(a.device().submission_count(), 0);
    // the line set happens before the shape is examined, and is observable
    assert_eq!(a.level(), Level::High);

    let r = a.send_commands(Payload::Other);
    assert_eq!(r, Err(DisplayError::UnsupportedFormat));
    assert_eq!(a.device().submission_count(), 0);
    assert_eq!(a.level(), Level::Low);
}

#[test]
fn native_word_payloads_pack_little_endian_on_the_supported_targets() {
    let mut a = adapter(4, true);
    let r = a.send_data(Payload::U16(&[0x1234]));
    assert_eq!(r, Ok(()));
    assert_eq!(a.device().submission(0), &vec![0x34, 0x12]);
}

#[test]
fn explicit_word_orders_pack_as_requested() {
    let mut a = adapter(4, true);
    a.send_data(Payload::U16Le(&[0x1234]));
    a.send_data(Payload::U16Be(&[0x1234]));
    assert_eq!(a.device().submission(0), &vec![0x34, 0x12]);
    assert_eq!(a.device().submission(1), &vec![0x12, 0x34]);
}

#[test]
fn word_payloads_split_across_capacity_boundaries_by_whole_samples() {
    let mut a = adapter(4, true);
    let r = a.send_data(Payload::U16Le(&[0x1234, 0xabcd, 0x0001]));
    assert_eq!(r, Ok(()));
    assert_eq!(a.device().submission_count(), 2);
    assert_eq!(a.device().submission(0), &vec![0x34, 0x12, 0xcd, 0xab]);
    assert_eq!(a.device().submission(1), &vec![0x01, 0x00]);
}

#[test]
fn the_null_audio_player_discards_everything() {
    let mut p = NullAudioPlayer;
    p.play(&[1, 2, 3]);
    assert_eq!(p.samples_rate(), 16000);
    assert!(!p.underflowed());
}
