use dma_streamer::buffer::Buffer;
use dma_streamer::device::TxDevice;
use dma_streamer::dma_streamer::{pack_word, DmaStreamer, WordOrder};

fn streamer_with_capacity(cap: usize) -> DmaStreamer {
    DmaStreamer::new(TxDevice::new(), Buffer::new(cap), Buffer::new(cap))
}

#[test]
fn five_bytes_capacity_four_gives_lengths_four_and_one() {
    let mut s = streamer_with_capacity(4);
    s.stream_u8(&[1, 2, 3, 4, 5]);
    let dev = s.device();
    assert_eq!(dev.submission_count(), 2);
    assert_eq!(dev.submission(0), &vec![1, 2, 3, 4]);
    assert_eq!(dev.submission(1), &vec![5]);
}

#[test]
fn zero_samples_give_zero_submissions() {
    let mut s = streamer_with_capacity(4);
    s.stream_u8(&[]);
    assert_eq!(s.device().submission_count(), 0);
}

#[test]
fn zero_words_give_zero_submissions() {
    let mut s = streamer_with_capacity(4);
    s.stream_u16(&[], WordOrder::Little);
    assert_eq!(s.device().submission_count(), 0);
}

#[test]
fn three_little_endian_words_capacity_four_give_lengths_four_and_two() {
    let mut s = streamer_with_capacity(4);
    s.stream_u16(&[0x1234, 0xabcd, 0x0001], WordOrder::Little);
    let dev = s.device();
    assert_eq!(dev.submission_count(), 2);
    assert_eq!(dev.submission(0), &vec![0x34, 0x12, 0xcd, 0xab]);
    assert_eq!(dev.submission(1), &vec![0x01, 0x00]);
}

#[test]
fn big_endian_words_pack_high_byte_first() {
    let mut s = streamer_with_capacity(4);
    s.stream_u16(&[0x1234], WordOrder::Big);
    let dev = s.device();
    assert_eq!(dev.submission_count(), 1);
    assert_eq!(dev.submission(0), &vec![0x12, 0x34]);
}

#[test]
fn little_endian_words_pack_low_byte_first() {
    let mut s = streamer_with_capacity(4);
    s.stream_u16(&[0x1234], WordOrder::Little);
    let dev = s.device();
    assert_eq!(dev.submission_count(), 1);
    assert_eq!(dev.submission(0), &vec![0x34, 0x12]);
}

#[test]
fn pack_word_orders_the_two_bytes() {
    assert_eq!(pack_word(WordOrder::Little, 0x1234), (0x34, 0x12));
    assert_eq!(pack_word(WordOrder::Big, 0x1234), (0x12, 0x34));
}

#[test]
fn an_exact_multiple_of_the_capacity_has_no_final_partial_submission() {
    let mut s = streamer_with_capacity(4);
    s.stream_u8(&[10, 20, 30, 40]);
    let dev = s.device();
    assert_eq!(dev.submission_count(), 1);
    assert_eq!(dev.submission(0), &vec![10, 20, 30, 40]);
}

#[test]
fn back_to_back_calls_append_to_the_log_in_order() {
    let mut s = streamer_with_capacity(2);
    s.stream_u8(&[1, 2, 3]);
    s.stream_u16(&[0x0506], WordOrder::Big);
    let dev = s.device();
    assert_eq!(dev.submission_count(), 3);
    assert_eq!(dev.submission(0), &vec![1, 2]);
    assert_eq!(dev.submission(1), &vec![3]);
    assert_eq!(dev.submission(2), &vec![5, 6]);
}

#[test]
fn a_stale_shorter_length_does_not_trim_a_later_full_fill() {
    // A partial flush trims the buffer's reported length; the next call must
    // still fill to the fixed capacity, not to the stale length.
    let mut s = streamer_with_capacity(4);
    s.stream_u8(&[9]);
    s.stream_u8(&[1, 2, 3, 4, 5, 6, 7, 8]);
    let dev = s.device();
    assert_eq!(dev.submission_count(), 3);
    assert_eq!(dev.submission(0), &vec![9]);
    assert_eq!(dev.submission(1), &vec![1, 2, 3, 4]);
    assert_eq!(dev.submission(2), &vec![5, 6, 7, 8]);
}

#[test]
fn capacity_is_kept_across_streaming() {
    let mut s = streamer_with_capacity(6);
    assert_eq!(s.capacity(), 6);
    s.stream_u8(&[1, 2, 3, 4, 5, 6, 7]);
    assert_eq!(s.capacity(), 6);
}
