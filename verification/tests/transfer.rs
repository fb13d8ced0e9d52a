use dma_streamer::buffer::Buffer;
use dma_streamer::device::TxDevice;
use dma_streamer::dma_transfer::DmaTransfer;

fn filled(cap: usize, bytes: &[u8]) -> Buffer {
    let mut b = Buffer::new(cap);
    let mut i: usize = 0;
    while i < bytes.len() {
        b.write(i, bytes[i]);
        i += 1;
    }
    b.set_length(bytes.len());
    b
}

#[test]
fn first_submit_returns_the_spare_without_waiting() {
    // The buffers are distinguishable by capacity: the spare has 5 bytes,
    // the submitted one 7. An idle engine starts the transfer at once and
    // hands back the construction-time spare.
    let mut t = DmaTransfer::new(TxDevice::new(), Buffer::new(5));
    assert!(t.is_idle());
    let returned = t.do_transfer(filled(7, &[9]));
    assert_eq!(returned.capacity(), 5);
    assert!(t.is_running());
}

#[test]
fn second_submit_waits_and_reclaims_the_first_buffer() {
    let mut t = DmaTransfer::new(TxDevice::new(), Buffer::new(5));
    let _spare = t.do_transfer(filled(7, &[1, 2]));
    let reclaimed = t.do_transfer(filled(9, &[3]));
    assert_eq!(reclaimed.capacity(), 7);
    assert!(t.is_running());
    let (dev, last) = t.free();
    assert_eq!(last.capacity(), 9);
    assert_eq!(dev.submission_count(), 2);
    assert_eq!(dev.submission(0), &vec![1, 2]);
    assert_eq!(dev.submission(1), &vec![3]);
}

#[test]
fn a_submission_transmits_only_the_valid_length() {
    let mut t = DmaTransfer::new(TxDevice::new(), Buffer::new(8));
    let mut b = Buffer::new(8);
    b.write(0, 0xaa);
    b.write(1, 0xbb);
    b.write(2, 0xcc);
    b.set_length(2);
    t.do_transfer(b);
    let (dev, _) = t.free();
    assert_eq!(dev.submission_count(), 1);
    assert_eq!(dev.submission(0), &vec![0xaa, 0xbb]);
}

#[test]
fn free_on_an_idle_engine_returns_the_spare() {
    let t = DmaTransfer::new(TxDevice::new(), filled(4, &[1]));
    let (dev, spare) = t.free();
    assert_eq!(dev.submission_count(), 0);
    assert_eq!(spare.capacity(), 4);
    assert_eq!(spare.len(), 1);
}

#[test]
fn drain_then_reconstruct_gives_an_idle_engine_with_the_log_kept() {
    let mut t = DmaTransfer::new(TxDevice::new(), Buffer::new(5));
    t.do_transfer(filled(5, &[1, 2, 3]));
    let (dev, b) = t.free();
    assert_eq!(b.capacity(), 5);
    let t2 = DmaTransfer::new(dev, b);
    assert!(t2.is_idle());
    let (dev2, b2) = t2.free();
    assert_eq!(b2.capacity(), 5);
    assert_eq!(dev2.submission_count(), 1);
    assert_eq!(dev2.submission(0), &vec![1, 2, 3]);
}
