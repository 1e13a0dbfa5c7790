use render_wgpu::upload::{align_up, UploadRing};

#[test]
fn align_up_basics() {
    assert_eq!(align_up(0, 1), 0);
    assert_eq!(align_up(1, 1), 1);
    assert_eq!(align_up(1, 4), 4);
    assert_eq!(align_up(4, 4), 4);
    assert_eq!(align_up(5, 4), 8);
}

#[test]
fn align_up_zero_alignment_keeps_address() {
    assert_eq!(align_up(7, 0), 7);
    assert_eq!(align_up(257, 256), 512);
}

#[test]
fn next_frame_resets_cursor() {
    let mut ring = UploadRing::new(3, 1024);
    let before_frame = ring.frame();
    let _s = ring.allocate(128, 256);
    assert!(ring.cursor() >= 128);
    ring.next_frame();
    assert_eq!(ring.cursor(), 0);
    assert_eq!(ring.frame(), (before_frame + 1) % 3);
}

#[test]
fn allocations_bump_and_align() {
    let mut ring = UploadRing::new(2, 1024);
    let a = ring.allocate(100, 256);
    assert_eq!((a.offset, a.size, a.grown_to), (0, 100, None));
    let b = ring.allocate(10, 256);
    assert_eq!((b.offset, b.grown_to), (256, None));
    assert_eq!(ring.cursor(), 266);
    let c = ring.allocate(4, 0);
    assert_eq!(c.offset, 266);
}

#[test]
fn allocation_grows_buffer_by_doubling() {
    let mut ring = UploadRing::new(0, 100);
    assert_eq!(ring.frames(), 1);
    let a = ring.allocate(50, 1);
    assert_eq!((a.offset, a.grown_to), (0, None));
    let b = ring.allocate(1000, 1);
    // 100 < 256: start doubling from 256 until 1000 fits.
    assert_eq!((b.offset, b.grown_to), (0, Some(1024)));
    assert_eq!(ring.buffer_size(0), 1024);
    assert_eq!(ring.cursor(), 1000);
    ring.next_frame();
    assert_eq!(ring.frame(), 0);
}
