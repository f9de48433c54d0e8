use ray_tracer::framebuffer::FrameBuffer;

#[test]
fn new_framebuffer_is_black() {
    let fb = FrameBuffer::new(4, 3);
    assert_eq!(fb.width(), 4);
    assert_eq!(fb.height(), 3);
    assert_eq!(fb.bytes().len(), 36);
    assert!(fb.bytes().iter().all(|&b| b == 0));
}

#[test]
fn write_color_is_row_major_three_bytes() {
    let mut fb = FrameBuffer::new(4, 3);
    fb.write_color([10, 20, 30], 1, 2);
    let off = (2 * 4 + 1) * 3;
    assert_eq!(&fb.bytes()[off..off + 3], &[10, 20, 30]);
    assert_eq!(fb.pixel(1, 2), [10, 20, 30]);
    assert_eq!(fb.pixel(2, 1), [0, 0, 0]);
    assert_eq!(fb.bytes().iter().filter(|&&b| b != 0).count(), 3);
}

#[test]
fn write_tile_last_write_wins() {
    let mut fb = FrameBuffer::new(2, 2);
    let tile = vec![(0usize, 0usize, [1u8, 2, 3]), (1, 1, [4, 5, 6]), (0, 0, [7, 8, 9])];
    fb.write_tile(&tile);
    assert_eq!(fb.pixel(0, 0), [7, 8, 9]);
    assert_eq!(fb.pixel(1, 1), [4, 5, 6]);
    assert_eq!(fb.pixel(1, 0), [0, 0, 0]);
    assert_eq!(fb.bytes(), &vec![7, 8, 9, 0, 0, 0, 0, 0, 0, 4, 5, 6]);
}

#[test]
fn empty_framebuffer() {
    let mut fb = FrameBuffer::new(0, 5);
    fb.write_tile(&Vec::new());
    assert!(fb.bytes().is_empty());
}
