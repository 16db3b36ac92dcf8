use chip8::framebuffer::FrameBuffer;

#[test]
fn framebuffer_starts_blank() {
    let fb = FrameBuffer::new(64, 32);
    assert_eq!(fb.width(), 64);
    assert_eq!(fb.height(), 32);
    for index in 0..64 * 32 {
        assert_eq!(fb.get(index), false);
    }
}

#[test]
fn framebuffer_set_then_get() {
    let mut fb = FrameBuffer::new(64, 32);
    fb.set(10 * 64 + 3, true);
    assert_eq!(fb.get(10 * 64 + 3), true);
    assert_eq!(fb.get(10 * 64 + 4), false);
}

#[test]
fn set_display_pixel_reports_collisions() {
    let mut fb = FrameBuffer::new(64, 32);
    // Turning a lit pixel off is the one colliding case.
    assert_eq!(fb.set_display_pixel(0, true), false);
    assert_eq!(fb.get(0), true);
    assert_eq!(fb.set_display_pixel(0, true), true);
    assert_eq!(fb.get(0), false);
    assert_eq!(fb.set_display_pixel(0, false), false);
    assert_eq!(fb.get(0), false);
    fb.set(1, true);
    assert_eq!(fb.set_display_pixel(1, false), false);
    assert_eq!(fb.get(1), true);
}

#[test]
fn framebuffer_as_vec_copies_the_grid() {
    let mut fb = FrameBuffer::new(8, 4);
    fb.set(5, true);
    fb.set(31, true);
    let cells = fb.as_vec();
    assert_eq!(cells.len(), 32);
    assert_eq!(cells[5], true);
    assert_eq!(cells[31], true);
    assert_eq!(cells[0], false);
}
