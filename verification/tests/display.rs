use chip8::display::Display;
use chip8::test_display::TestDisplay;

#[test]
fn test_display_reports_a_fixed_size() {
    let display = TestDisplay::new();
    assert_eq!(display.get_size(), (64, 32));
}

#[test]
fn test_display_accepts_frames_and_stays_open() {
    let mut display = TestDisplay::new();
    assert!(display.is_open());
    let mut buffer = vec![false; 64 * 32];
    display.update(&mut buffer);
    assert!(display.is_open());
}
