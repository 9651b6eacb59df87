use chip8_core::display::Display;

#[test]
fn new_display_is_blank() {
    let d = Display::new();
    assert_eq!(d.as_slice().len(), 64 * 32);
    assert!(d.as_slice().iter().all(|p| !*p));
}

#[test]
fn set_pixel_is_row_major() {
    let mut d = Display::new();
    d.set_pixel(3, 2, true);
    assert!(d.pixel(3, 2));
    assert!(d.as_slice()[3 + 64 * 2]);
    assert_eq!(d.as_slice().iter().filter(|p| **p).count(), 1);
    d.set_pixel(3, 2, false);
    assert!(!d.pixel(3, 2));
}

#[test]
fn clear_turns_every_pixel_off() {
    let mut d = Display::new();
    d.set_pixel(63, 31, true);
    d.set_pixel(0, 0, true);
    d.clear();
    assert!(d.as_slice().iter().all(|p| !*p));
}
