use chip8_core::error::Chip8Error;
use chip8_core::keypad::Keypad;

#[test]
fn test_default_key_status() {
    let keypad = Keypad::new();
    assert_eq!(keypad.is_pressed(1), false);
}

#[test]
fn test_press_key() {
    let mut keypad = Keypad::new();
    keypad.key_down(1).unwrap();
    assert_eq!(keypad.is_pressed(1), true);
}

#[test]
fn test_release_key() {
    let mut keypad = Keypad::new();
    keypad.key_down(1).unwrap();
    assert_eq!(keypad.is_pressed(1), true);
    keypad.key_up(1).unwrap();
    assert_eq!(keypad.is_pressed(1), false);
}

#[test]
fn key_index_out_of_range_is_refused() {
    let mut keypad = Keypad::new();
    assert_eq!(keypad.key_down(16), Err(Chip8Error::InvalidKeypadIndex { index: 16 }));
    assert_eq!(keypad.key_up(99), Err(Chip8Error::InvalidKeypadIndex { index: 99 }));
    assert!(keypad.keys.iter().all(|k| !*k));
}

#[test]
fn highest_key_can_be_pressed() {
    let mut keypad = Keypad::default();
    assert_eq!(keypad.key_down(15), Ok(()));
    assert!(keypad.is_pressed(15));
    assert!(!keypad.is_pressed(14));
}
