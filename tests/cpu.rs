use chip8_core::cpu::Emu;
use chip8_core::error::Chip8Error;
use chip8_core::instruction::{decode, Instruction};
use chip8_core::semantics::TickOutcome;

fn run(rom: &[u8], ticks: usize) -> Emu {
    let mut emu = Emu::new();
    emu.load(rom).unwrap();
    for _ in 0..ticks {
        assert_eq!(emu.tick_with_random(0), Ok(TickOutcome::Executed));
    }
    emu
}

#[test]
fn add_registers_overflow_sets_carry() {
    let emu = run(&[0x61, 0xFF, 0x62, 0x01, 0x81, 0x24], 3);
    assert_eq!(emu.register(1), 0x00);
    assert_eq!(emu.register(0xF), 1);
    assert_eq!(emu.pc(), 0x206);
}

#[test]
fn add_registers_without_overflow_clears_carry() {
    let emu = run(&[0x6F, 0x07, 0x61, 0x10, 0x62, 0x20, 0x81, 0x24], 4);
    assert_eq!(emu.register(1), 0x30);
    assert_eq!(emu.register(0xF), 0);
}

#[test]
fn subtract_with_borrow_clears_flag() {
    let emu = run(&[0x61, 0x01, 0x62, 0x02, 0x81, 0x25], 3);
    assert_eq!(emu.register(1), 0xFF);
    assert_eq!(emu.register(0xF), 0);
}

#[test]
fn reverse_subtract_without_borrow_sets_flag() {
    let emu = run(&[0x61, 0x01, 0x62, 0x03, 0x81, 0x27], 3);
    assert_eq!(emu.register(1), 0x02);
    assert_eq!(emu.register(0xF), 1);
}

#[test]
fn shifts_put_the_lost_bit_in_flag() {
    let emu = run(&[0x61, 0x81, 0x81, 0x06], 2);
    assert_eq!(emu.register(1), 0x40);
    assert_eq!(emu.register(0xF), 1);
    let emu = run(&[0x61, 0x81, 0x81, 0x0E], 2);
    assert_eq!(emu.register(1), 0x02);
    assert_eq!(emu.register(0xF), 1);
}

#[test]
fn logic_and_immediate_add_wrap() {
    let emu = run(&[0x61, 0xF0, 0x62, 0x3C, 0x63, 0xF0, 0x83, 0x21, 0x64, 0xF0, 0x84, 0x22, 0x81, 0x23, 0x75, 0xFF, 0x75, 0x02], 9);
    assert_eq!(emu.register(3), 0xFC);
    assert_eq!(emu.register(4), 0x30);
    assert_eq!(emu.register(1), 0xCC);
    assert_eq!(emu.register(5), 0x01);
    assert_eq!(emu.register(0xF), 0);
}

#[test]
fn clear_screen_blanks_display() {
    let emu = run(&[0xA0, 0x00, 0xD0, 0x05], 2);
    assert!(emu.get_display().iter().any(|p| *p));
    let mut emu2 = Emu::new();
    emu2.load(&[0xA0, 0x00, 0xD0, 0x05, 0x00, 0xE0]).unwrap();
    for _ in 0..3 {
        emu2.tick_with_random(0).unwrap();
    }
    let d = emu2.get_display();
    assert_eq!(d.len(), 64 * 32);
    assert!(d.iter().all(|p| !*p));
}

#[test]
fn call_then_return_resumes_after_call() {
    let mut emu = Emu::new();
    emu.load(&[0x22, 0x06, 0x00, 0x00, 0x00, 0x00, 0x00, 0xEE]).unwrap();
    assert_eq!(emu.tick_with_random(0), Ok(TickOutcome::Executed));
    assert_eq!(emu.pc(), 0x206);
    assert_eq!(emu.stack_depth(), 1);
    assert_eq!(emu.tick_with_random(0), Ok(TickOutcome::Executed));
    assert_eq!(emu.pc(), 0x202);
    assert_eq!(emu.stack_depth(), 0);
}

#[test]
fn draw_wraps_around_right_edge() {
    let emu = run(&[0x60, 0x3F, 0x61, 0x00, 0xA2, 0x08, 0xD0, 0x11, 0xFF], 4);
    let d = emu.get_display();
    assert!(d[63]);
    assert!(d[0]);
    assert!(d[6]);
    assert!(!d[7]);
    assert!(!d[62]);
    assert_eq!(emu.register(0xF), 0);
}

#[test]
fn draw_twice_erases_and_reports_collision() {
    let emu = run(&[0xA0, 0x00, 0xD0, 0x05, 0xD0, 0x05], 3);
    assert!(emu.get_display().iter().all(|p| !*p));
    assert_eq!(emu.register(0xF), 1);
}

#[test]
fn draw_wraps_around_bottom_edge() {
    let emu = run(&[0x60, 0x00, 0x61, 0x1F, 0xA2, 0x08, 0xD0, 0x12, 0x80, 0x80], 4);
    let d = emu.get_display();
    assert!(d[31 * 64]);
    assert!(d[0]);
}

#[test]
fn bcd_of_157() {
    let emu = run(&[0x61, 0x9D, 0xA3, 0x00, 0xF1, 0x33], 3);
    assert_eq!(emu.read_memory(0x300), 1);
    assert_eq!(emu.read_memory(0x301), 5);
    assert_eq!(emu.read_memory(0x302), 7);
}

#[test]
fn wait_key_retries_until_a_key_is_pressed() {
    let mut emu = Emu::new();
    emu.load(&[0xF2, 0x0A]).unwrap();
    assert_eq!(emu.tick_with_random(0), Ok(TickOutcome::WaitingForKey));
    assert_eq!(emu.pc(), 0x200);
    assert_eq!(emu.tick_with_random(0), Ok(TickOutcome::WaitingForKey));
    assert_eq!(emu.pc(), 0x200);
    emu.keypad.key_down(9).unwrap();
    emu.keypad.key_down(5).unwrap();
    assert_eq!(emu.tick_with_random(0), Ok(TickOutcome::Executed));
    assert_eq!(emu.register(2), 5);
    assert_eq!(emu.pc(), 0x202);
}

#[test]
fn sound_timer_signals_tone_end_once() {
    let mut emu = run(&[0x61, 0x01, 0xF1, 0x18, 0xF1, 0x15], 3);
    assert_eq!(emu.sound_timer(), 1);
    assert_eq!(emu.delay_timer(), 1);
    assert!(emu.tick_timers());
    assert_eq!(emu.sound_timer(), 0);
    assert_eq!(emu.delay_timer(), 0);
    assert!(!emu.tick_timers());
    assert_eq!(emu.sound_timer(), 0);
    assert_eq!(emu.delay_timer(), 0);
}

#[test]
fn long_tone_does_not_end_early() {
    let mut emu = run(&[0x61, 0x03, 0xF1, 0x18], 2);
    assert!(!emu.tick_timers());
    assert!(!emu.tick_timers());
    assert!(emu.tick_timers());
    assert!(!emu.tick_timers());
}

#[test]
fn delay_timer_is_readable() {
    let emu = run(&[0x61, 0x2A, 0xF1, 0x15, 0xF3, 0x07], 3);
    assert_eq!(emu.register(3), 0x2A);
}

#[test]
fn skips_advance_past_next_instruction() {
    let emu = run(&[0x61, 0x05, 0x31, 0x05], 2);
    assert_eq!(emu.pc(), 0x206);
    let emu = run(&[0x61, 0x05, 0x41, 0x05], 2);
    assert_eq!(emu.pc(), 0x204);
    let emu = run(&[0x61, 0x05, 0x62, 0x05, 0x51, 0x20], 3);
    assert_eq!(emu.pc(), 0x208);
    let emu = run(&[0x61, 0x05, 0x62, 0x06, 0x91, 0x20], 3);
    assert_eq!(emu.pc(), 0x208);
}

#[test]
fn key_skips_follow_keypad() {
    let mut emu = Emu::new();
    emu.load(&[0x61, 0x04, 0xE1, 0x9E, 0x00, 0x00, 0xE1, 0xA1]).unwrap();
    emu.keypad.key_down(4).unwrap();
    emu.tick_with_random(0).unwrap();
    emu.tick_with_random(0).unwrap();
    assert_eq!(emu.pc(), 0x206);
    emu.tick_with_random(0).unwrap();
    assert_eq!(emu.pc(), 0x208);
}

#[test]
fn jumps_and_index_operations() {
    let emu = run(&[0x60, 0x04, 0xB3, 0x00], 2);
    assert_eq!(emu.pc(), 0x304);
    let emu = run(&[0x12, 0x40], 1);
    assert_eq!(emu.pc(), 0x240);
    let emu = run(&[0x61, 0x0A, 0xF1, 0x29], 2);
    assert_eq!(emu.index(), 50);
    let emu = run(&[0xA1, 0x00, 0x61, 0x20, 0xF1, 0x1E], 3);
    assert_eq!(emu.index(), 0x120);
}

#[test]
fn store_and_load_registers() {
    let emu = run(&[0x60, 0x0A, 0x61, 0x0B, 0x62, 0x0C, 0xA3, 0x00, 0xF1, 0x55], 5);
    assert_eq!(emu.read_memory(0x300), 0x0A);
    assert_eq!(emu.read_memory(0x301), 0x0B);
    assert_eq!(emu.read_memory(0x302), 0x00);
    let emu = run(&[0xA0, 0x05, 0xF2, 0x65], 2);
    assert_eq!(emu.register(0), 0x20);
    assert_eq!(emu.register(1), 0x60);
    assert_eq!(emu.register(2), 0x20);
    assert_eq!(emu.register(3), 0x00);
}

#[test]
fn random_with_zero_mask_is_zero() {
    let mut emu = Emu::new();
    emu.load(&[0x61, 0x77, 0xC1, 0x00, 0xC2, 0x0F]).unwrap();
    emu.tick().unwrap();
    emu.tick().unwrap();
    emu.tick().unwrap();
    assert_eq!(emu.register(1), 0);
    assert!(emu.register(2) <= 0x0F);
    let mut emu = run(&[0xC1, 0x3C], 0);
    emu.tick_with_random(0xFF).unwrap();
    assert_eq!(emu.register(1), 0x3C);
}

#[test]
fn invalid_opcode_is_reported_and_changes_nothing() {
    let mut emu = Emu::new();
    emu.load(&[0x51, 0x21]).unwrap();
    assert_eq!(emu.tick_with_random(0), Err(Chip8Error::InvalidOpcode { opcode: 0x5121, pc: 0x200 }));
    assert_eq!(emu.pc(), 0x200);
}

#[test]
fn return_on_empty_stack_underflows() {
    let mut emu = Emu::new();
    emu.load(&[0x00, 0xEE]).unwrap();
    assert_eq!(emu.tick_with_random(0), Err(Chip8Error::StackUnderflow));
    assert_eq!(emu.pc(), 0x200);
}

#[test]
fn seventeenth_call_overflows() {
    let mut emu = Emu::new();
    emu.load(&[0x22, 0x00]).unwrap();
    for _ in 0..16 {
        assert_eq!(emu.tick_with_random(0), Ok(TickOutcome::Executed));
    }
    assert_eq!(emu.stack_depth(), 16);
    assert_eq!(emu.tick_with_random(0), Err(Chip8Error::StackOverflow));
    assert_eq!(emu.stack_depth(), 16);
}

#[test]
fn memory_access_past_end_is_reported() {
    let mut emu = Emu::new();
    emu.load(&[0xAF, 0xFE, 0xF0, 0x33]).unwrap();
    emu.tick_with_random(0).unwrap();
    assert_eq!(emu.tick_with_random(0), Err(Chip8Error::MemoryOutOfBounds { addr: 4096 }));
    assert_eq!(emu.pc(), 0x202);
    let mut emu = Emu::new();
    emu.load(&[0xAF, 0xFF, 0xD0, 0x02]).unwrap();
    emu.tick_with_random(0).unwrap();
    assert_eq!(emu.tick_with_random(0), Err(Chip8Error::MemoryOutOfBounds { addr: 4096 }));
    let mut emu = Emu::new();
    emu.load(&[0xAF, 0xF1, 0xFF, 0x55]).unwrap();
    emu.tick_with_random(0).unwrap();
    assert_eq!(emu.tick_with_random(0), Err(Chip8Error::MemoryOutOfBounds { addr: 4096 }));
}

#[test]
fn fetch_reads_big_endian_and_advances() {
    let mut emu = Emu::new();
    emu.load(&[0x12, 0x34]).unwrap();
    assert_eq!(emu.fetch(), Ok(0x1234));
    assert_eq!(emu.pc(), 0x202);
    assert_eq!(emu.fetch(), Ok(0x0000));
    assert_eq!(emu.pc(), 0x204);
}

#[test]
fn fetch_past_end_is_reported() {
    let mut emu = Emu::new();
    emu.load(&[0x1F, 0xFF]).unwrap();
    emu.tick_with_random(0).unwrap();
    assert_eq!(emu.pc(), 0xFFF);
    assert_eq!(emu.fetch(), Err(Chip8Error::MemoryOutOfBounds { addr: 4096 }));
    assert_eq!(emu.pc(), 0xFFF);
    assert_eq!(emu.tick_with_random(0), Err(Chip8Error::MemoryOutOfBounds { addr: 4096 }));
}

#[test]
fn key_instruction_with_bad_index_is_reported() {
    let mut emu = Emu::new();
    emu.load(&[0x61, 0x14, 0xE1, 0x9E]).unwrap();
    emu.tick_with_random(0).unwrap();
    assert_eq!(emu.tick_with_random(0), Err(Chip8Error::InvalidKeypadIndex { index: 20 }));
}

#[test]
fn load_checks_program_size() {
    let mut emu = Emu::new();
    assert_eq!(emu.load(&vec![7u8; 4096 - 0x200]), Ok(()));
    assert_eq!(emu.read_memory(4095), 7);
    assert_eq!(emu.load(&vec![1u8; 4096 - 0x200 + 1]), Err(Chip8Error::MemoryOutOfBounds { addr: 4096 }));
    assert_eq!(emu.read_memory(0x200), 7);
}

#[test]
fn new_machine_has_font_and_start_address() {
    let emu = Emu::default();
    assert_eq!(emu.pc(), 0x200);
    assert_eq!(emu.read_memory(0), 0xF0);
    assert_eq!(emu.read_memory(5), 0x20);
    assert_eq!(emu.read_memory(79), 0x80);
    assert_eq!(emu.read_memory(80), 0);
    assert_eq!(emu.index(), 0);
    assert_eq!(emu.stack_depth(), 0);
}

#[test]
fn reset_restores_start_up_state() {
    let mut emu = run(&[0x61, 0x42, 0xA0, 0x00, 0xD0, 0x05, 0x22, 0x00], 4);
    emu.keypad.key_down(3).unwrap();
    emu.reset();
    assert_eq!(emu.pc(), 0x200);
    assert_eq!(emu.register(1), 0);
    assert_eq!(emu.index(), 0);
    assert_eq!(emu.stack_depth(), 0);
    assert_eq!(emu.read_memory(0x200), 0);
    assert_eq!(emu.read_memory(0), 0xF0);
    assert!(emu.get_display().iter().all(|p| !*p));
    assert!(!emu.keypad.is_pressed(3));
    assert!(emu.keypad.keys.iter().all(|k| !*k));
}

#[test]
fn decode_splits_nibbles() {
    assert_eq!(decode(0x8AB4), Some(Instruction::AddReg { x: 10, y: 11 }));
    assert_eq!(decode(0xD12F), Some(Instruction::Draw { x: 1, y: 2, n: 15 }));
    assert_eq!(decode(0x2ABC), Some(Instruction::Call { nnn: 0xABC }));
    assert_eq!(decode(0xF965), Some(Instruction::LoadRegs { x: 9 }));
    assert_eq!(decode(0x5AB1), None);
    assert_eq!(decode(0x8AB8), None);
    assert_eq!(decode(0xE1A2), None);
    assert_eq!(decode(0x0123), None);
}
