use chip8_core::ram::Ram;

#[test]
fn test_put_value_in_stack() {
    let mut ram = Ram::new();
    ram.stack_push(5);
    assert_eq!(ram.sp, 1, "Stack is incremented by one");
}

#[test]
fn test_pop_value_from_stack() {
    let mut ram = Ram::new();
    ram.stack_push(5);
    ram.stack_push(4);
    let val = ram.stack_pop();
    assert_eq!(val, 4, "Last value pushed in stack is {}", 4);
    assert_eq!(ram.sp, 1, "Stack is decremented by one");
}

#[test]
fn read_empty_ram_value() {
    let ram = Ram::new();
    let val = ram.read(5);
    assert_eq!(val, 0, "Read value is equal to zero because it has not be set");
}

#[test]
fn read_filled_ram_value() {
    let mut ram = Ram::new();
    ram.write(5, 4);
    let val = ram.read(5);
    assert_eq!(val, 4, "Value at index {} is {}", 5, 4);
}

#[test]
fn push_array() {
    let mut ram = Ram::new();
    ram.push_arr(&[2, 4, 6, 8]);
    let first = ram.read(0);
    let last = ram.read(3);
    assert_eq!(first, 2, "First array value is at index {} is {}", 0, 2);
    assert_eq!(last, 8, "First array value is at index {} is {}", 3, 8);
}

#[test]
fn push_array_at_index() {
    let mut ram = Ram::new();
    ram.push_at(&[2, 4, 6, 8], 10);
    let first = ram.read(10);
    let last = ram.read(13);
    assert_eq!(first, 2, "First array value is at index {} is {}", 10, 2);
    assert_eq!(last, 8, "First array value is at index {} is {}", 13, 8);
}

#[test]
fn reset_ram() {
    let mut ram = Ram::new();
    ram.stack_push(5);
    ram.push_arr(&[2, 4, 6, 8]);
    ram.reset();
    assert_eq!(ram.sp, 0, "Stack is empty");
    assert_eq!(ram.read(2), 0, "Ram is empty");
}

#[test]
fn push_at_end_of_memory_keeps_neighbours() {
    let mut ram = Ram::new();
    ram.write(4093, 9);
    ram.push_at(&[1, 2], 4094);
    assert_eq!(ram.read(4093), 9);
    assert_eq!(ram.read(4094), 1);
    assert_eq!(ram.read(4095), 2);
}

#[test]
fn stack_is_last_in_first_out_to_full_depth() {
    let mut ram = Ram::new();
    for v in 0..16u16 {
        ram.stack_push(v * 3);
    }
    assert_eq!(ram.sp, 16);
    for v in (0..16u16).rev() {
        assert_eq!(ram.stack_pop(), v * 3);
    }
    assert_eq!(ram.sp, 0);
}

#[test]
fn new_and_reset_zero_every_stack_slot() {
    let ram = Ram::new();
    assert_eq!(ram.stack, [0u16; 16]);
    let mut ram = ram;
    ram.stack_push(7);
    ram.stack_push(8);
    assert_eq!(ram.stack_pop(), 8);
    assert_eq!(ram.stack[1], 8);
    ram.reset();
    assert_eq!(ram.stack, [0u16; 16]);
    assert_eq!(ram.sp, 0);
}
