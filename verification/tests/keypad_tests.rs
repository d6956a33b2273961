use chip8_core::Chip8;
use chip8_core::Keypad;

fn rom(words: &[u16]) -> Vec<u8> {
    let mut bytes = Vec::new();
    for word in words {
        bytes.push((word >> 8) as u8);
        bytes.push((word & 0xFF) as u8);
    }
    bytes
}

fn keys(down: &[usize]) -> [bool; 16] {
    let mut snapshot = [false; 16];
    for &key in down {
        snapshot[key] = true;
    }
    snapshot
}

#[test]
fn update_keys_rotates_the_snapshots() {
    let mut keypad = Keypad::default();
    keypad.update_keys(keys(&[3]));
    assert!(keypad.current_frame_keys[3]);
    assert!(!keypad.previous_frame_keys[3]);
    keypad.update_keys(keys(&[5]));
    assert!(keypad.previous_frame_keys[3]);
    assert!(!keypad.previous_frame_keys[5]);
    assert!(keypad.current_frame_keys[5]);
    assert!(!keypad.current_frame_keys[3]);
}

#[test]
fn first_pressed_keypress_takes_the_lowest_new_press() {
    let mut keypad = Keypad::default();
    // Key 9 is already down; keys 3 and 11 go down this frame.
    keypad.update_keys(keys(&[9]));
    keypad.update_keys(keys(&[3, 9, 11]));
    assert_eq!(keypad.first_pressed_keypress(), Some(3));
    // A key held across both frames is no press.
    let mut keypad = Keypad::default();
    keypad.update_keys(keys(&[9]));
    keypad.update_keys(keys(&[9]));
    assert_eq!(keypad.first_pressed_keypress(), None);
}

#[test]
fn first_released_keypress_takes_the_lowest_release() {
    let mut keypad = Keypad::default();
    keypad.update_keys(keys(&[2, 9, 12]));
    keypad.update_keys(keys(&[2]));
    assert_eq!(keypad.first_released_keypress(), Some(9));
    keypad.update_keys(keys(&[2]));
    assert_eq!(keypad.first_released_keypress(), None);
}

#[test]
fn key_wait_blocks_until_a_press_and_resumes() {
    // F50A: wait for a key press into V5; then V1 = 1.
    let mut chip8 = Chip8::new();
    chip8.load_rom(&rom(&[0xF50A, 0x6101])).unwrap();

    // No key activity: the instruction is refetched step after step.
    chip8.tick().unwrap();
    assert_eq!(chip8.get_program_counter(), 0x200);
    chip8.tick().unwrap();
    assert_eq!(chip8.get_program_counter(), 0x200);

    // A key held since before the wait began is no press.
    chip8.keypad.update_keys(keys(&[2]));
    chip8.keypad.update_keys(keys(&[2]));
    chip8.tick().unwrap();
    assert_eq!(chip8.get_program_counter(), 0x200);

    // Key 7 goes down this frame: the wait consumes it and moves on.
    chip8.keypad.update_keys(keys(&[2, 7]));
    chip8.tick().unwrap();
    assert_eq!(chip8.get_register(5), 7);
    assert_eq!(chip8.get_program_counter(), 0x202);

    // Execution resumes with the instruction after the wait.
    chip8.tick().unwrap();
    assert_eq!(chip8.get_register(1), 1);
}

#[test]
fn key_wait_tie_break_is_the_lowest_index() {
    let mut chip8 = Chip8::new();
    chip8.load_rom(&rom(&[0xF00A])).unwrap();
    chip8.keypad.update_keys(keys(&[9, 3]));
    chip8.tick().unwrap();
    assert_eq!(chip8.get_register(0), 3);
    assert_eq!(chip8.get_program_counter(), 0x202);
}

#[test]
fn skip_if_key_down_and_key_up() {
    // V0 = 4; EX9E skips only while key 4 is down.
    let mut chip8 = Chip8::new();
    chip8.load_rom(&rom(&[0x6004, 0xE09E])).unwrap();
    chip8.keypad.update_keys(keys(&[4]));
    chip8.tick().unwrap();
    chip8.tick().unwrap();
    assert_eq!(chip8.get_program_counter(), 0x206);

    let mut chip8 = Chip8::new();
    chip8.load_rom(&rom(&[0x6004, 0xE09E])).unwrap();
    chip8.tick().unwrap();
    chip8.tick().unwrap();
    assert_eq!(chip8.get_program_counter(), 0x204);

    // EXA1 skips while key 4 is up.
    let mut chip8 = Chip8::new();
    chip8.load_rom(&rom(&[0x6004, 0xE0A1])).unwrap();
    chip8.tick().unwrap();
    chip8.tick().unwrap();
    assert_eq!(chip8.get_program_counter(), 0x206);
}

#[test]
fn register_value_naming_no_key_counts_as_not_down() {
    // V0 = 20 names no key: EX9E does not skip, EXA1 does.
    let mut chip8 = Chip8::new();
    chip8.load_rom(&rom(&[0x6014, 0xE09E])).unwrap();
    chip8.tick().unwrap();
    chip8.tick().unwrap();
    assert_eq!(chip8.get_program_counter(), 0x204);

    let mut chip8 = Chip8::new();
    chip8.load_rom(&rom(&[0x6014, 0xE0A1])).unwrap();
    chip8.tick().unwrap();
    chip8.tick().unwrap();
    assert_eq!(chip8.get_program_counter(), 0x206);
}
