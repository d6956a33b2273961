use chip8_core::Chip8;
use chip8_core::Chip8Error;

/// Encode a program as big-endian instruction words.
fn program(words: &[u16]) -> Vec<u8> {
    let mut bytes = Vec::new();
    for word in words {
        bytes.push((word >> 8) as u8);
        bytes.push((word & 0xFF) as u8);
    }
    bytes
}

/// A machine with the given program loaded.
fn machine_with(words: &[u16]) -> Chip8 {
    let mut chip8 = Chip8::new();
    chip8.load_rom(&program(words)).unwrap();
    chip8
}

#[test]
fn new_machine_has_font_and_clean_state() {
    let chip8 = Chip8::new();
    assert_eq!(chip8.get_program_counter(), 0x200);
    assert_eq!(chip8.get_index(), 0);
    assert_eq!(chip8.get_delay_timer(), 0);
    assert_eq!(chip8.get_sound_timer(), 0);
    assert_eq!(chip8.read_memory(0x50), 0xF0);
    assert_eq!(chip8.read_memory(0x50 + 79), 0x80);
    assert_eq!(chip8.read_memory(0x4F), 0);
    assert_eq!(chip8.read_memory(0xA0), 0);
    for x in 0..16 {
        assert_eq!(chip8.get_register(x), 0);
    }
    for index in 0..2048 {
        assert!(!chip8.get_pixel(index));
    }
    assert!(!chip8.should_redraw);
}

#[test]
fn load_rom_copies_the_image_at_the_load_offset() {
    let mut chip8 = Chip8::new();
    chip8.load_rom(&[0xAB, 0xCD, 0xEF]).unwrap();
    assert_eq!(chip8.read_memory(0x200), 0xAB);
    assert_eq!(chip8.read_memory(0x201), 0xCD);
    assert_eq!(chip8.read_memory(0x202), 0xEF);
    assert_eq!(chip8.read_memory(0x203), 0);
    assert_eq!(chip8.read_memory(0x50), 0xF0);
}

#[test]
fn load_rom_rejects_an_oversized_image() {
    let mut chip8 = Chip8::new();
    let largest = vec![0x42u8; 4096 - 0x200];
    chip8.load_rom(&largest).unwrap();
    assert_eq!(chip8.read_memory(4095), 0x42);

    let mut chip8 = Chip8::new();
    let oversized = vec![0x42u8; 4096 - 0x200 + 1];
    assert_eq!(chip8.load_rom(&oversized), Err(Chip8Error::RomTooLarge));
    assert_eq!(chip8.read_memory(0x200), 0);
}

#[test]
fn add_with_carry_sets_vf_exactly_on_overflow() {
    // VA = 200, VB = 100, VA += VB: 300 wraps to 44 with carry.
    let mut chip8 = machine_with(&[0x6AC8, 0x6B64, 0x8AB4]);
    for _ in 0..3 {
        chip8.tick().unwrap();
    }
    assert_eq!(chip8.get_register(0xA), 44);
    assert_eq!(chip8.get_register(0xF), 1);

    // VA = 3, VB = 4, VA += VB: no carry.
    let mut chip8 = machine_with(&[0x6A03, 0x6B04, 0x8AB4]);
    for _ in 0..3 {
        chip8.tick().unwrap();
    }
    assert_eq!(chip8.get_register(0xA), 7);
    assert_eq!(chip8.get_register(0xF), 0);
}

#[test]
fn subtract_clears_vf_exactly_on_borrow() {
    // VA = 10, VB = 20, VA -= VB: borrow, VF = 0.
    let mut chip8 = machine_with(&[0x6A0A, 0x6B14, 0x8AB5]);
    for _ in 0..3 {
        chip8.tick().unwrap();
    }
    assert_eq!(chip8.get_register(0xA), 246);
    assert_eq!(chip8.get_register(0xF), 0);

    // VA = 20, VB = 10, VA -= VB: no borrow, VF = 1.
    let mut chip8 = machine_with(&[0x6A14, 0x6B0A, 0x8AB5]);
    for _ in 0..3 {
        chip8.tick().unwrap();
    }
    assert_eq!(chip8.get_register(0xA), 10);
    assert_eq!(chip8.get_register(0xF), 1);

    // Reversed subtraction VA = VB - VA: VB = 10, VA = 20: borrow, VF = 0.
    let mut chip8 = machine_with(&[0x6A14, 0x6B0A, 0x8AB7]);
    for _ in 0..3 {
        chip8.tick().unwrap();
    }
    assert_eq!(chip8.get_register(0xA), 246);
    assert_eq!(chip8.get_register(0xF), 0);
}

#[test]
fn shift_right_copies_source_then_shifts() {
    // (source value, expected destination, expected VF)
    let table = [
        (0x01u16, 0x00u8, 1u8),
        (0x02, 0x01, 0),
        (0xFF, 0x7F, 1),
        (0xAA, 0x55, 0),
        (0x00, 0x00, 0),
    ];
    for (source, expected, expected_vf) in table {
        // VA starts distinct so the copy-from-source quirk is visible.
        let mut chip8 = machine_with(&[0x6A99, 0x6B00 | source, 0x8AB6]);
        for _ in 0..3 {
            chip8.tick().unwrap();
        }
        assert_eq!(chip8.get_register(0xA), expected);
        assert_eq!(chip8.get_register(0xF), expected_vf);
        assert_eq!(chip8.get_register(0xB), source as u8);
    }
}

#[test]
fn shift_left_copies_source_then_shifts() {
    let table = [
        (0x80u16, 0x00u8, 1u8),
        (0x01, 0x02, 0),
        (0xFF, 0xFE, 1),
        (0x55, 0xAA, 0),
        (0x00, 0x00, 0),
    ];
    for (source, expected, expected_vf) in table {
        let mut chip8 = machine_with(&[0x6A99, 0x6B00 | source, 0x8ABE]);
        for _ in 0..3 {
            chip8.tick().unwrap();
        }
        assert_eq!(chip8.get_register(0xA), expected);
        assert_eq!(chip8.get_register(0xF), expected_vf);
        assert_eq!(chip8.get_register(0xB), source as u8);
    }
}

#[test]
fn logical_ops_zero_vf_as_a_side_effect() {
    // Set VF = 1 first, then V0 |= V1 must clear it.
    let mut chip8 = machine_with(&[0x6F01, 0x600C, 0x610A, 0x8011]);
    for _ in 0..4 {
        chip8.tick().unwrap();
    }
    assert_eq!(chip8.get_register(0), 0x0E);
    assert_eq!(chip8.get_register(0xF), 0);

    let mut chip8 = machine_with(&[0x6F01, 0x600C, 0x610A, 0x8012]);
    for _ in 0..4 {
        chip8.tick().unwrap();
    }
    assert_eq!(chip8.get_register(0), 0x08);
    assert_eq!(chip8.get_register(0xF), 0);

    let mut chip8 = machine_with(&[0x6F01, 0x600C, 0x610A, 0x8013]);
    for _ in 0..4 {
        chip8.tick().unwrap();
    }
    assert_eq!(chip8.get_register(0), 0x06);
    assert_eq!(chip8.get_register(0xF), 0);
}

#[test]
fn block_transfer_round_trip_recovers_registers() {
    // Fill V0..=V3, store at 0x300, clobber, reload from 0x300.
    let mut chip8 = machine_with(&[
        0x6011, 0x6122, 0x6233, 0x6344, // V0..V3
        0xA300, 0xF355, // I = 0x300, store V0..=V3
        0x6000, 0x6100, 0x6200, 0x6300, // clobber
        0xA300, 0xF365, // I = 0x300, load V0..=V3
    ]);
    for _ in 0..6 {
        chip8.tick().unwrap();
    }
    assert_eq!(chip8.get_index(), 0x304);
    assert_eq!(chip8.read_memory(0x300), 0x11);
    assert_eq!(chip8.read_memory(0x301), 0x22);
    assert_eq!(chip8.read_memory(0x302), 0x33);
    assert_eq!(chip8.read_memory(0x303), 0x44);
    for _ in 0..6 {
        chip8.tick().unwrap();
    }
    assert_eq!(chip8.get_register(0), 0x11);
    assert_eq!(chip8.get_register(1), 0x22);
    assert_eq!(chip8.get_register(2), 0x33);
    assert_eq!(chip8.get_register(3), 0x44);
    assert_eq!(chip8.get_index(), 0x304);
}

#[test]
fn block_transfer_out_of_bounds_is_reported() {
    let mut chip8 = machine_with(&[0xAFFF, 0xF155]);
    chip8.tick().unwrap();
    assert_eq!(chip8.tick(), Err(Chip8Error::MemoryRangeOutOfBounds));

    let mut chip8 = machine_with(&[0xAFFE, 0xF033]);
    chip8.tick().unwrap();
    assert_eq!(chip8.tick(), Err(Chip8Error::MemoryRangeOutOfBounds));
}

#[test]
fn bcd_writes_three_digits_and_leaves_index() {
    let mut chip8 = machine_with(&[0x6092, 0xA300, 0xF033]);
    for _ in 0..3 {
        chip8.tick().unwrap();
    }
    assert_eq!(chip8.read_memory(0x300), 1);
    assert_eq!(chip8.read_memory(0x301), 4);
    assert_eq!(chip8.read_memory(0x302), 6);
    assert_eq!(chip8.get_index(), 0x300);
}

#[test]
fn draw_collision_toggles_pixels_back_off() {
    // Sprite byte 0xFF sits at 0x20A; draw twice at (10, 5).
    let mut chip8 = machine_with(&[0x600A, 0x6105, 0xA20A, 0xD011, 0xD011, 0xFF00]);
    for _ in 0..4 {
        chip8.tick().unwrap();
    }
    // After the first draw: all eight pixels on, no collision.
    for bit in 0..8 {
        assert!(chip8.get_pixel(5 * 64 + 10 + bit));
    }
    assert_eq!(chip8.get_register(0xF), 0);
    assert!(chip8.should_redraw);
    chip8.tick().unwrap();
    // After the second draw: every affected pixel off again, collision set.
    for bit in 0..8 {
        assert!(!chip8.get_pixel(5 * 64 + 10 + bit));
    }
    assert_eq!(chip8.get_register(0xF), 1);
}

#[test]
fn draw_clips_at_the_right_edge() {
    // x = 60: only four columns fit; the sprite is clipped, not wrapped.
    let mut chip8 = machine_with(&[0x603C, 0x6100, 0xA20A, 0xD011, 0x0000, 0xFF00]);
    for _ in 0..4 {
        chip8.tick().unwrap();
    }
    for column in 60..64 {
        assert!(chip8.get_pixel(column));
    }
    // Nothing wrapped onto the next row's start.
    for column in 0..4 {
        assert!(!chip8.get_pixel(64 + column));
        assert!(!chip8.get_pixel(column));
    }
}

#[test]
fn draw_out_of_bounds_sprite_address_is_reported() {
    let mut chip8 = machine_with(&[0xAFFF, 0x6000, 0xD002]);
    chip8.tick().unwrap();
    chip8.tick().unwrap();
    assert_eq!(chip8.tick(), Err(Chip8Error::MemoryRangeOutOfBounds));
}

#[test]
fn clear_screen_turns_every_pixel_off() {
    let mut chip8 = machine_with(&[0x600A, 0x6105, 0xA20A, 0xD011, 0x00E0, 0xFF00]);
    for _ in 0..4 {
        chip8.tick().unwrap();
    }
    assert!(chip8.get_pixel(5 * 64 + 10));
    chip8.tick().unwrap();
    for index in 0..2048 {
        assert!(!chip8.get_pixel(index));
    }
    assert!(chip8.should_redraw);
}

#[test]
fn sixteen_nested_calls_succeed_and_the_seventeenth_overflows() {
    let mut words = Vec::new();
    for k in 0..17u16 {
        words.push(0x2000 | (0x202 + 2 * k));
    }
    let mut chip8 = machine_with(&words);
    for _ in 0..16 {
        chip8.tick().unwrap();
    }
    assert_eq!(chip8.tick(), Err(Chip8Error::StackOverflow));
}

#[test]
fn return_with_no_pending_call_underflows() {
    let mut chip8 = machine_with(&[0x00EE]);
    assert_eq!(chip8.tick(), Err(Chip8Error::StackUnderflow));
}

#[test]
fn call_and_return_resume_after_the_call() {
    let mut chip8 = machine_with(&[0x2204, 0x0000, 0x00EE]);
    chip8.tick().unwrap();
    assert_eq!(chip8.get_program_counter(), 0x204);
    chip8.tick().unwrap();
    assert_eq!(chip8.get_program_counter(), 0x202);
}

#[test]
fn unknown_opcode_reports_word_and_counter() {
    let mut chip8 = machine_with(&[0xFFFF]);
    assert_eq!(
        chip8.tick(),
        Err(Chip8Error::UnknownOpcode { opcode: 0xFFFF, pc: 0x200 })
    );
}

#[test]
fn fetch_past_the_end_of_memory_is_reported() {
    let mut chip8 = machine_with(&[0x1FFF]);
    chip8.tick().unwrap();
    assert_eq!(chip8.get_program_counter(), 0xFFF);
    assert_eq!(chip8.tick(), Err(Chip8Error::FetchOutOfBounds));
}

#[test]
fn conditional_skips_follow_their_conditions() {
    // V0 = 7; "skip if V0 == 7" skips the next instruction.
    let mut chip8 = machine_with(&[0x6007, 0x3007]);
    chip8.tick().unwrap();
    chip8.tick().unwrap();
    assert_eq!(chip8.get_program_counter(), 0x206);

    // "skip if V0 != 7" does not skip.
    let mut chip8 = machine_with(&[0x6007, 0x4007]);
    chip8.tick().unwrap();
    chip8.tick().unwrap();
    assert_eq!(chip8.get_program_counter(), 0x204);

    // V0 == V1 (both 7): 5XY0 skips, 9XY0 does not.
    let mut chip8 = machine_with(&[0x6007, 0x6107, 0x5010]);
    for _ in 0..3 {
        chip8.tick().unwrap();
    }
    assert_eq!(chip8.get_program_counter(), 0x208);
    let mut chip8 = machine_with(&[0x6007, 0x6107, 0x9010]);
    for _ in 0..3 {
        chip8.tick().unwrap();
    }
    assert_eq!(chip8.get_program_counter(), 0x206);
}

#[test]
fn jump_and_jump_with_offset() {
    let mut chip8 = machine_with(&[0x1300]);
    chip8.tick().unwrap();
    assert_eq!(chip8.get_program_counter(), 0x300);

    let mut chip8 = machine_with(&[0x6005, 0xB210]);
    chip8.tick().unwrap();
    chip8.tick().unwrap();
    assert_eq!(chip8.get_program_counter(), 0x215);
}

#[test]
fn register_immediate_add_wraps_without_flag() {
    let mut chip8 = machine_with(&[0x60FF, 0x6F07, 0x7002]);
    for _ in 0..3 {
        chip8.tick().unwrap();
    }
    assert_eq!(chip8.get_register(0), 1);
    assert_eq!(chip8.get_register(0xF), 7);
}

#[test]
fn timers_decrement_once_per_frame_until_zero() {
    let mut chip8 = machine_with(&[0x6005, 0xF015, 0xF018, 0xF107]);
    for _ in 0..3 {
        chip8.tick().unwrap();
    }
    assert_eq!(chip8.get_delay_timer(), 5);
    assert_eq!(chip8.get_sound_timer(), 5);
    chip8.decrement_timers();
    assert_eq!(chip8.get_delay_timer(), 4);
    assert_eq!(chip8.get_sound_timer(), 4);
    // FX07 reads the delay timer back into a register.
    chip8.tick().unwrap();
    assert_eq!(chip8.get_register(1), 4);
    for _ in 0..10 {
        chip8.decrement_timers();
    }
    assert_eq!(chip8.get_delay_timer(), 0);
    assert_eq!(chip8.get_sound_timer(), 0);
}

#[test]
fn font_glyph_address_is_base_plus_five_per_digit() {
    let mut chip8 = machine_with(&[0x6007, 0xF029]);
    chip8.tick().unwrap();
    chip8.tick().unwrap();
    assert_eq!(chip8.get_index(), 0x50 + 7 * 5);
}

#[test]
fn index_add_register_has_no_flag_side_effect() {
    let mut chip8 = machine_with(&[0xA123, 0x6005, 0x6F09, 0xF01E]);
    for _ in 0..4 {
        chip8.tick().unwrap();
    }
    assert_eq!(chip8.get_index(), 0x128);
    assert_eq!(chip8.get_register(0xF), 9);
}

#[test]
fn random_byte_is_masked_by_the_immediate() {
    let mut chip8 = machine_with(&[0xC00F, 0xC100]);
    chip8.tick().unwrap();
    chip8.tick().unwrap();
    assert!(chip8.get_register(0) <= 0x0F);
    assert_eq!(chip8.get_register(1), 0);
}
