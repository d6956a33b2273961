//! A verified CHIP-8 interpreter core: instruction decoding, the per-opcode
//! machine semantics, the sprite-XOR display algorithm and the keypad edge
//! tracking that feeds the blocking key-wait opcode.
//!
//! The host shell (window, rendering, physical keyboard, frame pacing) is not
//! part of this crate's logic: it drives the machine through `Chip8::tick`,
//! `Keypad::update_keys` and `Chip8::decrement_timers` and reads the display
//! buffer back out.

use vstd::prelude::*;

mod callstack;
mod decode;
mod draw;
mod keypad;
mod machine;
mod rng;

pub use draw::lemma_blit_row_pixels;
pub use draw::lemma_blit_row_twice_restores;
pub use draw::lemma_draw_twice_collides;
pub use draw::spec_blit_row;
pub use draw::spec_blit_sprite;
pub use draw::spec_sprite_bit;
pub use keypad::lemma_first_pressed_is_lowest;
pub use keypad::lemma_first_released_is_lowest;
pub use keypad::press_edge;
pub use keypad::release_edge;
pub use keypad::spec_first_pressed;
pub use keypad::spec_first_released;
pub use keypad::Keypad;
pub use machine::lemma_block_transfer_round_trip;
pub use machine::spec_dispatch;
pub use machine::spec_execute_00e0;
pub use machine::spec_execute_00ee;
pub use machine::spec_execute_2nnn;
pub use machine::spec_execute_7xnn;
pub use machine::spec_execute_8xy1;
pub use machine::spec_execute_8xy2;
pub use machine::spec_execute_8xy3;
pub use machine::spec_execute_8xy4;
pub use machine::spec_execute_8xy5;
pub use machine::spec_execute_8xy6;
pub use machine::spec_execute_8xy7;
pub use machine::spec_execute_8xye;
pub use machine::spec_execute_cxnn;
pub use machine::spec_execute_dxyn;
pub use machine::spec_execute_fx0a;
pub use machine::spec_execute_fx1e;
pub use machine::spec_execute_fx29;
pub use machine::spec_execute_fx33;
pub use machine::spec_execute_fx55;
pub use machine::spec_execute_fx65;
pub use machine::spec_font_table;
pub use machine::spec_key_down;
pub use machine::spec_load_regs;
pub use machine::spec_next_pc;
pub use machine::spec_store_regs;
pub use machine::spec_tick;
pub use machine::spec_initial_machine;
pub use machine::spec_initial_memory;
pub use machine::spec_load_rom;
pub use machine::spec_skip_if;
pub use machine::Chip8;
pub use machine::Chip8Error;
pub use machine::MachineView;
pub use machine::NextInstruction;

pub use decode::convert_to_binary_coded_decimal;
pub use decode::decode_instruction_into_nibbles;
pub use decode::index_from_point;
pub use decode::lemma_index_to_point_to_index;
pub use decode::lemma_point_to_index_to_point;
pub use decode::point_from_index;
pub use decode::spec_index_from_point;
pub use decode::spec_point_from_index;

verus! {

/// Width of the display in pixels.
pub const PIXELS_PER_ROW: usize = 64;

/// Height of the display in pixels.
pub const PIXELS_PER_COLUMN: usize = 32;

/// Number of cells in the display buffer.
pub const PIXELS_PER_SCREEN: usize = PIXELS_PER_COLUMN * PIXELS_PER_ROW;

/// Capacity of the call stack.
pub const STACK_SIZE: usize = 16;

/// Size of the machine's memory in bytes.
pub const RAM_SIZE: usize = 4096;

/// Offset at which a loaded program image is placed.
pub const ROM_INITIAL_POSITION: usize = 0x200;

/// Offset of the built-in font sprite table.
pub const FONT_INITIAL_POSITION: usize = 0x50;

} // verus!
