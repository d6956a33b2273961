//! The execution engine: all mutable machine state, the fetch-decode-execute
//! step, and the per-opcode semantics.
//!
//! Every public operation is specified against `MachineView`, the
//! mathematical model of the machine: plain sequences for memory, display,
//! registers and call stack. `spec_tick` is the full small-step semantics of
//! the interpreter; `Chip8::tick` is proved to implement it.

use crate::callstack::stack_entries;
use crate::callstack::stack_new;
use crate::callstack::stack_pop;
use crate::callstack::stack_try_push;
use crate::keypad::Keypad;
use crate::keypad::spec_first_pressed;
use crate::FONT_INITIAL_POSITION;
use crate::PIXELS_PER_SCREEN;
use crate::RAM_SIZE;
use crate::ROM_INITIAL_POSITION;
use vstd::prelude::*;

verus! {

/// A typed failure of the engine. A failed step never corrects itself: the
/// error is handed to the caller, who must treat the machine as halted.
#[derive(Debug, Clone, Copy, PartialEq, Eq, Structural)]
pub enum Chip8Error {
    /// The program counter (or its successor byte) lies past the end of
    /// memory, so no instruction could be fetched.
    FetchOutOfBounds,
    /// No opcode pattern matched the fetched word; carries the raw word and
    /// the program counter it was fetched from.
    UnknownOpcode { opcode: u16, pc: u16 },
    /// A call was made with 16 return addresses already pending.
    StackOverflow,
    /// A return was executed with no pending call.
    StackUnderflow,
    /// A block-transfer or draw opcode referenced an address past the end of
    /// memory.
    MemoryRangeOutOfBounds,
    /// A program image too large for the memory above the load offset.
    RomTooLarge,
}

/// The engine's directive for adjusting the program counter after an opcode,
/// applied in one place by `tick` (the counter was already advanced by 2
/// before dispatch).
#[derive(Debug, Clone, Copy, PartialEq, Eq, Structural)]
pub enum NextInstruction {
    /// Leave the already-advanced counter as it is.
    Next,
    /// Advance by one further instruction width.
    Skip,
    /// Set the counter to the given address.
    Jump(u16),
    /// Rewind by one instruction width, so the same instruction is fetched
    /// again next step. Used only by the blocking key-wait opcode.
    Stay,
}

/// `Skip` when the condition holds, `Next` otherwise.
pub open spec fn spec_skip_if(condition: bool) -> NextInstruction {
    if condition {
        NextInstruction::Skip
    } else {
        NextInstruction::Next
    }
}

impl NextInstruction {
    /// The directive of a conditional-skip opcode: `Skip` exactly when the
    /// condition holds.
    pub fn skip_if(condition: bool) -> (r: Self)
        ensures
            r == spec_skip_if(condition),
    {
        if condition {
            NextInstruction::Skip
        } else {
            NextInstruction::Next
        }
    }
}

/// The mathematical model of the whole machine state.
#[verifier::ext_equal]
pub ghost struct MachineView {
    /// The 4096 memory bytes.
    pub memory: Seq<u8>,
    /// The 2048 display cells, row-major, 64 columns per row.
    pub screen: Seq<bool>,
    /// The program counter.
    pub pc: u16,
    /// The index register I.
    pub index: u16,
    /// The pending return addresses, bottom of the stack first.
    pub stack: Seq<u16>,
    /// The delay timer.
    pub delay: u8,
    /// The sound timer.
    pub sound: u8,
    /// The 16 general-purpose registers V0 to VF.
    pub v: Seq<u8>,
    /// Whether the display changed since the host last cleared the flag.
    pub should_redraw: bool,
    /// Key-down flags of the previous frame.
    pub keys_previous: Seq<bool>,
    /// Key-down flags of the current frame.
    pub keys_current: Seq<bool>,
}

impl MachineView {
    /// Well-formedness: every component has its fixed size and the stack is
    /// within its capacity.
    pub open spec fn inv(self) -> bool {
        &&& self.memory.len() == 4096
        &&& self.screen.len() == 2048
        &&& self.v.len() == 16
        &&& self.stack.len() <= 16
        &&& self.keys_previous.len() == 16
        &&& self.keys_current.len() == 16
    }

    /// The machine with register `x` set to `value`.
    pub open spec fn with_v(self, x: int, value: u8) -> MachineView {
        MachineView { v: self.v.update(x, value), ..self }
    }

    /// The machine with the index register set to `value`.
    pub open spec fn with_index(self, value: u16) -> MachineView {
        MachineView { index: value, ..self }
    }
}

/// Key `key` of the current frame is down. A register value that names no
/// key (16 or above) counts as a key that is not down.
pub open spec fn spec_key_down(keys: Seq<bool>, key: u8) -> bool {
    key < 16 && keys[key as int]
}

/// Clear screen: every display cell off, redraw flagged.
pub open spec fn spec_execute_00e0(m: MachineView) -> MachineView {
    MachineView { screen: Seq::new(2048, |k: int| false), should_redraw: true, ..m }
}

/// Return: pop an address and jump to it; fails with `StackUnderflow`, and
/// only then, when no call is pending.
pub open spec fn spec_execute_00ee(m: MachineView) -> Result<
    (MachineView, NextInstruction),
    Chip8Error,
> {
    if m.stack.len() == 0 {
        Err(Chip8Error::StackUnderflow)
    } else {
        Ok(
            (
                MachineView { stack: m.stack.drop_last(), ..m },
                NextInstruction::Jump(m.stack.last()),
            ),
        )
    }
}

/// Call: push the (already advanced) program counter and jump; fails with
/// `StackOverflow`, and only then, when 16 calls are already pending.
pub open spec fn spec_execute_2nnn(m: MachineView, nnn: u16) -> Result<
    (MachineView, NextInstruction),
    Chip8Error,
> {
    if m.stack.len() >= 16 {
        Err(Chip8Error::StackOverflow)
    } else {
        Ok((MachineView { stack: m.stack.push(m.pc), ..m }, NextInstruction::Jump(nnn)))
    }
}

/// Add immediate to a register, wrapping, with no flag side effect.
pub open spec fn spec_execute_7xnn(m: MachineView, x: int, nn: u8) -> MachineView {
    m.with_v(x, ((m.v[x] + nn) % 256) as u8)
}

/// OR registers; VF is zeroed as a documented side effect.
pub open spec fn spec_execute_8xy1(m: MachineView, x: int, y: int) -> MachineView {
    MachineView { v: m.v.update(x, m.v[x] | m.v[y]).update(15, 0u8), ..m }
}

/// AND registers; VF is zeroed as a documented side effect.
pub open spec fn spec_execute_8xy2(m: MachineView, x: int, y: int) -> MachineView {
    MachineView { v: m.v.update(x, m.v[x] & m.v[y]).update(15, 0u8), ..m }
}

/// XOR registers; VF is zeroed as a documented side effect.
pub open spec fn spec_execute_8xy3(m: MachineView, x: int, y: int) -> MachineView {
    MachineView { v: m.v.update(x, m.v[x] ^ m.v[y]).update(15, 0u8), ..m }
}

/// Add registers: VX receives the wrapped sum and VF is 1 exactly when the
/// unsigned sum exceeds 255, else 0.
pub open spec fn spec_execute_8xy4(m: MachineView, x: int, y: int) -> MachineView {
    MachineView {
        v: m.v.update(x, ((m.v[x] + m.v[y]) % 256) as u8).update(
            15,
            if m.v[x] + m.v[y] > 255 {
                1u8
            } else {
                0u8
            },
        ),
        ..m
    }
}

/// Subtract VY from VX: VX receives the wrapped difference and VF is 0
/// exactly on borrow (VX < VY), else 1.
pub open spec fn spec_execute_8xy5(m: MachineView, x: int, y: int) -> MachineView {
    MachineView {
        v: m.v.update(x, ((m.v[x] - m.v[y]) % 256) as u8).update(
            15,
            if m.v[x] < m.v[y] {
                0u8
            } else {
                1u8
            },
        ),
        ..m
    }
}

/// Shift right: the source VY is copied into VX shifted by one, and VF
/// receives the bit shifted out (bit 0 of the source).
pub open spec fn spec_execute_8xy6(m: MachineView, x: int, y: int) -> MachineView {
    MachineView {
        v: m.v.update(x, (m.v[y] / 2) as u8).update(15, (m.v[y] % 2) as u8),
        ..m
    }
}

/// Subtract VX from VY into VX: VF is 0 exactly on borrow (VY < VX), else 1.
pub open spec fn spec_execute_8xy7(m: MachineView, x: int, y: int) -> MachineView {
    MachineView {
        v: m.v.update(x, ((m.v[y] - m.v[x]) % 256) as u8).update(
            15,
            if m.v[y] < m.v[x] {
                0u8
            } else {
                1u8
            },
        ),
        ..m
    }
}

/// Shift left: the source VY is copied into VX shifted by one, and VF
/// receives the bit shifted out (bit 7 of the source).
pub open spec fn spec_execute_8xye(m: MachineView, x: int, y: int) -> MachineView {
    MachineView {
        v: m.v.update(x, ((m.v[y] * 2) % 256) as u8).update(15, (m.v[y] / 128) as u8),
        ..m
    }
}

/// Mask a random byte with the immediate into VX.
pub open spec fn spec_execute_cxnn(m: MachineView, x: int, nn: u8, random: u8) -> MachineView {
    m.with_v(x, random & nn)
}

/// Draw: XOR-blit an `n`-row, 8-column sprite read from memory at I onto
/// the display at (VX mod 64, VY mod 32), clipped at the right and bottom
/// edges; VF reports a collision. Fails with `MemoryRangeOutOfBounds`, and
/// only then, when a sprite byte would be read past the end of memory.
pub open spec fn spec_execute_dxyn(m: MachineView, x: int, y: int, n: u8) -> Result<
    (MachineView, NextInstruction),
    Chip8Error,
> {
    let i0 = m.v[y] as int % 32;
    let j0 = m.v[x] as int % 64;
    let rows = if n as int <= 32 - i0 {
        n as int
    } else {
        32 - i0
    };
    let cols = if 8 <= 64 - j0 {
        8int
    } else {
        64 - j0
    };
    if rows > 0 && m.index as int + rows > 4096 {
        Err(Chip8Error::MemoryRangeOutOfBounds)
    } else {
        let blit = crate::draw::spec_blit_sprite(m.screen, m.memory, m.index as int, i0, j0, cols, rows);
        Ok(
            (
                MachineView {
                    screen: blit.0,
                    v: m.v.update(
                        15,
                        if blit.1 {
                            1u8
                        } else {
                            0u8
                        },
                    ),
                    should_redraw: true,
                    ..m
                },
                NextInstruction::Next,
            ),
        )
    }
}

/// Key wait: if a key was pressed this frame, write the lowest such index
/// into VX and move on; otherwise rewind so the same instruction is fetched
/// again next step.
pub open spec fn spec_execute_fx0a(m: MachineView, x: int) -> (MachineView, NextInstruction) {
    match spec_first_pressed(m.keys_previous, m.keys_current) {
        Some(key) => (m.with_v(x, key), NextInstruction::Next),
        None => (m, NextInstruction::Stay),
    }
}

/// Add VX into the index register, wrapping, with no flag side effect.
pub open spec fn spec_execute_fx1e(m: MachineView, x: int) -> MachineView {
    m.with_index(((m.index + m.v[x]) % 0x10000) as u16)
}

/// Point the index register at the font glyph of the digit in VX: the font
/// base plus five bytes per digit.
pub open spec fn spec_execute_fx29(m: MachineView, x: int) -> MachineView {
    m.with_index((0x50 + m.v[x] * 5) as u16)
}

/// Binary-coded decimal: the three decimal digits of VX written to memory at
/// I, I+1, I+2, most significant first; the index register is not moved.
/// Fails with `MemoryRangeOutOfBounds`, and only then, when the three bytes
/// do not fit below the end of memory.
pub open spec fn spec_execute_fx33(m: MachineView, x: int) -> Result<
    (MachineView, NextInstruction),
    Chip8Error,
> {
    if m.index as int + 3 > 4096 {
        Err(Chip8Error::MemoryRangeOutOfBounds)
    } else {
        let digits = crate::decode::spec_bcd(m.v[x]);
        Ok(
            (
                MachineView {
                    memory: m.memory.update(m.index as int, digits[0]).update(
                        m.index as int + 1,
                        digits[1],
                    ).update(m.index as int + 2, digits[2]),
                    ..m
                },
                NextInstruction::Next,
            ),
        )
    }
}

/// Memory after storing registers 0 through `x` at address `i`.
pub open spec fn spec_store_regs(mem: Seq<u8>, v: Seq<u8>, i: int, x: int) -> Seq<u8> {
    Seq::new(
        mem.len(),
        |k: int|
            if i <= k < i + x + 1 {
                v[k - i]
            } else {
                mem[k]
            },
    )
}

/// Registers after loading 0 through `x` from memory at address `i`.
pub open spec fn spec_load_regs(v: Seq<u8>, mem: Seq<u8>, i: int, x: int) -> Seq<u8> {
    Seq::new(
        v.len(),
        |k: int|
            if 0 <= k <= x {
                mem[i + k]
            } else {
                v[k]
            },
    )
}

/// Store V0 through VX to memory at I and advance I by X+1. Fails with
/// `MemoryRangeOutOfBounds`, and only then, when the block does not fit
/// below the end of memory.
pub open spec fn spec_execute_fx55(m: MachineView, x: int) -> Result<
    (MachineView, NextInstruction),
    Chip8Error,
> {
    if m.index as int + x + 1 > 4096 {
        Err(Chip8Error::MemoryRangeOutOfBounds)
    } else {
        Ok(
            (
                MachineView {
                    memory: spec_store_regs(m.memory, m.v, m.index as int, x),
                    index: (m.index + x + 1) as u16,
                    ..m
                },
                NextInstruction::Next,
            ),
        )
    }
}

/// Load V0 through VX from memory at I and advance I by X+1. Fails with
/// `MemoryRangeOutOfBounds`, and only then, when the block does not fit
/// below the end of memory.
pub open spec fn spec_execute_fx65(m: MachineView, x: int) -> Result<
    (MachineView, NextInstruction),
    Chip8Error,
> {
    if m.index as int + x + 1 > 4096 {
        Err(Chip8Error::MemoryRangeOutOfBounds)
    } else {
        Ok(
            (
                MachineView {
                    v: spec_load_regs(m.v, m.memory, m.index as int, x),
                    index: (m.index + x + 1) as u16,
                    ..m
                },
                NextInstruction::Next,
            ),
        )
    }
}

/// Block-transfer round trip: storing V0 through VX at I and loading the
/// same span back (with I reset to the same address in between) recovers
/// identical register values, and each direction advances I by X+1.
pub proof fn lemma_block_transfer_round_trip(m: MachineView, x: int)
    requires
        m.inv(),
        0 <= x < 16,
        m.index as int + x + 1 <= 4096,
    ensures
        match spec_execute_fx55(m, x) {
            Ok(stored) => {
                let back = (MachineView { index: m.index, ..stored.0 });
                match spec_execute_fx65(back, x) {
                    Ok(loaded) => {
                        &&& loaded.0.v == m.v
                        &&& loaded.0.memory == stored.0.memory
                        &&& stored.0.index == m.index + x + 1
                        &&& loaded.0.index == m.index + x + 1
                    },
                    Err(_) => false,
                }
            },
            Err(_) => false,
        },
{
    let stored = MachineView {
        memory: spec_store_regs(m.memory, m.v, m.index as int, x),
        index: (m.index + x + 1) as u16,
        ..m
    };
    let back = MachineView { index: m.index, ..stored };
    assert(spec_load_regs(back.v, back.memory, m.index as int, x) =~= m.v);
}

/// The program counter after a directive is applied to the already-advanced
/// counter.
pub open spec fn spec_next_pc(pc: u16, directive: NextInstruction) -> u16 {
    match directive {
        NextInstruction::Next => pc,
        NextInstruction::Skip => (pc + 2) as u16,
        NextInstruction::Jump(addr) => addr,
        NextInstruction::Stay => (pc - 2) as u16,
    }
}

/// Dispatch of a decoded instruction: `m` is the machine with the counter
/// already advanced past the instruction, `pc0` the counter the instruction
/// was fetched from, and `random` the byte the random opcode would mask. An
/// instruction matching no pattern fails with `UnknownOpcode`, and a failed
/// dispatch leaves the machine as `m`.
pub open spec fn spec_dispatch(
    m: MachineView,
    a: u8,
    x: int,
    y: int,
    n: u8,
    nn: u8,
    nnn: u16,
    pc0: u16,
    opcode: u16,
    random: u8,
) -> Result<(MachineView, NextInstruction), Chip8Error> {
    if a == 0x0 && x == 0x0 && y == 0xE && n == 0x0 {
        Ok((spec_execute_00e0(m), NextInstruction::Next))
    } else if a == 0x0 && x == 0x0 && y == 0xE && n == 0xE {
        spec_execute_00ee(m)
    } else if a == 0x1 {
        Ok((m, NextInstruction::Jump(nnn)))
    } else if a == 0x2 {
        spec_execute_2nnn(m, nnn)
    } else if a == 0x3 {
        Ok((m, spec_skip_if(m.v[x] == nn)))
    } else if a == 0x4 {
        Ok((m, spec_skip_if(m.v[x] != nn)))
    } else if a == 0x5 && n == 0x0 {
        Ok((m, spec_skip_if(m.v[x] == m.v[y])))
    } else if a == 0x6 {
        Ok((m.with_v(x, nn), NextInstruction::Next))
    } else if a == 0x7 {
        Ok((spec_execute_7xnn(m, x, nn), NextInstruction::Next))
    } else if a == 0x8 && n == 0x0 {
        Ok((m.with_v(x, m.v[y]), NextInstruction::Next))
    } else if a == 0x8 && n == 0x1 {
        Ok((spec_execute_8xy1(m, x, y), NextInstruction::Next))
    } else if a == 0x8 && n == 0x2 {
        Ok((spec_execute_8xy2(m, x, y), NextInstruction::Next))
    } else if a == 0x8 && n == 0x3 {
        Ok((spec_execute_8xy3(m, x, y), NextInstruction::Next))
    } else if a == 0x8 && n == 0x4 {
        Ok((spec_execute_8xy4(m, x, y), NextInstruction::Next))
    } else if a == 0x8 && n == 0x5 {
        Ok((spec_execute_8xy5(m, x, y), NextInstruction::Next))
    } else if a == 0x8 && n == 0x6 {
        Ok((spec_execute_8xy6(m, x, y), NextInstruction::Next))
    } else if a == 0x8 && n == 0x7 {
        Ok((spec_execute_8xy7(m, x, y), NextInstruction::Next))
    } else if a == 0x8 && n == 0xE {
        Ok((spec_execute_8xye(m, x, y), NextInstruction::Next))
    } else if a == 0x9 && n == 0x0 {
        Ok((m, spec_skip_if(m.v[x] != m.v[y])))
    } else if a == 0xA {
        Ok((m.with_index(nnn), NextInstruction::Next))
    } else if a == 0xB {
        Ok((m, NextInstruction::Jump((nnn + m.v[0]) as u16)))
    } else if a == 0xC {
        Ok((spec_execute_cxnn(m, x, nn, random), NextInstruction::Next))
    } else if a == 0xD {
        spec_execute_dxyn(m, x, y, n)
    } else if a == 0xE && y == 0x9 && n == 0xE {
        Ok((m, spec_skip_if(spec_key_down(m.keys_current, m.v[x]))))
    } else if a == 0xE && y == 0xA && n == 0x1 {
        Ok((m, spec_skip_if(!spec_key_down(m.keys_current, m.v[x]))))
    } else if a == 0xF && y == 0x0 && n == 0x7 {
        Ok((m.with_v(x, m.delay), NextInstruction::Next))
    } else if a == 0xF && y == 0x1 && n == 0x5 {
        Ok(((MachineView { delay: m.v[x], ..m }), NextInstruction::Next))
    } else if a == 0xF && y == 0x1 && n == 0x8 {
        Ok(((MachineView { sound: m.v[x], ..m }), NextInstruction::Next))
    } else if a == 0xF && y == 0x1 && n == 0xE {
        Ok((spec_execute_fx1e(m, x), NextInstruction::Next))
    } else if a == 0xF && y == 0x0 && n == 0xA {
        Ok(spec_execute_fx0a(m, x))
    } else if a == 0xF && y == 0x2 && n == 0x9 {
        Ok((spec_execute_fx29(m, x), NextInstruction::Next))
    } else if a == 0xF && y == 0x3 && n == 0x3 {
        spec_execute_fx33(m, x)
    } else if a == 0xF && y == 0x5 && n == 0x5 {
        spec_execute_fx55(m, x)
    } else if a == 0xF && y == 0x6 && n == 0x5 {
        spec_execute_fx65(m, x)
    } else {
        Err(Chip8Error::UnknownOpcode { opcode, pc: pc0 })
    }
}

/// Dispatch seen as a relation: the machine after the dispatched handler
/// and the handler's outcome agree with `spec_dispatch`; a failed dispatch
/// leaves the machine as it stood after the counter advance.
spec fn spec_dispatch_post(
    m2: MachineView,
    a: u8,
    x: int,
    y: int,
    n: u8,
    nn: u8,
    nnn: u16,
    pc0: u16,
    opcode: u16,
    random: u8,
    post: MachineView,
    outcome: Result<NextInstruction, Chip8Error>,
) -> bool {
    match spec_dispatch(m2, a, x, y, n, nn, nnn, pc0, opcode, random) {
        Ok(p) => outcome == Ok::<NextInstruction, Chip8Error>(p.1) && post == p.0,
        Err(e) => outcome == Err::<NextInstruction, Chip8Error>(e) && post == m2,
    }
}

/// The full small-step semantics of the interpreter. Fetch the word at the
/// program counter (failing with `FetchOutOfBounds`, and only then, when the
/// counter or its successor lies past the end of memory), advance the
/// counter by 2, dispatch on the nibbles, and apply the returned directive
/// to the counter. On a dispatch failure the machine keeps the advanced
/// counter and is otherwise unchanged; the caller must treat it as halted.
pub open spec fn spec_tick(m: MachineView, random: u8) -> (MachineView, Result<(), Chip8Error>) {
    if m.pc as int + 1 >= 4096 {
        (m, Err(Chip8Error::FetchOutOfBounds))
    } else {
        let opcode = (m.memory[m.pc as int] * 256 + m.memory[m.pc as int + 1]) as u16;
        let ns = crate::decode::spec_nibbles(opcode);
        let a = ns[0];
        let x = ns[1] as int;
        let y = ns[2] as int;
        let n = ns[3];
        let nn = (ns[2] * 16 + ns[3]) as u8;
        let nnn = (ns[1] * 256 + ns[2] * 16 + ns[3]) as u16;
        let m2 = MachineView { pc: (m.pc + 2) as u16, ..m };
        match spec_dispatch(m2, a, x, y, n, nn, nnn, m.pc, opcode, random) {
            Ok(p) => ((MachineView { pc: spec_next_pc(p.0.pc, p.1), ..p.0 }), Ok(())),
            Err(e) => (m2, Err(e)),
        }
    }
}

/// The built-in font sprite table: 16 glyphs of 5 bytes each, one for every
/// hexadecimal digit.
pub open spec fn spec_font_table() -> Seq<u8> {
    seq![
        0xF0u8, 0x90, 0x90, 0x90, 0xF0,
        0x20, 0x60, 0x20, 0x20, 0x70,
        0xF0, 0x10, 0xF0, 0x80, 0xF0,
        0xF0, 0x10, 0xF0, 0x10, 0xF0,
        0x90, 0x90, 0xF0, 0x10, 0x10,
        0xF0, 0x80, 0xF0, 0x10, 0xF0,
        0xF0, 0x80, 0xF0, 0x90, 0xF0,
        0xF0, 0x10, 0x20, 0x40, 0x40,
        0xF0, 0x90, 0xF0, 0x90, 0xF0,
        0xF0, 0x90, 0xF0, 0x10, 0xF0,
        0xF0, 0x90, 0xF0, 0x90, 0x90,
        0xE0, 0x90, 0xE0, 0x90, 0xE0,
        0xF0, 0x80, 0x80, 0x80, 0xF0,
        0xE0, 0x90, 0x90, 0x90, 0xE0,
        0xF0, 0x80, 0xF0, 0x80, 0xF0,
        0xF0, 0x80, 0xF0, 0x80, 0x80,
    ]
}

/// Memory as initialization leaves it: all zero but for the font table at
/// its fixed offset.
pub open spec fn spec_initial_memory() -> Seq<u8> {
    Seq::new(
        4096,
        |k: int|
            if 0x50 <= k < 0x50 + 80 {
                spec_font_table()[k - 0x50]
            } else {
                0u8
            },
    )
}

/// The machine as `Chip8::new` builds it: font written, everything else
/// cleared, program counter at the load offset.
pub open spec fn spec_initial_machine() -> MachineView {
    MachineView {
        memory: spec_initial_memory(),
        screen: Seq::new(2048, |k: int| false),
        pc: 0x200,
        index: 0,
        stack: Seq::<u16>::empty(),
        delay: 0,
        sound: 0,
        v: Seq::new(16, |k: int| 0u8),
        should_redraw: false,
        keys_previous: Seq::new(16, |k: int| false),
        keys_current: Seq::new(16, |k: int| false),
    }
}

/// Memory after a program image is copied in at the load offset.
pub open spec fn spec_load_rom(mem: Seq<u8>, rom: Seq<u8>) -> Seq<u8> {
    Seq::new(
        mem.len(),
        |k: int|
            if 0x200 <= k < 0x200 + rom.len() {
                rom[k - 0x200]
            } else {
                mem[k]
            },
    )
}

/// The execution engine: the one owner of all mutable machine state.
pub struct Chip8 {
    memory: Vec<u8>,
    /// The display buffer, row-major, 64 columns per row. Read by the host;
    /// mutated only by the clear-screen and draw opcodes.
    pub screen: Vec<bool>,
    /// Program counter; the current instruction in memory.
    pc: u16,
    /// Index register.
    i: u16,
    stack: arrayvec::ArrayVec<u16, 16>,
    delay_timer: u8,
    sound_timer: u8,
    v: Vec<u8>,
    /// Set whenever the display buffer changes; cleared by the host after it
    /// has rendered a frame.
    pub should_redraw: bool,
    /// The keypad tracker; the host rotates a snapshot in once per frame.
    pub keypad: Keypad,
}

impl View for Chip8 {
    type V = MachineView;

    closed spec fn view(&self) -> MachineView {
        MachineView {
            memory: self.memory@,
            screen: self.screen@,
            pc: self.pc,
            index: self.i,
            stack: stack_entries(self.stack),
            delay: self.delay_timer,
            sound: self.sound_timer,
            v: self.v@,
            should_redraw: self.should_redraw,
            keys_previous: self.keypad.previous_frame_keys@,
            keys_current: self.keypad.current_frame_keys@,
        }
    }
}

/// The font table as an ordinary vector, for writing into memory.
fn font_set() -> (r: Vec<u8>)
    ensures
        r@ == spec_font_table(),
{
    let mut f: Vec<u8> = Vec::new();
    f.push(0xF0);
    f.push(0x90);
    f.push(0x90);
    f.push(0x90);
    f.push(0xF0);
    f.push(0x20);
    f.push(0x60);
    f.push(0x20);
    f.push(0x20);
    f.push(0x70);
    f.push(0xF0);
    f.push(0x10);
    f.push(0xF0);
    f.push(0x80);
    f.push(0xF0);
    f.push(0xF0);
    f.push(0x10);
    f.push(0xF0);
    f.push(0x10);
    f.push(0xF0);
    f.push(0x90);
    f.push(0x90);
    f.push(0xF0);
    f.push(0x10);
    f.push(0x10);
    f.push(0xF0);
    f.push(0x80);
    f.push(0xF0);
    f.push(0x10);
    f.push(0xF0);
    f.push(0xF0);
    f.push(0x80);
    f.push(0xF0);
    f.push(0x90);
    f.push(0xF0);
    f.push(0xF0);
    f.push(0x10);
    f.push(0x20);
    f.push(0x40);
    f.push(0x40);
    f.push(0xF0);
    f.push(0x90);
    f.push(0xF0);
    f.push(0x90);
    f.push(0xF0);
    f.push(0xF0);
    f.push(0x90);
    f.push(0xF0);
    f.push(0x10);
    f.push(0xF0);
    f.push(0xF0);
    f.push(0x90);
    f.push(0xF0);
    f.push(0x90);
    f.push(0x90);
    f.push(0xE0);
    f.push(0x90);
    f.push(0xE0);
    f.push(0x90);
    f.push(0xE0);
    f.push(0xF0);
    f.push(0x80);
    f.push(0x80);
    f.push(0x80);
    f.push(0xF0);
    f.push(0xE0);
    f.push(0x90);
    f.push(0x90);
    f.push(0x90);
    f.push(0xE0);
    f.push(0xF0);
    f.push(0x80);
    f.push(0xF0);
    f.push(0x80);
    f.push(0xF0);
    f.push(0xF0);
    f.push(0x80);
    f.push(0xF0);
    f.push(0x80);
    f.push(0x80);
    proof {
        assert(f@ =~= spec_font_table());
    }
    f
}

impl Chip8 {
    /// Well-formedness of the live machine, established by `new` and
    /// preserved by every operation.
    pub closed spec fn wf(&self) -> bool {
        self@.inv()
    }

    /// A fresh machine: memory zeroed but for the font table, display clear,
    /// no pending calls, timers at zero, program counter at the load offset.
    pub fn new() -> (r: Self)
        ensures
            r.wf(),
            r@ == spec_initial_machine(),
    {
        let mut memory: Vec<u8> = Vec::new();
        while memory.len() < RAM_SIZE
            invariant
                memory@.len() <= 4096,
                forall|k: int| 0 <= k < memory@.len() ==> memory@[k] == 0u8,
            decreases 4096 - memory@.len(),
        {
            memory.push(0);
        }
        let font = font_set();
        let mut k: usize = 0;
        while k < 80
            invariant
                0 <= k <= 80,
                memory@.len() == 4096,
                font@ == spec_font_table(),
                forall|j: int| 0 <= j < k ==> memory@[0x50 + j] == spec_font_table()[j],
                forall|j: int| (0 <= j < 0x50 || 0x50 + k <= j < 4096) ==> memory@[j] == 0u8,
            decreases 80 - k,
        {
            memory.set(FONT_INITIAL_POSITION + k, font[k]);
            k = k + 1;
        }
        let mut screen: Vec<bool> = Vec::new();
        while screen.len() < 2048
            invariant
                screen@.len() <= 2048,
                forall|j: int| 0 <= j < screen@.len() ==> !screen@[j],
            decreases 2048 - screen@.len(),
        {
            screen.push(false);
        }
        let mut v: Vec<u8> = Vec::new();
        while v.len() < 16
            invariant
                v@.len() <= 16,
                forall|j: int| 0 <= j < v@.len() ==> v@[j] == 0u8,
            decreases 16 - v@.len(),
        {
            v.push(0);
        }
        let r = Chip8 {
            memory,
            screen,
            pc: 0x200,
            i: 0,
            stack: stack_new(),
            delay_timer: 0,
            sound_timer: 0,
            v,
            should_redraw: false,
            keypad: Keypad::default(),
        };
        proof {
            assert(r@.memory =~= spec_initial_memory());
            assert(r@.screen =~= Seq::new(2048, |j: int| false));
            assert(r@.v =~= Seq::new(16, |j: int| 0u8));
            assert(r@ =~= spec_initial_machine());
        }
        r
    }

    /// Copy a program image into memory at the load offset. Fails with
    /// `RomTooLarge`, leaving the machine unchanged, exactly when the image
    /// does not fit in the memory above the offset.
    pub fn load_rom(&mut self, rom: &[u8]) -> (r: Result<(), Chip8Error>)
        requires
            old(self).wf(),
        ensures
            final(self).wf(),
            rom@.len() <= 4096 - 0x200 ==> r == Ok::<(), Chip8Error>(()) && final(self)@ == (
            MachineView { memory: spec_load_rom(old(self)@.memory, rom@), ..old(self)@ }),
            rom@.len() > 4096 - 0x200 ==> r == Err::<(), Chip8Error>(Chip8Error::RomTooLarge)
                && final(self)@ == old(self)@,
    {
        if rom.len() > RAM_SIZE - ROM_INITIAL_POSITION {
            return Err(Chip8Error::RomTooLarge);
        }
        let mut k: usize = 0;
        while k < rom.len()
            invariant
                0 <= k <= rom@.len(),
                rom@.len() <= 4096 - 0x200,
                self.memory@.len() == 4096,
                forall|j: int| 0 <= j < k ==> self.memory@[0x200 + j] == rom@[j],
                forall|j: int|
                    (0 <= j < 0x200 || 0x200 + k <= j < 4096) ==> self.memory@[j] == old(
                        self,
                    )@.memory[j],
                self.screen == old(self).screen,
                self.pc == old(self).pc,
                self.i == old(self).i,
                self.stack == old(self).stack,
                self.delay_timer == old(self).delay_timer,
                self.sound_timer == old(self).sound_timer,
                self.v == old(self).v,
                self.should_redraw == old(self).should_redraw,
                self.keypad == old(self).keypad,
            decreases rom@.len() - k,
        {
            self.memory.set(ROM_INITIAL_POSITION + k, rom[k]);
            k = k + 1;
        }
        proof {
            assert(self@.memory =~= spec_load_rom(old(self)@.memory, rom@));
            assert(self@ =~= (MachineView {
                memory: spec_load_rom(old(self)@.memory, rom@),
                ..old(self)@
            }));
        }
        Ok(())
    }

    /// One 60 Hz timer tick, to be invoked by the host once per rendered
    /// frame: each timer counts down by one until it reaches zero. No other
    /// state is touched.
    pub fn decrement_timers(&mut self)
        requires
            old(self).wf(),
        ensures
            final(self).wf(),
            final(self)@ == (MachineView {
                delay: if old(self)@.delay > 0 {
                    (old(self)@.delay - 1) as u8
                } else {
                    0u8
                },
                sound: if old(self)@.sound > 0 {
                    (old(self)@.sound - 1) as u8
                } else {
                    0u8
                },
                ..old(self)@
            }),
    {
        if self.delay_timer > 0 {
            self.delay_timer = self.delay_timer - 1;
        }
        if self.sound_timer > 0 {
            self.sound_timer = self.sound_timer - 1;
        }
        proof {
            assert(self@ =~= (MachineView {
                delay: if old(self)@.delay > 0 {
                    (old(self)@.delay - 1) as u8
                } else {
                    0u8
                },
                sound: if old(self)@.sound > 0 {
                    (old(self)@.sound - 1) as u8
                } else {
                    0u8
                },
                ..old(self)@
            }));
        }
    }

    /// One step of the machine: fetch the two bytes at the program counter
    /// (failing with `FetchOutOfBounds` when the counter or its successor
    /// lies past the end of memory), advance the counter by 2 before
    /// dispatch, execute the decoded opcode, and apply its directive to the
    /// counter.
    ///
    /// The whole step is pinned down by `spec_tick`; the random byte is
    /// existential because the one random opcode may put any masked byte in
    /// its register. A failed step may leave the counter advanced past the
    /// faulting instruction; the caller must treat the machine as halted.
    #[verifier::rlimit(60)]
    pub fn tick(&mut self) -> (r: Result<(), Chip8Error>)
        requires
            old(self).wf(),
        ensures
            final(self).wf(),
            exists|random: u8| (final(self)@, r) == spec_tick(old(self)@, random),
    {
        let pc0 = self.pc;
        let pc_usize = pc0 as usize;
        if pc_usize + 1 >= RAM_SIZE {
            proof {
                assert((self@, Err::<(), Chip8Error>(Chip8Error::FetchOutOfBounds)) == spec_tick(
                    old(self)@,
                    0u8,
                ));
            }
            return Err(Chip8Error::FetchOutOfBounds);
        }
        let hi = self.memory[pc_usize];
        let lo = self.memory[pc_usize + 1];
        let instruction: u16 = (hi as u16) * 256 + (lo as u16);
        let nibbles = crate::decode::decode_instruction_into_nibbles(instruction);
        let a = nibbles[0];
        let x8 = nibbles[1];
        let y8 = nibbles[2];
        let n = nibbles[3];
        let x = x8 as usize;
        let y = y8 as usize;
        let nn: u8 = y8 * 16 + n;
        let nnn: u16 = (x8 as u16) * 256 + (y8 as u16) * 16 + (n as u16);
        self.pc = pc0 + 2;
        let ghost m2 = self@;
        let ghost mut rng_witness: u8 = 0;
        let outcome: Result<NextInstruction, Chip8Error> = match (a, x8, y8, n) {
            (0x0, 0x0, 0xE, 0x0) => Ok(self.execute_00e0()),
            (0x0, 0x0, 0xE, 0xE) => self.execute_00ee(),
            (0x1, _, _, _) => Ok(self.execute_1nnn(nnn)),
            (0x2, _, _, _) => self.execute_2nnn(nnn),
            (0x3, _, _, _) => Ok(self.execute_3xnn(x, nn)),
            (0x4, _, _, _) => Ok(self.execute_4xnn(x, nn)),
            (0x5, _, _, 0x0) => Ok(self.execute_5xy0(x, y)),
            (0x6, _, _, _) => Ok(self.execute_6xnn(x, nn)),
            (0x7, _, _, _) => Ok(self.execute_7xnn(x, nn)),
            (0x8, _, _, 0x0) => Ok(self.execute_8xy0(x, y)),
            (0x8, _, _, 0x1) => Ok(self.execute_8xy1(x, y)),
            (0x8, _, _, 0x2) => Ok(self.execute_8xy2(x, y)),
            (0x8, _, _, 0x3) => Ok(self.execute_8xy3(x, y)),
            (0x8, _, _, 0x4) => Ok(self.execute_8xy4(x, y)),
            (0x8, _, _, 0x5) => Ok(self.execute_8xy5(x, y)),
            (0x8, _, _, 0x6) => Ok(self.execute_8xy6(x, y)),
            (0x8, _, _, 0x7) => Ok(self.execute_8xy7(x, y)),
            (0x8, _, _, 0xE) => Ok(self.execute_8xye(x, y)),
            (0x9, _, _, 0x0) => Ok(self.execute_9xy0(x, y)),
            (0xA, _, _, _) => Ok(self.execute_annn(nnn)),
            (0xB, _, _, _) => Ok(self.execute_bnnn(nnn)),
            (0xC, _, _, _) => {
                let random = crate::rng::random_byte();
                proof {
                    rng_witness = random;
                }
                Ok(self.execute_cxnn(x, nn, random))
            },
            (0xD, _, _, _) => self.execute_dxyn(x, y, n),
            (0xE, _, 0x9, 0xE) => Ok(self.execute_ex9e(x)),
            (0xE, _, 0xA, 0x1) => Ok(self.execute_exa1(x)),
            (0xF, _, 0x0, 0x7) => Ok(self.execute_fx07(x)),
            (0xF, _, 0x1, 0x5) => Ok(self.execute_fx15(x)),
            (0xF, _, 0x1, 0x8) => Ok(self.execute_fx18(x)),
            (0xF, _, 0x1, 0xE) => Ok(self.execute_fx1e(x)),
            (0xF, _, 0x0, 0xA) => Ok(self.execute_fx0a(x)),
            (0xF, _, 0x2, 0x9) => Ok(self.execute_fx29(x)),
            (0xF, _, 0x3, 0x3) => self.execute_fx33(x),
            (0xF, _, 0x5, 0x5) => self.execute_fx55(x),
            (0xF, _, 0x6, 0x5) => self.execute_fx65(x),
            _ => Err(Chip8Error::UnknownOpcode { opcode: instruction, pc: pc0 }),
        };
        proof {
            assert(spec_dispatch_post(
                m2,
                a,
                x as int,
                y as int,
                n,
                nn,
                nnn,
                pc0,
                instruction,
                rng_witness,
                self@,
                outcome,
            ));
        }
        let directive = match outcome {
            Ok(d) => d,
            Err(e) => {
                proof {
                    assert((self@, Err::<(), Chip8Error>(e)) == spec_tick(old(self)@, rng_witness));
                }
                return Err(e);
            },
        };
        proof {
            assert(self@.pc == m2.pc);
        }
        self.pc = match directive {
            NextInstruction::Next => self.pc,
            NextInstruction::Skip => self.pc + 2,
            NextInstruction::Jump(addr) => addr,
            NextInstruction::Stay => self.pc - 2,
        };
        proof {
            let spec_result = spec_tick(old(self)@, rng_witness);
            assert(self@ =~= spec_result.0);
            assert(spec_result.1 == Ok::<(), Chip8Error>(()));
        }
        Ok(())
    }

    /// Read general-purpose register VX.
    pub fn get_register(&self, x: usize) -> (r: u8)
        requires
            self.wf(),
            x < 16,
        ensures
            r == self@.v[x as int],
    {
        self.v[x]
    }

    /// Read the index register I.
    pub fn get_index(&self) -> (r: u16)
        ensures
            r == self@.index,
    {
        self.i
    }

    /// Read the program counter.
    pub fn get_program_counter(&self) -> (r: u16)
        ensures
            r == self@.pc,
    {
        self.pc
    }

    /// Read the delay timer.
    pub fn get_delay_timer(&self) -> (r: u8)
        ensures
            r == self@.delay,
    {
        self.delay_timer
    }

    /// Read the sound timer.
    pub fn get_sound_timer(&self) -> (r: u8)
        ensures
            r == self@.sound,
    {
        self.sound_timer
    }

    /// Read one memory byte.
    pub fn read_memory(&self, address: usize) -> (r: u8)
        requires
            self.wf(),
            address < 4096,
        ensures
            r == self@.memory[address as int],
    {
        self.memory[address]
    }

    /// Read one display cell by its row-major index.
    pub fn get_pixel(&self, index: usize) -> (r: bool)
        requires
            self.wf(),
            index < 2048,
        ensures
            r == self@.screen[index as int],
    {
        self.screen[index]
    }

    /// 00EE - return from the pending call.
    fn execute_00ee(&mut self) -> (r: Result<NextInstruction, Chip8Error>)
        requires
            old(self).wf(),
        ensures
            final(self).wf(),
            match spec_execute_00ee(old(self)@) {
                Ok(p) => r == Ok::<NextInstruction, Chip8Error>(p.1) && final(self)@ == p.0,
                Err(e) => r == Err::<NextInstruction, Chip8Error>(e) && final(self)@ == old(
                    self,
                )@,
            },
    {
        match stack_pop(&mut self.stack) {
            Some(address) => {
                proof {
                    assert(self@ =~= (MachineView {
                        stack: old(self)@.stack.drop_last(),
                        ..old(self)@
                    }));
                }
                Ok(NextInstruction::Jump(address))
            },
            None => {
                proof {
                    assert(self@ =~= old(self)@);
                }
                Err(Chip8Error::StackUnderflow)
            },
        }
    }

    /// 1NNN - jump.
    fn execute_1nnn(&self, nnn: u16) -> (r: NextInstruction)
        ensures
            r == NextInstruction::Jump(nnn),
    {
        NextInstruction::Jump(nnn)
    }

    /// 2NNN - call: push the current (already advanced) program counter,
    /// then jump.
    fn execute_2nnn(&mut self, nnn: u16) -> (r: Result<NextInstruction, Chip8Error>)
        requires
            old(self).wf(),
        ensures
            final(self).wf(),
            match spec_execute_2nnn(old(self)@, nnn) {
                Ok(p) => r == Ok::<NextInstruction, Chip8Error>(p.1) && final(self)@ == p.0,
                Err(e) => r == Err::<NextInstruction, Chip8Error>(e) && final(self)@ == old(
                    self,
                )@,
            },
    {
        let pc = self.pc;
        if stack_try_push(&mut self.stack, pc) {
            proof {
                assert(self@ =~= (MachineView { stack: old(self)@.stack.push(pc), ..old(self)@ }));
            }
            Ok(NextInstruction::Jump(nnn))
        } else {
            proof {
                assert(self@ =~= old(self)@);
            }
            Err(Chip8Error::StackOverflow)
        }
    }

    /// 3XNN - skip when VX equals the immediate.
    fn execute_3xnn(&self, x: usize, nn: u8) -> (r: NextInstruction)
        requires
            self.wf(),
            x < 16,
        ensures
            r == spec_skip_if(self@.v[x as int] == nn),
    {
        NextInstruction::skip_if(self.v[x] == nn)
    }

    /// 4XNN - skip when VX differs from the immediate.
    fn execute_4xnn(&self, x: usize, nn: u8) -> (r: NextInstruction)
        requires
            self.wf(),
            x < 16,
        ensures
            r == spec_skip_if(self@.v[x as int] != nn),
    {
        NextInstruction::skip_if(self.v[x] != nn)
    }

    /// 5XY0 - skip when VX equals VY.
    fn execute_5xy0(&self, x: usize, y: usize) -> (r: NextInstruction)
        requires
            self.wf(),
            x < 16,
            y < 16,
        ensures
            r == spec_skip_if(self@.v[x as int] == self@.v[y as int]),
    {
        NextInstruction::skip_if(self.v[x] == self.v[y])
    }

    /// 9XY0 - skip when VX differs from VY.
    fn execute_9xy0(&self, x: usize, y: usize) -> (r: NextInstruction)
        requires
            self.wf(),
            x < 16,
            y < 16,
        ensures
            r == spec_skip_if(self@.v[x as int] != self@.v[y as int]),
    {
        NextInstruction::skip_if(self.v[x] != self.v[y])
    }

    /// 6XNN - set register VX to the immediate.
    fn execute_6xnn(&mut self, x: usize, nn: u8) -> (r: NextInstruction)
        requires
            old(self).wf(),
            x < 16,
        ensures
            final(self).wf(),
            final(self)@ == old(self)@.with_v(x as int, nn),
            r == NextInstruction::Next,
    {
        self.v.set(x, nn);
        proof {
            assert(self@ =~= old(self)@.with_v(x as int, nn));
        }
        NextInstruction::Next
    }

    /// 7XNN - add the immediate to VX, wrapping, with no flag side effect.
    fn execute_7xnn(&mut self, x: usize, nn: u8) -> (r: NextInstruction)
        requires
            old(self).wf(),
            x < 16,
        ensures
            final(self).wf(),
            final(self)@ == spec_execute_7xnn(old(self)@, x as int, nn),
            r == NextInstruction::Next,
    {
        let value = self.v[x].wrapping_add(nn);
        self.v.set(x, value);
        proof {
            assert(self@ =~= spec_execute_7xnn(old(self)@, x as int, nn));
        }
        NextInstruction::Next
    }

    /// 8XY0 - copy VY into VX.
    fn execute_8xy0(&mut self, x: usize, y: usize) -> (r: NextInstruction)
        requires
            old(self).wf(),
            x < 16,
            y < 16,
        ensures
            final(self).wf(),
            final(self)@ == old(self)@.with_v(x as int, old(self)@.v[y as int]),
            r == NextInstruction::Next,
    {
        let value = self.v[y];
        self.v.set(x, value);
        proof {
            assert(self@ =~= old(self)@.with_v(x as int, old(self)@.v[y as int]));
        }
        NextInstruction::Next
    }

    /// 8XY1 - OR VY into VX; VF is zeroed as a documented engine quirk.
    fn execute_8xy1(&mut self, x: usize, y: usize) -> (r: NextInstruction)
        requires
            old(self).wf(),
            x < 16,
            y < 16,
        ensures
            final(self).wf(),
            final(self)@ == spec_execute_8xy1(old(self)@, x as int, y as int),
            r == NextInstruction::Next,
    {
        let value = self.v[x] | self.v[y];
        self.v.set(x, value);
        self.v.set(15, 0);
        proof {
            assert(self@ =~= spec_execute_8xy1(old(self)@, x as int, y as int));
        }
        NextInstruction::Next
    }

    /// 8XY2 - AND VY into VX; VF is zeroed as a documented engine quirk.
    fn execute_8xy2(&mut self, x: usize, y: usize) -> (r: NextInstruction)
        requires
            old(self).wf(),
            x < 16,
            y < 16,
        ensures
            final(self).wf(),
            final(self)@ == spec_execute_8xy2(old(self)@, x as int, y as int),
            r == NextInstruction::Next,
    {
        let value = self.v[x] & self.v[y];
        self.v.set(x, value);
        self.v.set(15, 0);
        proof {
            assert(self@ =~= spec_execute_8xy2(old(self)@, x as int, y as int));
        }
        NextInstruction::Next
    }

    /// 8XY3 - XOR VY into VX; VF is zeroed as a documented engine quirk.
    fn execute_8xy3(&mut self, x: usize, y: usize) -> (r: NextInstruction)
        requires
            old(self).wf(),
            x < 16,
            y < 16,
        ensures
            final(self).wf(),
            final(self)@ == spec_execute_8xy3(old(self)@, x as int, y as int),
            r == NextInstruction::Next,
    {
        let value = self.v[x] ^ self.v[y];
        self.v.set(x, value);
        self.v.set(15, 0);
        proof {
            assert(self@ =~= spec_execute_8xy3(old(self)@, x as int, y as int));
        }
        NextInstruction::Next
    }

    /// 8XY4 - add VY into VX with carry: VF becomes 1 exactly when the
    /// unsigned sum exceeds 255.
    fn execute_8xy4(&mut self, x: usize, y: usize) -> (r: NextInstruction)
        requires
            old(self).wf(),
            x < 16,
            y < 16,
        ensures
            final(self).wf(),
            final(self)@ == spec_execute_8xy4(old(self)@, x as int, y as int),
            final(self)@.v[15] == if old(self)@.v[x as int] + old(self)@.v[y as int] > 255 {
                1u8
            } else {
                0u8
            },
            x != 15 ==> final(self)@.v[x as int] == (old(self)@.v[x as int] + old(
                self,
            )@.v[y as int]) % 256,
            r == NextInstruction::Next,
    {
        let vx = self.v[x];
        let vy = self.v[y];
        let sum = vx as u16 + vy as u16;
        self.v.set(x, (sum % 256) as u8);
        self.v.set(15, if sum > 255 { 1 } else { 0 });
        proof {
            assert(self@ =~= spec_execute_8xy4(old(self)@, x as int, y as int));
        }
        NextInstruction::Next
    }

    /// 8XY5 - subtract VY from VX: VF becomes 0 exactly on borrow, else 1.
    fn execute_8xy5(&mut self, x: usize, y: usize) -> (r: NextInstruction)
        requires
            old(self).wf(),
            x < 16,
            y < 16,
        ensures
            final(self).wf(),
            final(self)@ == spec_execute_8xy5(old(self)@, x as int, y as int),
            final(self)@.v[15] == if old(self)@.v[x as int] < old(self)@.v[y as int] {
                0u8
            } else {
                1u8
            },
            r == NextInstruction::Next,
    {
        let vx = self.v[x];
        let vy = self.v[y];
        let difference = if vx >= vy {
            vx - vy
        } else {
            ((vx as u16 + 256) - vy as u16) as u8
        };
        self.v.set(x, difference);
        self.v.set(15, if vx < vy { 0 } else { 1 });
        proof {
            assert(self@ =~= spec_execute_8xy5(old(self)@, x as int, y as int));
        }
        NextInstruction::Next
    }

    /// 8XY6 - copy VY into VX, then shift VX right by one; VF receives the
    /// bit shifted out (bit 0 of the source).
    fn execute_8xy6(&mut self, x: usize, y: usize) -> (r: NextInstruction)
        requires
            old(self).wf(),
            x < 16,
            y < 16,
        ensures
            final(self).wf(),
            final(self)@ == spec_execute_8xy6(old(self)@, x as int, y as int),
            final(self)@.v[15] == old(self)@.v[y as int] % 2,
            x != 15 ==> final(self)@.v[x as int] == old(self)@.v[y as int] / 2,
            r == NextInstruction::Next,
    {
        let vy = self.v[y];
        let rotated_bit = vy & 0x1;
        let shifted = vy >> 1u8;
        proof {
            assert(vy & 0x1 == vy % 2 && vy >> 1u8 == vy / 2) by (bit_vector);
        }
        self.v.set(x, shifted);
        self.v.set(15, rotated_bit);
        proof {
            assert(self@ =~= spec_execute_8xy6(old(self)@, x as int, y as int));
        }
        NextInstruction::Next
    }

    /// 8XY7 - subtract VX from VY into VX: VF becomes 0 exactly on borrow,
    /// else 1.
    fn execute_8xy7(&mut self, x: usize, y: usize) -> (r: NextInstruction)
        requires
            old(self).wf(),
            x < 16,
            y < 16,
        ensures
            final(self).wf(),
            final(self)@ == spec_execute_8xy7(old(self)@, x as int, y as int),
            final(self)@.v[15] == if old(self)@.v[y as int] < old(self)@.v[x as int] {
                0u8
            } else {
                1u8
            },
            r == NextInstruction::Next,
    {
        let vx = self.v[x];
        let vy = self.v[y];
        let difference = if vy >= vx {
            vy - vx
        } else {
            ((vy as u16 + 256) - vx as u16) as u8
        };
        self.v.set(x, difference);
        self.v.set(15, if vy < vx { 0 } else { 1 });
        proof {
            assert(self@ =~= spec_execute_8xy7(old(self)@, x as int, y as int));
        }
        NextInstruction::Next
    }

    /// 8XYE - copy VY into VX, then shift VX left by one; VF receives the
    /// bit shifted out (bit 7 of the source).
    fn execute_8xye(&mut self, x: usize, y: usize) -> (r: NextInstruction)
        requires
            old(self).wf(),
            x < 16,
            y < 16,
        ensures
            final(self).wf(),
            final(self)@ == spec_execute_8xye(old(self)@, x as int, y as int),
            final(self)@.v[15] == old(self)@.v[y as int] / 128,
            x != 15 ==> final(self)@.v[x as int] == (old(self)@.v[y as int] * 2) % 256,
            r == NextInstruction::Next,
    {
        let vy = self.v[y];
        let rotated_bit = (vy >> 7u8) & 0b1;
        let shifted = vy << 1u8;
        proof {
            assert((vy >> 7u8) & 0b1 == vy / 128 && vy << 1u8 == (vy * 2) % 256) by (bit_vector);
        }
        self.v.set(x, shifted);
        self.v.set(15, rotated_bit);
        proof {
            assert(self@ =~= spec_execute_8xye(old(self)@, x as int, y as int));
        }
        NextInstruction::Next
    }

    /// ANNN - set the index register.
    fn execute_annn(&mut self, nnn: u16) -> (r: NextInstruction)
        requires
            old(self).wf(),
        ensures
            final(self).wf(),
            final(self)@ == old(self)@.with_index(nnn),
            r == NextInstruction::Next,
    {
        self.i = nnn;
        proof {
            assert(self@ =~= old(self)@.with_index(nnn));
        }
        NextInstruction::Next
    }

    /// BNNN - jump to the address immediate offset by V0.
    fn execute_bnnn(&self, nnn: u16) -> (r: NextInstruction)
        requires
            self.wf(),
            nnn < 4096,
        ensures
            r == NextInstruction::Jump(((nnn + self@.v[0]) as u16)),
    {
        NextInstruction::Jump(nnn + self.v[0] as u16)
    }

    /// CXNN - mask a random byte with the immediate into VX. The byte comes
    /// from the host's randomness and is handed in by `tick`; the contract
    /// holds for every byte.
    fn execute_cxnn(&mut self, x: usize, nn: u8, random: u8) -> (r: NextInstruction)
        requires
            old(self).wf(),
            x < 16,
        ensures
            final(self).wf(),
            final(self)@ == spec_execute_cxnn(old(self)@, x as int, nn, random),
            r == NextInstruction::Next,
    {
        self.v.set(x, random & nn);
        proof {
            assert(self@ =~= spec_execute_cxnn(old(self)@, x as int, nn, random));
        }
        NextInstruction::Next
    }

    /// EX9E - skip when the key named by VX is down. A register value that
    /// names no key (16 or above) counts as not down.
    fn execute_ex9e(&self, x: usize) -> (r: NextInstruction)
        requires
            self.wf(),
            x < 16,
        ensures
            r == spec_skip_if(spec_key_down(self@.keys_current, self@.v[x as int])),
    {
        let key = self.v[x];
        let down = if key < 16 {
            self.keypad.current_frame_keys[key as usize]
        } else {
            false
        };
        NextInstruction::skip_if(down)
    }

    /// EXA1 - skip when the key named by VX is not down. A register value
    /// that names no key (16 or above) counts as not down.
    fn execute_exa1(&self, x: usize) -> (r: NextInstruction)
        requires
            self.wf(),
            x < 16,
        ensures
            r == spec_skip_if(!spec_key_down(self@.keys_current, self@.v[x as int])),
    {
        let key = self.v[x];
        let down = if key < 16 {
            self.keypad.current_frame_keys[key as usize]
        } else {
            false
        };
        NextInstruction::skip_if(!down)
    }

    /// FX07 - read the delay timer into VX.
    fn execute_fx07(&mut self, x: usize) -> (r: NextInstruction)
        requires
            old(self).wf(),
            x < 16,
        ensures
            final(self).wf(),
            final(self)@ == old(self)@.with_v(x as int, old(self)@.delay),
            r == NextInstruction::Next,
    {
        let value = self.delay_timer;
        self.v.set(x, value);
        proof {
            assert(self@ =~= old(self)@.with_v(x as int, old(self)@.delay));
        }
        NextInstruction::Next
    }

    /// FX15 - write VX into the delay timer.
    fn execute_fx15(&mut self, x: usize) -> (r: NextInstruction)
        requires
            old(self).wf(),
            x < 16,
        ensures
            final(self).wf(),
            final(self)@ == (MachineView { delay: old(self)@.v[x as int], ..old(self)@ }),
            r == NextInstruction::Next,
    {
        self.delay_timer = self.v[x];
        proof {
            assert(self@ =~= (MachineView { delay: old(self)@.v[x as int], ..old(self)@ }));
        }
        NextInstruction::Next
    }

    /// FX18 - write VX into the sound timer.
    fn execute_fx18(&mut self, x: usize) -> (r: NextInstruction)
        requires
            old(self).wf(),
            x < 16,
        ensures
            final(self).wf(),
            final(self)@ == (MachineView { sound: old(self)@.v[x as int], ..old(self)@ }),
            r == NextInstruction::Next,
    {
        self.sound_timer = self.v[x];
        proof {
            assert(self@ =~= (MachineView { sound: old(self)@.v[x as int], ..old(self)@ }));
        }
        NextInstruction::Next
    }

    /// FX1E - add VX into the index register, wrapping, with no flag side
    /// effect.
    fn execute_fx1e(&mut self, x: usize) -> (r: NextInstruction)
        requires
            old(self).wf(),
            x < 16,
        ensures
            final(self).wf(),
            final(self)@ == spec_execute_fx1e(old(self)@, x as int),
            r == NextInstruction::Next,
    {
        self.i = self.i.wrapping_add(self.v[x] as u16);
        proof {
            assert(self@ =~= spec_execute_fx1e(old(self)@, x as int));
        }
        NextInstruction::Next
    }

    /// FX0A - block until a key press: when a key was pressed this frame,
    /// write the lowest such index into VX and move on; otherwise stay on
    /// this instruction so it is fetched again next step.
    fn execute_fx0a(&mut self, x: usize) -> (r: NextInstruction)
        requires
            old(self).wf(),
            x < 16,
        ensures
            final(self).wf(),
            final(self)@ == spec_execute_fx0a(old(self)@, x as int).0,
            r == spec_execute_fx0a(old(self)@, x as int).1,
    {
        if let Some(key) = self.keypad.first_pressed_keypress() {
            self.v.set(x, key as u8);
            proof {
                assert(self@ =~= spec_execute_fx0a(old(self)@, x as int).0);
            }
            NextInstruction::Next
        } else {
            NextInstruction::Stay
        }
    }

    /// 00E0 - clear the screen: every display cell off, redraw flagged.
    fn execute_00e0(&mut self) -> (r: NextInstruction)
        requires
            old(self).wf(),
        ensures
            final(self).wf(),
            final(self)@ == spec_execute_00e0(old(self)@),
            r == NextInstruction::Next,
    {
        let mut k: usize = 0;
        while k < PIXELS_PER_SCREEN
            invariant
                0 <= k <= 2048,
                self.screen@.len() == 2048,
                forall|j: int| 0 <= j < k ==> !self.screen@[j],
                (self@ == (MachineView { screen: self@.screen, ..old(self)@ })),
            decreases 2048 - k,
        {
            self.screen.set(k, false);
            k = k + 1;
        }
        self.should_redraw = true;
        proof {
            assert(self@.screen =~= Seq::new(2048, |j: int| false));
            assert(self@ =~= spec_execute_00e0(old(self)@));
        }
        NextInstruction::Next
    }

    /// FX33 - write the three decimal digits of VX to memory at I, I+1,
    /// I+2, most significant first; the index register is not moved.
    fn execute_fx33(&mut self, x: usize) -> (r: Result<NextInstruction, Chip8Error>)
        requires
            old(self).wf(),
            x < 16,
        ensures
            final(self).wf(),
            match spec_execute_fx33(old(self)@, x as int) {
                Ok(p) => r == Ok::<NextInstruction, Chip8Error>(p.1) && final(self)@ == p.0,
                Err(e) => r == Err::<NextInstruction, Chip8Error>(e) && final(self)@ == old(
                    self,
                )@,
            },
    {
        let i = self.i as usize;
        if i + 3 > RAM_SIZE {
            return Err(Chip8Error::MemoryRangeOutOfBounds);
        }
        let digits = crate::decode::convert_to_binary_coded_decimal(self.v[x]);
        self.memory.set(i, digits[0]);
        self.memory.set(i + 1, digits[1]);
        self.memory.set(i + 2, digits[2]);
        proof {
            let m = old(self)@;
            let spec_digits = crate::decode::spec_bcd(m.v[x as int]);
            assert(self@.memory =~= m.memory.update(m.index as int, spec_digits[0]).update(
                m.index as int + 1,
                spec_digits[1],
            ).update(m.index as int + 2, spec_digits[2]));
            assert(self@ =~= (MachineView { memory: self@.memory, ..m }));
        }
        Ok(NextInstruction::Next)
    }

    /// FX55 - store V0 through VX to memory at I, then advance I by X+1.
    fn execute_fx55(&mut self, x: usize) -> (r: Result<NextInstruction, Chip8Error>)
        requires
            old(self).wf(),
            x < 16,
        ensures
            final(self).wf(),
            match spec_execute_fx55(old(self)@, x as int) {
                Ok(p) => r == Ok::<NextInstruction, Chip8Error>(p.1) && final(self)@ == p.0,
                Err(e) => r == Err::<NextInstruction, Chip8Error>(e) && final(self)@ == old(
                    self,
                )@,
            },
    {
        let i = self.i as usize;
        if i + x + 1 > RAM_SIZE {
            return Err(Chip8Error::MemoryRangeOutOfBounds);
        }
        let mut k: usize = 0;
        while k <= x
            invariant
                0 <= k <= x + 1,
                x < 16,
                i == old(self)@.index,
                i + x + 1 <= 4096,
                self.memory@.len() == 4096,
                self.v@ == old(self)@.v,
                self.v@.len() == 16,
                forall|j: int| i <= j < i + k ==> self.memory@[j] == old(self)@.v[j - i],
                forall|j: int|
                    (0 <= j < i || i + k <= j < 4096) ==> self.memory@[j] == old(self)@.memory[j],
                (self@ == (MachineView { memory: self@.memory, ..old(self)@ })),
            decreases x + 1 - k,
        {
            let value = self.v[k];
            self.memory.set(i + k, value);
            k = k + 1;
        }
        self.i = self.i + (x as u16) + 1;
        proof {
            let m = old(self)@;
            assert(self@.memory =~= spec_store_regs(m.memory, m.v, m.index as int, x as int));
            assert(self@ =~= (MachineView {
                memory: spec_store_regs(m.memory, m.v, m.index as int, x as int),
                index: (m.index + x + 1) as u16,
                ..m
            }));
        }
        Ok(NextInstruction::Next)
    }

    /// FX65 - load V0 through VX from memory at I, then advance I by X+1.
    fn execute_fx65(&mut self, x: usize) -> (r: Result<NextInstruction, Chip8Error>)
        requires
            old(self).wf(),
            x < 16,
        ensures
            final(self).wf(),
            match spec_execute_fx65(old(self)@, x as int) {
                Ok(p) => r == Ok::<NextInstruction, Chip8Error>(p.1) && final(self)@ == p.0,
                Err(e) => r == Err::<NextInstruction, Chip8Error>(e) && final(self)@ == old(
                    self,
                )@,
            },
    {
        let i = self.i as usize;
        if i + x + 1 > RAM_SIZE {
            return Err(Chip8Error::MemoryRangeOutOfBounds);
        }
        let mut k: usize = 0;
        while k <= x
            invariant
                0 <= k <= x + 1,
                x < 16,
                i == old(self)@.index,
                i + x + 1 <= 4096,
                self.memory@ == old(self)@.memory,
                self.memory@.len() == 4096,
                self.v@.len() == 16,
                forall|j: int| 0 <= j < k ==> self.v@[j] == old(self)@.memory[i + j],
                forall|j: int| k <= j < 16 ==> self.v@[j] == old(self)@.v[j],
                (self@ == (MachineView { v: self@.v, ..old(self)@ })),
            decreases x + 1 - k,
        {
            let value = self.memory[i + k];
            self.v.set(k, value);
            k = k + 1;
        }
        self.i = self.i + (x as u16) + 1;
        proof {
            let m = old(self)@;
            assert(self@.v =~= spec_load_regs(m.v, m.memory, m.index as int, x as int));
            assert(self@ =~= (MachineView {
                v: spec_load_regs(m.v, m.memory, m.index as int, x as int),
                index: (m.index + x + 1) as u16,
                ..m
            }));
        }
        Ok(NextInstruction::Next)
    }

    /// DXYN - XOR-blit an `n`-row, 8-column sprite from memory at I onto
    /// the display at (VX mod 64, VY mod 32), clipped at the right and
    /// bottom edges; VF reports whether any drawn bit met a pixel that was
    /// already on.
    fn execute_dxyn(&mut self, x: usize, y: usize, n: u8) -> (r: Result<
        NextInstruction,
        Chip8Error,
    >)
        requires
            old(self).wf(),
            x < 16,
            y < 16,
        ensures
            final(self).wf(),
            match spec_execute_dxyn(old(self)@, x as int, y as int, n) {
                Ok(p) => r == Ok::<NextInstruction, Chip8Error>(p.1) && final(self)@ == p.0,
                Err(e) => r == Err::<NextInstruction, Chip8Error>(e) && final(self)@ == old(
                    self,
                )@,
            },
    {
        let i0 = (self.v[y] % 32) as usize;
        let j0 = (self.v[x] % 64) as usize;
        let rows = if (n as usize) <= 32 - i0 {
            n as usize
        } else {
            32 - i0
        };
        let cols = if 8 <= 64 - j0 {
            8
        } else {
            64 - j0
        };
        let base = self.i as usize;
        if rows > 0 && base + rows > RAM_SIZE {
            return Err(Chip8Error::MemoryRangeOutOfBounds);
        }
        self.v.set(15, 0);
        let ghost m0 = old(self)@;
        let mut r_idx: usize = 0;
        while r_idx < rows
            invariant
                0 <= r_idx <= rows,
                i0 < 32,
                j0 < 64,
                i0 + rows <= 32,
                1 <= cols <= 8,
                j0 + cols <= 64,
                cols as int == (if 8 <= 64 - j0 as int {
                    8int
                } else {
                    64 - j0 as int
                }),
                rows > 0 ==> base + rows <= 4096,
                base == m0.index,
                m0 == old(self)@,
                m0.inv(),
                self.memory@ == m0.memory,
                self.screen@.len() == 2048,
                self.v@.len() == 16,
                ({
                    let blit = crate::draw::spec_blit_sprite(
                        m0.screen,
                        m0.memory,
                        base as int,
                        i0 as int,
                        j0 as int,
                        cols as int,
                        r_idx as int,
                    );
                    self.screen@ == blit.0 && self.v@ == m0.v.update(
                        15,
                        if blit.1 {
                            1u8
                        } else {
                            0u8
                        },
                    )
                }),
                (self@ == (MachineView { screen: self@.screen, v: self@.v, ..m0 })),
            decreases rows - r_idx,
        {
            let sprite_byte = self.memory[base + r_idx];
            let ghost pre = crate::draw::spec_blit_sprite(
                m0.screen,
                m0.memory,
                base as int,
                i0 as int,
                j0 as int,
                cols as int,
                r_idx as int,
            );
            let mut c: usize = 0;
            while c < cols
                invariant
                    0 <= c <= cols,
                    r_idx < rows,
                    i0 < 32,
                    j0 < 64,
                    i0 + rows <= 32,
                    1 <= cols <= 8,
                    j0 + cols <= 64,
                    rows > 0 ==> base + rows <= 4096,
                    base == m0.index,
                    m0 == old(self)@,
                    m0.inv(),
                    self.memory@ == m0.memory,
                    self.screen@.len() == 2048,
                    self.v@.len() == 16,
                    sprite_byte == m0.memory[base + r_idx],
                    pre == crate::draw::spec_blit_sprite(
                        m0.screen,
                        m0.memory,
                        base as int,
                        i0 as int,
                        j0 as int,
                        cols as int,
                        r_idx as int,
                    ),
                    pre.0.len() == 2048,
                    ({
                        let rowb = crate::draw::spec_blit_row(
                            pre.0,
                            sprite_byte,
                            i0 + r_idx,
                            j0 as int,
                            c as int,
                        );
                        self.screen@ == rowb.0 && self.v@ == m0.v.update(
                            15,
                            if pre.1 || rowb.1 {
                                1u8
                            } else {
                                0u8
                            },
                        )
                    }),
                    (self@ == (MachineView { screen: self@.screen, v: self@.v, ..m0 })),
                decreases cols - c,
            {
                let ghost rowb = crate::draw::spec_blit_row(
                    pre.0,
                    sprite_byte,
                    i0 + r_idx,
                    j0 as int,
                    c as int,
                );
                let sprite_pixel = (sprite_byte >> ((7 - c) as u8)) & 1;
                let pixel_index = (i0 + r_idx) * 64 + (j0 + c);
                let screen_pixel = self.screen[pixel_index];
                proof {
                    assert(sprite_pixel == 1 <==> crate::draw::spec_sprite_bit(
                        sprite_byte,
                        c as int,
                    ));
                }
                if sprite_pixel == 1 {
                    if screen_pixel {
                        self.v.set(15, 1);
                    }
                    self.screen.set(pixel_index, !screen_pixel);
                }
                proof {
                    let rowb2 = crate::draw::spec_blit_row(
                        pre.0,
                        sprite_byte,
                        i0 + r_idx,
                        j0 as int,
                        c as int + 1,
                    );
                    assert(self.screen@ == rowb2.0 && self.v@ == m0.v.update(
                        15,
                        if pre.1 || rowb2.1 {
                            1u8
                        } else {
                            0u8
                        },
                    ));
                }
                c = c + 1;
            }
            proof {
                let next = crate::draw::spec_blit_sprite(
                    m0.screen,
                    m0.memory,
                    base as int,
                    i0 as int,
                    j0 as int,
                    cols as int,
                    r_idx as int + 1,
                );
                assert(self.screen@ == next.0 && self.v@ == m0.v.update(
                    15,
                    if next.1 {
                        1u8
                    } else {
                        0u8
                    },
                ));
            }
            r_idx = r_idx + 1;
        }
        self.should_redraw = true;
        proof {
            let blit = crate::draw::spec_blit_sprite(
                m0.screen,
                m0.memory,
                m0.index as int,
                i0 as int,
                j0 as int,
                cols as int,
                rows as int,
            );
            assert(self@ =~= (MachineView {
                screen: blit.0,
                v: m0.v.update(
                    15,
                    if blit.1 {
                        1u8
                    } else {
                        0u8
                    },
                ),
                should_redraw: true,
                ..m0
            }));
        }
        Ok(NextInstruction::Next)
    }

    /// FX29 - point the index register at the font glyph of the digit in
    /// VX: the font base plus five bytes per digit.
    fn execute_fx29(&mut self, x: usize) -> (r: NextInstruction)
        requires
            old(self).wf(),
            x < 16,
        ensures
            final(self).wf(),
            final(self)@ == spec_execute_fx29(old(self)@, x as int),
            r == NextInstruction::Next,
    {
        let vx = self.v[x];
        self.i = FONT_INITIAL_POSITION as u16 + (vx as u16) * 5;
        proof {
            assert(self@ =~= spec_execute_fx29(old(self)@, x as int));
        }
        NextInstruction::Next
    }
}

} // verus!
