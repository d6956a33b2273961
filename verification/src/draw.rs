//! The sprite-blit model: XOR compositing of an 8-column sprite onto the
//! display, with collision detection. `spec_blit_row` and `spec_blit_sprite`
//! define, bit by bit and row by row, exactly what the draw opcode does; the
//! lemmas characterise the result pixel-wise and give the draw-twice law.

use vstd::prelude::*;

verus! {

/// Bit `c` of a sprite byte, counting from the most significant bit: the
/// leftmost pixel of a sprite row is bit 0.
pub open spec fn spec_sprite_bit(byte: u8, c: int) -> bool {
    (byte >> ((7 - c) as u8)) & 1 == 1
}

/// The display and collision flag after XOR-blitting the first `cols` bits
/// of one sprite byte onto row `row` starting at column `j0`. Set bits
/// toggle their pixel; the collision flag reports whether any toggled pixel
/// was already on.
pub open spec fn spec_blit_row(
    screen: Seq<bool>,
    byte: u8,
    row: int,
    j0: int,
    cols: int,
) -> (Seq<bool>, bool)
    decreases cols,
{
    if cols <= 0 {
        (screen, false)
    } else {
        let prev = spec_blit_row(screen, byte, row, j0, cols - 1);
        let c = cols - 1;
        if spec_sprite_bit(byte, c) {
            let idx = row * 64 + j0 + c;
            (prev.0.update(idx, !prev.0[idx]), prev.1 || prev.0[idx])
        } else {
            prev
        }
    }
}

/// The display and collision flag after XOR-blitting the first `rows` sprite
/// bytes at `base` in memory, each `cols` bits wide, starting at pixel
/// (`i0`, `j0`). The collision flag is the disjunction over all rows.
pub open spec fn spec_blit_sprite(
    screen: Seq<bool>,
    mem: Seq<u8>,
    base: int,
    i0: int,
    j0: int,
    cols: int,
    rows: int,
) -> (Seq<bool>, bool)
    decreases rows,
{
    if rows <= 0 {
        (screen, false)
    } else {
        let prev = spec_blit_sprite(screen, mem, base, i0, j0, cols, rows - 1);
        let this = spec_blit_row(prev.0, mem[base + rows - 1], i0 + rows - 1, j0, cols);
        (this.0, prev.1 || this.1)
    }
}

/// Pixel-wise characterisation of one blitted row: pixels outside the
/// affected span keep their value, each affected pixel is XOR-ed with its
/// sprite bit, and the collision flag holds exactly when a set sprite bit
/// met a pixel that was already on.
pub proof fn lemma_blit_row_pixels(screen: Seq<bool>, byte: u8, row: int, j0: int, cols: int)
    requires
        screen.len() == 2048,
        0 <= row < 32,
        0 <= j0,
        0 <= cols,
        j0 + cols <= 64,
    ensures
        spec_blit_row(screen, byte, row, j0, cols).0.len() == 2048,
        forall|idx: int|
            0 <= idx < 2048 && !(row * 64 + j0 <= idx < row * 64 + j0 + cols) ==> spec_blit_row(
                screen,
                byte,
                row,
                j0,
                cols,
            ).0[idx] == screen[idx],
        forall|c: int|
            0 <= c < cols ==> spec_blit_row(screen, byte, row, j0, cols).0[row * 64 + j0 + c] == (
            screen[row * 64 + j0 + c] != spec_sprite_bit(byte, c)),
        spec_blit_row(screen, byte, row, j0, cols).1 == exists|c: int|
            0 <= c < cols && spec_sprite_bit(byte, c) && screen[row * 64 + j0 + c],
    decreases cols,
{
    if cols > 0 {
        lemma_blit_row_pixels(screen, byte, row, j0, cols - 1);
        let prev = spec_blit_row(screen, byte, row, j0, cols - 1);
        let c = cols - 1;
        let idx = row * 64 + j0 + c;
        assert(prev.0[idx] == screen[idx]);
        if spec_blit_row(screen, byte, row, j0, cols).1 {
            if prev.1 {
                let w = choose|w: int|
                    0 <= w < cols - 1 && spec_sprite_bit(byte, w) && screen[row * 64 + j0 + w];
                assert(0 <= w < cols && spec_sprite_bit(byte, w) && screen[row * 64 + j0 + w]);
            } else {
                assert(spec_sprite_bit(byte, c) && screen[idx]);
            }
        }
        if exists|w: int| 0 <= w < cols && spec_sprite_bit(byte, w) && screen[row * 64 + j0 + w] {
            let w = choose|w: int|
                0 <= w < cols && spec_sprite_bit(byte, w) && screen[row * 64 + j0 + w];
            if w < cols - 1 {
                assert(prev.1);
            }
        }
    }
}

/// Blitting the same sprite row twice restores every pixel: XOR is an
/// involution, so the second draw undoes the first.
pub proof fn lemma_blit_row_twice_restores(
    screen: Seq<bool>,
    byte: u8,
    row: int,
    j0: int,
    cols: int,
)
    requires
        screen.len() == 2048,
        0 <= row < 32,
        0 <= j0,
        0 <= cols,
        j0 + cols <= 64,
    ensures
        spec_blit_row(spec_blit_row(screen, byte, row, j0, cols).0, byte, row, j0, cols).0
            == screen,
{
    let first = spec_blit_row(screen, byte, row, j0, cols);
    let second = spec_blit_row(first.0, byte, row, j0, cols);
    lemma_blit_row_pixels(screen, byte, row, j0, cols);
    lemma_blit_row_pixels(first.0, byte, row, j0, cols);
    assert forall|idx: int| 0 <= idx < 2048 implies second.0[idx] == screen[idx] by {
        if row * 64 + j0 <= idx < row * 64 + j0 + cols {
            let c = idx - (row * 64 + j0);
            assert(first.0[idx] == (screen[idx] != spec_sprite_bit(byte, c)));
            assert(second.0[idx] == (first.0[idx] != spec_sprite_bit(byte, c)));
        }
    }
    assert(second.0 =~= screen);
}

/// The draw-collision law for a full 8-by-1 sprite: on a span of pixels that
/// are all off, the first draw turns every affected pixel on and reports no
/// collision, and drawing the same sprite again at the same coordinate
/// toggles all affected pixels back off and reports a collision.
pub proof fn lemma_draw_twice_collides(
    screen: Seq<bool>,
    mem: Seq<u8>,
    base: int,
    i0: int,
    j0: int,
)
    requires
        screen.len() == 2048,
        0 <= i0 < 32,
        0 <= j0 < 64,
        0 <= base < mem.len(),
        mem[base] == 0xFF,
        forall|c: int|
            0 <= c < (if 8 <= 64 - j0 {
                8int
            } else {
                64 - j0
            }) ==> !#[trigger] screen[i0 * 64 + j0 + c],
    ensures
        ({
            let cols = if 8 <= 64 - j0 {
                8int
            } else {
                64 - j0
            };
            let first = spec_blit_sprite(screen, mem, base, i0, j0, cols, 1);
            let second = spec_blit_sprite(first.0, mem, base, i0, j0, cols, 1);
            &&& !first.1
            &&& forall|c: int| 0 <= c < cols ==> #[trigger] first.0[i0 * 64 + j0 + c]
            &&& second.1
            &&& second.0 == screen
        }),
{
    let cols = if 8 <= 64 - j0 {
        8int
    } else {
        64 - j0
    };
    assert(forall|sh: u8| sh < 8 ==> (0xFFu8 >> sh) & 1 == 1) by (bit_vector);
    assert forall|c: int| 0 <= c < 8 implies spec_sprite_bit(0xFF, c) by {
        assert(((7 - c) as u8) < 8);
    }
    let first_row = spec_blit_row(screen, 0xFF, i0, j0, cols);
    let first = spec_blit_sprite(screen, mem, base, i0, j0, cols, 1);
    assert(spec_blit_sprite(screen, mem, base, i0, j0, cols, 0) == (screen, false));
    assert(first.0 == first_row.0 && first.1 == first_row.1);
    lemma_blit_row_pixels(screen, 0xFF, i0, j0, cols);
    let second = spec_blit_sprite(first.0, mem, base, i0, j0, cols, 1);
    assert(spec_blit_sprite(first.0, mem, base, i0, j0, cols, 0) == (first.0, false));
    lemma_blit_row_pixels(first.0, 0xFF, i0, j0, cols);
    assert(first.0[i0 * 64 + j0 + 0] == (screen[i0 * 64 + j0 + 0] != spec_sprite_bit(0xFF, 0)));
    assert(first.0[i0 * 64 + j0 + 0]);
    assert(second.1);
    assert(!first.1);
    assert forall|c: int| 0 <= c < cols implies #[trigger] first.0[i0 * 64 + j0 + c] by {
        assert(first.0[i0 * 64 + j0 + c] == (screen[i0 * 64 + j0 + c] != spec_sprite_bit(
            0xFF,
            c,
        )));
    }
    lemma_blit_row_twice_restores(screen, 0xFF, i0, j0, cols);
    assert(second.0 == spec_blit_row(first_row.0, 0xFF, i0, j0, cols).0);
    assert(second.0 == screen);
}

} // verus!
