//! The draw instruction: sprites are XORed onto the display buffer,
//! clipped at the right and bottom edges, and a collision flag reports
//! whether any lit pixel was turned off.
//!
//! The specification is pointwise: a pixel of the new screen is the old
//! pixel XORed with "some visible sprite bit lands here", and collision
//! holds exactly when a visible sprite bit lands on a lit pixel.

use crate::machine::Emulator;
use crate::machine::MachineView;
use crate::Chip8Error;
use crate::ExecResult;
use vstd::prelude::*;

verus! {

/// Bit `col` of a sprite row, most significant bit first.
pub open spec fn sprite_bit(row_data: u8, col: int) -> bool {
    (row_data >> ((7 - col) as u8)) & 1 == 1
}

/// The display-buffer position that sprite cell (`row`, `col`) lands on
/// when the sprite origin is (`x0`, `y0`).
pub open spec fn pos_of(x0: int, y0: int, row: int, col: int) -> int {
    64 * (y0 + row) + (x0 + col)
}

/// Sprite cell (`row`, `col`) is drawn: it lies inside the sprite, its
/// bit is set, and it is not clipped at the right or bottom edge.
pub open spec fn visible_at(sprite: Seq<u8>, x0: int, y0: int, row: int, col: int) -> bool {
    &&& 0 <= row < sprite.len()
    &&& 0 <= col < 8
    &&& y0 + row < 32
    &&& x0 + col < 64
    &&& sprite_bit(sprite[row], col)
}

/// Sprite cell (`row`, `col`) is drawn and lands on position `p`.
pub open spec fn drawn_at(sprite: Seq<u8>, x0: int, y0: int, row: int, col: int, p: int) -> bool {
    visible_at(sprite, x0, y0, row, col) && p == pos_of(x0, y0, row, col)
}

/// Some drawn sprite cell lands on position `p`.
pub open spec fn pixel_drawn(sprite: Seq<u8>, x0: int, y0: int, p: int) -> bool {
    exists|row: int, col: int| drawn_at(sprite, x0, y0, row, col, p)
}

/// Some drawn sprite cell strictly before (`r`, `c`) — in row-major
/// drawing order — lands on position `p`.
pub open spec fn pixel_drawn_before(
    sprite: Seq<u8>,
    x0: int,
    y0: int,
    r: int,
    c: int,
    p: int,
) -> bool {
    exists|row: int, col: int|
        drawn_at(sprite, x0, y0, row, col, p) && (row < r || (row == r && col < c))
}

/// The screen after the draw: every pixel is XORed with "a drawn sprite
/// cell lands here".
pub open spec fn draw_screen(screen: Seq<bool>, sprite: Seq<u8>, x0: int, y0: int) -> Seq<bool> {
    Seq::new(screen.len(), |p: int| screen[p] != pixel_drawn(sprite, x0, y0, p))
}

/// A drawn sprite cell lands on a pixel that was already lit.
pub open spec fn draw_collision(screen: Seq<bool>, sprite: Seq<u8>, x0: int, y0: int) -> bool {
    exists|p: int| 0 <= p < screen.len() && screen[p] && pixel_drawn(sprite, x0, y0, p)
}

/// As `draw_collision`, but only counting sprite cells strictly before
/// (`r`, `c`) in drawing order.
pub open spec fn collision_before(
    screen: Seq<bool>,
    sprite: Seq<u8>,
    x0: int,
    y0: int,
    r: int,
    c: int,
) -> bool {
    exists|p: int| 0 <= p < screen.len() && screen[p] && pixel_drawn_before(sprite, x0, y0, r, c, p)
}

/// Distinct sprite cells land on distinct positions: the landing
/// position determines the cell.
pub proof fn lemma_pos_injective(
    x0: int,
    y0: int,
    row1: int,
    col1: int,
    row2: int,
    col2: int,
)
    requires
        0 <= x0,
        0 <= y0,
        0 <= col1 < 8,
        0 <= col2 < 8,
        0 <= row1,
        0 <= row2,
        x0 + col1 < 64,
        x0 + col2 < 64,
        y0 + row1 < 32,
        y0 + row2 < 32,
        pos_of(x0, y0, row1, col1) == pos_of(x0, y0, row2, col2),
    ensures
        row1 == row2,
        col1 == col2,
{
}

/// Nothing is drawn before the very first cell.
pub proof fn lemma_prefix_empty(sprite: Seq<u8>, x0: int, y0: int, p: int)
    ensures
        !pixel_drawn_before(sprite, x0, y0, 0, 0, p),
{
}

/// Extending the drawing order by one cell adds exactly that cell.
pub proof fn lemma_prefix_step(sprite: Seq<u8>, x0: int, y0: int, r: int, c: int, p: int)
    requires
        0 <= c < 8,
    ensures
        pixel_drawn_before(sprite, x0, y0, r, c + 1, p) <==> (pixel_drawn_before(
            sprite,
            x0,
            y0,
            r,
            c,
            p,
        ) || drawn_at(sprite, x0, y0, r, c, p)),
{
    if pixel_drawn_before(sprite, x0, y0, r, c + 1, p) {
        let (row, col) = choose|row: int, col: int|
            drawn_at(sprite, x0, y0, row, col, p) && (row < r || (row == r && col < c + 1));
        if row == r && col == c {
            assert(drawn_at(sprite, x0, y0, r, c, p));
        } else {
            assert(drawn_at(sprite, x0, y0, row, col, p) && (row < r || (row == r && col < c)));
        }
    }
    if pixel_drawn_before(sprite, x0, y0, r, c, p) {
        let (row, col) = choose|row: int, col: int|
            drawn_at(sprite, x0, y0, row, col, p) && (row < r || (row == r && col < c));
        assert(drawn_at(sprite, x0, y0, row, col, p) && (row < r || (row == r && col < c + 1)));
    }
    if drawn_at(sprite, x0, y0, r, c, p) {
        assert(drawn_at(sprite, x0, y0, r, c, p) && (r < r || (r == r && c < c + 1)));
    }
}

/// Once the column is clipped at the right edge, the rest of the row
/// draws nothing.
pub proof fn lemma_prefix_clip(sprite: Seq<u8>, x0: int, y0: int, r: int, c: int, p: int)
    requires
        0 <= c <= 8,
        x0 + c >= 64,
    ensures
        pixel_drawn_before(sprite, x0, y0, r, 8, p) <==> pixel_drawn_before(
            sprite,
            x0,
            y0,
            r,
            c,
            p,
        ),
{
    if pixel_drawn_before(sprite, x0, y0, r, 8, p) {
        let (row, col) = choose|row: int, col: int|
            drawn_at(sprite, x0, y0, row, col, p) && (row < r || (row == r && col < 8));
        if row == r && col >= c {
            assert(x0 + col >= x0 + c);
            assert(false);
        }
        assert(drawn_at(sprite, x0, y0, row, col, p) && (row < r || (row == r && col < c)));
    }
    if pixel_drawn_before(sprite, x0, y0, r, c, p) {
        let (row, col) = choose|row: int, col: int|
            drawn_at(sprite, x0, y0, row, col, p) && (row < r || (row == r && col < c));
        assert(drawn_at(sprite, x0, y0, row, col, p) && (row < r || (row == r && col < 8)));
    }
}

/// Finishing a row is the same as standing at the start of the next.
pub proof fn lemma_prefix_next_row(sprite: Seq<u8>, x0: int, y0: int, r: int, p: int)
    ensures
        pixel_drawn_before(sprite, x0, y0, r, 8, p) <==> pixel_drawn_before(
            sprite,
            x0,
            y0,
            r + 1,
            0,
            p,
        ),
{
    if pixel_drawn_before(sprite, x0, y0, r, 8, p) {
        let (row, col) = choose|row: int, col: int|
            drawn_at(sprite, x0, y0, row, col, p) && (row < r || (row == r && col < 8));
        assert(drawn_at(sprite, x0, y0, row, col, p) && (row < r + 1 || (row == r + 1 && col
            < 0)));
    }
    if pixel_drawn_before(sprite, x0, y0, r + 1, 0, p) {
        let (row, col) = choose|row: int, col: int|
            drawn_at(sprite, x0, y0, row, col, p) && (row < r + 1 || (row == r + 1 && col < 0));
        assert(col < 8);
        assert(drawn_at(sprite, x0, y0, row, col, p) && (row < r || (row == r && col < 8)));
    }
}

/// Standing past the last row, the prefix covers the whole sprite.
pub proof fn lemma_prefix_full(sprite: Seq<u8>, x0: int, y0: int, p: int)
    ensures
        pixel_drawn_before(sprite, x0, y0, sprite.len() as int, 0, p) <==> pixel_drawn(
            sprite,
            x0,
            y0,
            p,
        ),
{
    if pixel_drawn_before(sprite, x0, y0, sprite.len() as int, 0, p) {
        let (row, col) = choose|row: int, col: int|
            drawn_at(sprite, x0, y0, row, col, p) && (row < sprite.len() || (row == sprite.len()
                && col < 0));
        assert(drawn_at(sprite, x0, y0, row, col, p));
    }
    if pixel_drawn(sprite, x0, y0, p) {
        let (row, col) = choose|row: int, col: int| drawn_at(sprite, x0, y0, row, col, p);
        assert(drawn_at(sprite, x0, y0, row, col, p) && (row < sprite.len() || (row
            == sprite.len() && col < 0)));
    }
}

/// No collision is recorded before the first cell.
pub proof fn lemma_collision_empty(screen: Seq<bool>, sprite: Seq<u8>, x0: int, y0: int)
    ensures
        !collision_before(screen, sprite, x0, y0, 0, 0),
{
    if collision_before(screen, sprite, x0, y0, 0, 0) {
        let p = choose|p: int|
            0 <= p < screen.len() && screen[p] && pixel_drawn_before(sprite, x0, y0, 0, 0, p);
        lemma_prefix_empty(sprite, x0, y0, p);
    }
}

/// Extending the drawing order by one cell adds a collision exactly
/// when that cell is visible and lands on a lit pixel.
pub proof fn lemma_collision_step(
    screen: Seq<bool>,
    sprite: Seq<u8>,
    x0: int,
    y0: int,
    r: int,
    c: int,
)
    requires
        0 <= c < 8,
        0 <= x0,
        0 <= y0,
        screen.len() == 64 * 32,
    ensures
        collision_before(screen, sprite, x0, y0, r, c + 1) <==> (collision_before(
            screen,
            sprite,
            x0,
            y0,
            r,
            c,
        ) || (visible_at(sprite, x0, y0, r, c) && screen[pos_of(x0, y0, r, c)])),
{
    if collision_before(screen, sprite, x0, y0, r, c + 1) {
        let p = choose|p: int|
            0 <= p < screen.len() && screen[p] && pixel_drawn_before(sprite, x0, y0, r, c + 1, p);
        lemma_prefix_step(sprite, x0, y0, r, c, p);
        if pixel_drawn_before(sprite, x0, y0, r, c, p) {
            assert(collision_before(screen, sprite, x0, y0, r, c));
        } else {
            assert(drawn_at(sprite, x0, y0, r, c, p));
        }
    }
    if collision_before(screen, sprite, x0, y0, r, c) {
        let p = choose|p: int|
            0 <= p < screen.len() && screen[p] && pixel_drawn_before(sprite, x0, y0, r, c, p);
        lemma_prefix_step(sprite, x0, y0, r, c, p);
        assert(0 <= p < screen.len() && screen[p] && pixel_drawn_before(
            sprite,
            x0,
            y0,
            r,
            c + 1,
            p,
        ));
    }
    if visible_at(sprite, x0, y0, r, c) && screen[pos_of(x0, y0, r, c)] {
        let p = pos_of(x0, y0, r, c);
        assert(0 <= p < screen.len());
        lemma_prefix_step(sprite, x0, y0, r, c, p);
        assert(drawn_at(sprite, x0, y0, r, c, p));
        assert(0 <= p < screen.len() && screen[p] && pixel_drawn_before(
            sprite,
            x0,
            y0,
            r,
            c + 1,
            p,
        ));
    }
}

/// Collision does not change over the clipped tail of a row.
pub proof fn lemma_collision_clip(
    screen: Seq<bool>,
    sprite: Seq<u8>,
    x0: int,
    y0: int,
    r: int,
    c: int,
)
    requires
        0 <= c <= 8,
        x0 + c >= 64,
    ensures
        collision_before(screen, sprite, x0, y0, r, 8) <==> collision_before(
            screen,
            sprite,
            x0,
            y0,
            r,
            c,
        ),
{
    if collision_before(screen, sprite, x0, y0, r, 8) {
        let p = choose|p: int|
            0 <= p < screen.len() && screen[p] && pixel_drawn_before(sprite, x0, y0, r, 8, p);
        lemma_prefix_clip(sprite, x0, y0, r, c, p);
        assert(0 <= p < screen.len() && screen[p] && pixel_drawn_before(sprite, x0, y0, r, c, p));
    }
    if collision_before(screen, sprite, x0, y0, r, c) {
        let p = choose|p: int|
            0 <= p < screen.len() && screen[p] && pixel_drawn_before(sprite, x0, y0, r, c, p);
        lemma_prefix_clip(sprite, x0, y0, r, c, p);
        assert(0 <= p < screen.len() && screen[p] && pixel_drawn_before(sprite, x0, y0, r, 8, p));
    }
}

/// Collision at the end of a row equals collision at the start of the
/// next.
pub proof fn lemma_collision_next_row(
    screen: Seq<bool>,
    sprite: Seq<u8>,
    x0: int,
    y0: int,
    r: int,
)
    ensures
        collision_before(screen, sprite, x0, y0, r, 8) <==> collision_before(
            screen,
            sprite,
            x0,
            y0,
            r + 1,
            0,
        ),
{
    if collision_before(screen, sprite, x0, y0, r, 8) {
        let p = choose|p: int|
            0 <= p < screen.len() && screen[p] && pixel_drawn_before(sprite, x0, y0, r, 8, p);
        lemma_prefix_next_row(sprite, x0, y0, r, p);
        assert(0 <= p < screen.len() && screen[p] && pixel_drawn_before(
            sprite,
            x0,
            y0,
            r + 1,
            0,
            p,
        ));
    }
    if collision_before(screen, sprite, x0, y0, r + 1, 0) {
        let p = choose|p: int|
            0 <= p < screen.len() && screen[p] && pixel_drawn_before(sprite, x0, y0, r + 1, 0, p);
        lemma_prefix_next_row(sprite, x0, y0, r, p);
        assert(0 <= p < screen.len() && screen[p] && pixel_drawn_before(sprite, x0, y0, r, 8, p));
    }
}

/// Collision over the whole drawing order is the draw's collision flag.
pub proof fn lemma_collision_full(screen: Seq<bool>, sprite: Seq<u8>, x0: int, y0: int)
    ensures
        collision_before(screen, sprite, x0, y0, sprite.len() as int, 0) <==> draw_collision(
            screen,
            sprite,
            x0,
            y0,
        ),
{
    if collision_before(screen, sprite, x0, y0, sprite.len() as int, 0) {
        let p = choose|p: int|
            0 <= p < screen.len() && screen[p] && pixel_drawn_before(
                sprite,
                x0,
                y0,
                sprite.len() as int,
                0,
                p,
            );
        lemma_prefix_full(sprite, x0, y0, p);
        assert(0 <= p < screen.len() && screen[p] && pixel_drawn(sprite, x0, y0, p));
    }
    if draw_collision(screen, sprite, x0, y0) {
        let p = choose|p: int|
            0 <= p < screen.len() && screen[p] && pixel_drawn(sprite, x0, y0, p);
        lemma_prefix_full(sprite, x0, y0, p);
        assert(0 <= p < screen.len() && screen[p] && pixel_drawn_before(
            sprite,
            x0,
            y0,
            sprite.len() as int,
            0,
            p,
        ));
    }
}

/// The machine after a draw instruction, and its result.
///
/// The sprite origin is (VX mod 64, VY mod 32) — wrap is applied once,
/// at the origin.  Rows below the bottom edge and columns beyond the
/// right edge are clipped, not wrapped.  Only the rows actually drawn
/// are read from memory; if any of them lies outside memory the draw is
/// a `MemoryAccessViolation` fault and the machine is unchanged.
/// Otherwise VF becomes 1 exactly when a lit pixel is turned off.
pub open spec fn spec_draw(pre: MachineView, vx: u8, vy: u8, height: u8) -> (MachineView,
    ExecResult) {
    let x0 = pre.v[vx as int] as int % 64;
    let y0 = pre.v[vy as int] as int % 32;
    let rows = if height as int <= 32 - y0 {
        height as int
    } else {
        32 - y0
    };
    if rows > 0 && pre.i as int + rows > 4096 {
        (pre, ExecResult::Fault(Chip8Error::MemoryAccessViolation))
    } else {
        let sprite = if rows == 0 {
            Seq::<u8>::empty()
        } else {
            pre.ram.subrange(pre.i as int, pre.i as int + rows)
        };
        let hit = draw_collision(pre.screen, sprite, x0, y0);
        ((MachineView {
            screen: draw_screen(pre.screen, sprite, x0, y0),
            v: pre.v.update(15, if hit {
                1u8
            } else {
                0u8
            }),
            ..pre
        }), ExecResult::Continue)
    }
}

impl Emulator {
    /// XOR the `height`-row sprite at the index register onto the
    /// screen at origin (VX mod 64, VY mod 32), per [`spec_draw`].
    pub(crate) fn draw_sprite(&mut self, vx: u8, vy: u8, height: u8) -> (r: ExecResult)
        requires
            old(self)@.wf(),
            vx < 16,
            vy < 16,
            height < 16,
        ensures
            final(self)@ == spec_draw(old(self)@, vx, vy, height).0,
            r == spec_draw(old(self)@, vx, vy, height).1,
            final(self)@.wf(),
    {
        let x0: usize = (self.v_registers[vx as usize] % 64) as usize;
        let y0: usize = (self.v_registers[vy as usize] % 32) as usize;
        let rows: usize = if (height as usize) <= 32 - y0 {
            height as usize
        } else {
            32 - y0
        };
        let base: usize = self.i_register as usize;
        if rows > 0 && base + rows > 4096 {
            return ExecResult::Fault(Chip8Error::MemoryAccessViolation);
        }
        let ghost x0i = x0 as int;
        let ghost y0i = y0 as int;
        let ghost screen0 = old(self)@.screen;
        let ghost sprite = if rows == 0 {
            Seq::<u8>::empty()
        } else {
            old(self)@.ram.subrange(base as int, base as int + rows as int)
        };
        self.v_registers[15] = 0;
        proof {
            lemma_collision_empty(screen0, sprite, x0i, y0i);
            assert forall|q: int| 0 <= q < 64 * 32 implies self.screen@[q] == (screen0[q]
                != pixel_drawn_before(sprite, x0i, y0i, 0, 0, q)) by {
                lemma_prefix_empty(sprite, x0i, y0i, q);
            }
        }
        let mut row: usize = 0;
        while row < rows
            invariant
                old(self)@.wf(),
                row <= rows,
                vx < 16,
                vy < 16,
                x0 == old(self)@.v[vx as int] as int % 64,
                y0 == old(self)@.v[vy as int] as int % 32,
                x0i == x0 as int,
                y0i == y0 as int,
                x0 < 64,
                y0 < 32,
                rows <= 32 - y0,
                rows == (if height as int <= 32 - y0 {
                    height as int
                } else {
                    32 - y0
                }),
                base == old(self)@.i as int,
                rows == 0 || base + rows <= 4096,
                screen0 == old(self)@.screen,
                sprite == (if rows == 0 {
                    Seq::<u8>::empty()
                } else {
                    old(self)@.ram.subrange(base as int, base as int + rows as int)
                }),
                sprite.len() == rows,
                self.ram@ == old(self)@.ram,
                self.pc == old(self)@.pc,
                self.i_register == old(self)@.i,
                self.stack@ == old(self)@.stack,
                self.keys@ == old(self)@.keys,
                self.delay_timer == old(self)@.delay,
                self.sound_timer == old(self)@.sound,
                self.waiting_for_key == old(self)@.waiting,
                self.screen@.len() == 64 * 32,
                self.v_registers@.len() == 16,
                forall|q: int|
                    0 <= q < 64 * 32 ==> self.screen@[q] == (screen0[q] != pixel_drawn_before(
                        sprite,
                        x0i,
                        y0i,
                        row as int,
                        0,
                        q,
                    )),
                self.v_registers@ == old(self)@.v.update(
                    15,
                    if collision_before(screen0, sprite, x0i, y0i, row as int, 0) {
                        1u8
                    } else {
                        0u8
                    },
                ),
            decreases rows - row,
        {
            let row_data = self.ram[base + row];
            proof {
                assert(sprite[row as int] == old(self)@.ram[base as int + row as int]);
            }
            let cols: usize = if 64 - x0 >= 8 {
                8
            } else {
                64 - x0
            };
            let mut col: usize = 0;
            while col < cols
                invariant
                    old(self)@.wf(),
                    row < rows,
                    col <= cols,
                    cols <= 8,
                    cols == (if 64 - x0 >= 8 {
                        8int
                    } else {
                        64 - x0
                    }),
                    x0i == x0 as int,
                    y0i == y0 as int,
                    x0 < 64,
                    y0 < 32,
                    rows <= 32 - y0,
                    base == old(self)@.i as int,
                    base + rows <= 4096,
                    screen0 == old(self)@.screen,
                    sprite == old(self)@.ram.subrange(base as int, base as int + rows as int),
                    sprite.len() == rows,
                    row_data == sprite[row as int],
                    self.ram@ == old(self)@.ram,
                    self.pc == old(self)@.pc,
                    self.i_register == old(self)@.i,
                    self.stack@ == old(self)@.stack,
                    self.keys@ == old(self)@.keys,
                    self.delay_timer == old(self)@.delay,
                    self.sound_timer == old(self)@.sound,
                    self.waiting_for_key == old(self)@.waiting,
                    self.screen@.len() == 64 * 32,
                    self.v_registers@.len() == 16,
                    forall|q: int|
                        0 <= q < 64 * 32 ==> self.screen@[q] == (screen0[q]
                            != pixel_drawn_before(
                            sprite,
                            x0i,
                            y0i,
                            row as int,
                            col as int,
                            q,
                        )),
                    self.v_registers@ == old(self)@.v.update(
                        15,
                        if collision_before(screen0, sprite, x0i, y0i, row as int, col as int) {
                            1u8
                        } else {
                            0u8
                        },
                    ),
                decreases cols - col,
            {
                let shift: u8 = (7 - col) as u8;
                let bit = (row_data >> shift) & 1;
                let p: usize = 64 * (y0 + row) + (x0 + col);
                proof {
                    assert(y0 + row < 32);
                    assert(x0 + col < 64);
                    assert(p == pos_of(x0i, y0i, row as int, col as int));
                    assert(p < 64 * 32);
                    assert(shift == (7 - col as int) as u8);
                    lemma_collision_step(screen0, sprite, x0i, y0i, row as int, col as int);
                }
                if bit == 1 {
                    proof {
                        assert(sprite_bit(sprite[row as int], col as int));
                        assert(visible_at(sprite, x0i, y0i, row as int, col as int));
                        assert(drawn_at(sprite, x0i, y0i, row as int, col as int, p as int));
                        if pixel_drawn_before(sprite, x0i, y0i, row as int, col as int, p as int) {
                            let (r2, c2) = choose|r2: int, c2: int|
                                drawn_at(sprite, x0i, y0i, r2, c2, p as int) && (r2 < row as int
                                    || (r2 == row as int && c2 < col as int));
                            lemma_pos_injective(x0i, y0i, row as int, col as int, r2, c2);
                            assert(false);
                        }
                        assert(self.screen@[p as int] == screen0[p as int]);
                    }
                    if self.screen[p] {
                        self.screen[p] = false;
                        self.v_registers[15] = 1;
                        proof {
                            assert(self.v_registers@ =~= old(self)@.v.update(15, 1u8));
                        }
                    } else {
                        self.screen[p] = true;
                    }
                    proof {
                        assert forall|q: int| 0 <= q < 64 * 32 implies self.screen@[q] == (
                        screen0[q] != pixel_drawn_before(
                            sprite,
                            x0i,
                            y0i,
                            row as int,
                            col as int + 1,
                            q,
                        )) by {
                            lemma_prefix_step(sprite, x0i, y0i, row as int, col as int, q);
                        }
                    }
                } else {
                    proof {
                        assert(!sprite_bit(sprite[row as int], col as int));
                        assert forall|q: int| 0 <= q < 64 * 32 implies self.screen@[q] == (
                        screen0[q] != pixel_drawn_before(
                            sprite,
                            x0i,
                            y0i,
                            row as int,
                            col as int + 1,
                            q,
                        )) by {
                            lemma_prefix_step(sprite, x0i, y0i, row as int, col as int, q);
                        }
                    }
                }
                col = col + 1;
            }
            proof {
                if cols < 8 {
                    assert(x0 + cols >= 64);
                    assert forall|q: int| 0 <= q < 64 * 32 implies pixel_drawn_before(
                        sprite,
                        x0i,
                        y0i,
                        row as int,
                        8,
                        q,
                    ) == pixel_drawn_before(sprite, x0i, y0i, row as int, cols as int, q) by {
                        lemma_prefix_clip(sprite, x0i, y0i, row as int, cols as int, q);
                    }
                    lemma_collision_clip(screen0, sprite, x0i, y0i, row as int, cols as int);
                }
                assert forall|q: int| 0 <= q < 64 * 32 implies pixel_drawn_before(
                    sprite,
                    x0i,
                    y0i,
                    row as int + 1,
                    0,
                    q,
                ) == pixel_drawn_before(sprite, x0i, y0i, row as int, 8, q) by {
                    lemma_prefix_next_row(sprite, x0i, y0i, row as int, q);
                }
                lemma_collision_next_row(screen0, sprite, x0i, y0i, row as int);
            }
            row = row + 1;
        }
        proof {
            assert forall|q: int| 0 <= q < 64 * 32 implies self.screen@[q] == (screen0[q]
                != pixel_drawn(sprite, x0i, y0i, q)) by {
                lemma_prefix_full(sprite, x0i, y0i, q);
            }
            lemma_collision_full(screen0, sprite, x0i, y0i);
            assert(self.screen@ =~= draw_screen(screen0, sprite, x0i, y0i));
        }
        ExecResult::Continue
    }
}

} // verus!
