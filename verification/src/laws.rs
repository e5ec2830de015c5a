//! Laws of the instruction semantics, stated over [`spec_execute`] and
//! [`spec_step`] and proved for every well-formed machine.

use crate::draw::draw_collision;
use crate::draw::draw_screen;
use crate::draw::pixel_drawn;
use crate::exec::spec_execute;
use crate::isa::spec_decode;
use crate::isa::Instruction;
use crate::machine::MachineView;
use crate::step::first_pressed_from;
use crate::step::spec_step;
use crate::ExecResult;
use vstd::arithmetic::div_mod::lemma_mod_multiples_vanish;
use vstd::arithmetic::div_mod::lemma_small_mod;
use vstd::prelude::*;

verus! {

/// `AddRegisters` sets the result register to `(a + b) mod 256` and
/// the flag register to 1 exactly when `a + b >= 256`, and never
/// faults.  (With VX = VF the flag write is the last one and wins, so
/// the result register is left out.)
pub proof fn lemma_add_registers(pre: MachineView, x: u8, y: u8, rnd: u8)
    requires
        pre.wf(),
        x < 16,
        y < 16,
        x != 15,
    ensures
        ({
            let a = pre.v[x as int] as int;
            let b = pre.v[y as int] as int;
            let post = spec_execute(pre, Instruction::AddRegisters(x, y), rnd).0;
            &&& spec_execute(pre, Instruction::AddRegisters(x, y), rnd).1 == ExecResult::Continue
            &&& post.v[x as int] == (a + b) % 256
            &&& post.v[15] == (if a + b >= 256 {
                1u8
            } else {
                0u8
            })
        }),
{
    let s = pre.v[x as int] as int + pre.v[y as int] as int;
    if s <= 255 {
        lemma_small_mod(s as nat, 256);
    } else {
        lemma_mod_multiples_vanish(1, s - 256, 256);
        lemma_small_mod((s - 256) as nat, 256);
    }
}

/// `Subtract` sets VX to `(a - b) mod 256`, wrapping on underflow, and
/// never faults; no flag is written.
pub proof fn lemma_subtract(pre: MachineView, x: u8, y: u8, rnd: u8)
    requires
        pre.wf(),
        x < 16,
        y < 16,
    ensures
        ({
            let a = pre.v[x as int] as int;
            let b = pre.v[y as int] as int;
            let post = spec_execute(pre, Instruction::Subtract(x, y), rnd).0;
            &&& spec_execute(pre, Instruction::Subtract(x, y), rnd).1 == ExecResult::Continue
            &&& post.v[x as int] == (a - b) % 256
            &&& x != 15 ==> post.v[15] == pre.v[15]
        }),
{
    let d = pre.v[x as int] as int - pre.v[y as int] as int;
    if d >= 0 {
        lemma_small_mod(d as nat, 256);
    } else {
        lemma_mod_multiples_vanish(1, d, 256);
        lemma_small_mod((d + 256) as nat, 256);
    }
}

/// `ShiftLeft` copies VY — not VX — shifted left into VX, and the flag
/// is VY's bit 7, the bit shifted out.  (With VX = VF the value write
/// is the last one and wins, so the flag claim is left out.)
pub proof fn lemma_shift_left(pre: MachineView, x: u8, y: u8, rnd: u8)
    requires
        pre.wf(),
        x < 16,
        y < 16,
        x != 15,
    ensures
        ({
            let src = pre.v[y as int];
            let post = spec_execute(pre, Instruction::ShiftLeft(x, y), rnd).0;
            &&& spec_execute(pre, Instruction::ShiftLeft(x, y), rnd).1 == ExecResult::Continue
            &&& post.v[x as int] == (2 * src) % 256
            &&& post.v[15] == (if src >= 128 {
                1u8
            } else {
                0u8
            })
        }),
{
    let src = pre.v[y as int];
    assert(src << 1u8 == (2 * src) % 256) by (bit_vector);
    assert((src >> 7u8) & 1 == (if src >= 128 {
        1u8
    } else {
        0u8
    })) by (bit_vector);
}

/// `ShiftRight` copies VY — not VX — shifted right into VX, and the
/// flag is VY's bit 0, the bit shifted out.
pub proof fn lemma_shift_right(pre: MachineView, x: u8, y: u8, rnd: u8)
    requires
        pre.wf(),
        x < 16,
        y < 16,
        x != 15,
    ensures
        ({
            let src = pre.v[y as int];
            let post = spec_execute(pre, Instruction::ShiftRight(x, y), rnd).0;
            &&& spec_execute(pre, Instruction::ShiftRight(x, y), rnd).1 == ExecResult::Continue
            &&& post.v[x as int] == src / 2
            &&& post.v[15] == src % 2
        }),
{
    let src = pre.v[y as int];
    assert(src >> 1u8 == src / 2) by (bit_vector);
    assert(src & 1 == src % 2) by (bit_vector);
}

/// After `ClearScreen` every pixel of the display buffer reads off.
pub proof fn lemma_clear_screen(pre: MachineView, rnd: u8)
    requires
        pre.wf(),
    ensures
        spec_execute(pre, Instruction::ClearScreen, rnd).1 == ExecResult::Continue,
        spec_execute(pre, Instruction::ClearScreen, rnd).0.screen.len() == 64 * 32,
        forall|p: int|
            0 <= p < 64 * 32 ==> !spec_execute(pre, Instruction::ClearScreen, rnd).0.screen[p],
{
}

/// XORing the same sprite onto the screen twice restores the screen.
pub proof fn lemma_draw_twice_restores(screen: Seq<bool>, sprite: Seq<u8>, x0: int, y0: int)
    ensures
        draw_screen(draw_screen(screen, sprite, x0, y0), sprite, x0, y0) == screen,
{
    assert(draw_screen(draw_screen(screen, sprite, x0, y0), sprite, x0, y0) =~= screen);
}

/// Drawing a sprite onto a screen it was just drawn on collides
/// exactly where a drawn sprite cell originally found an unlit pixel:
/// those pixels are lit after the first draw.
pub proof fn lemma_second_draw_collision(screen: Seq<bool>, sprite: Seq<u8>, x0: int, y0: int)
    ensures
        draw_collision(draw_screen(screen, sprite, x0, y0), sprite, x0, y0) <==> (exists|p: int|
            0 <= p < screen.len() && !screen[p] && pixel_drawn(sprite, x0, y0, p)),
{
    let s1 = draw_screen(screen, sprite, x0, y0);
    if draw_collision(s1, sprite, x0, y0) {
        let p = choose|p: int| 0 <= p < s1.len() && s1[p] && pixel_drawn(sprite, x0, y0, p);
        assert(0 <= p < screen.len() && !screen[p] && pixel_drawn(sprite, x0, y0, p));
    }
    if exists|p: int| 0 <= p < screen.len() && !screen[p] && pixel_drawn(sprite, x0, y0, p) {
        let p = choose|p: int| 0 <= p < screen.len() && !screen[p] && pixel_drawn(sprite, x0, y0, p);
        assert(0 <= p < s1.len() && s1[p] && pixel_drawn(sprite, x0, y0, p));
    }
}

/// Executing the same draw twice at the same origin toggles every
/// drawn pixel back off — the screen is restored — and the second
/// draw's collision flag is set exactly when some drawn cell was unlit
/// before the first draw.
pub proof fn lemma_draw_twice(pre: MachineView, x: u8, y: u8, n: u8, rnd1: u8, rnd2: u8)
    requires
        pre.wf(),
        x < 16,
        y < 16,
        n < 16,
        x != 15,
        y != 15,
        spec_execute(pre, Instruction::Draw(x, y, n), rnd1).1 == ExecResult::Continue,
    ensures
        ({
            let m1 = spec_execute(pre, Instruction::Draw(x, y, n), rnd1).0;
            let m2 = spec_execute(m1, Instruction::Draw(x, y, n), rnd2).0;
            let x0 = pre.v[x as int] as int % 64;
            let y0 = pre.v[y as int] as int % 32;
            let rows = if n as int <= 32 - y0 {
                n as int
            } else {
                32 - y0
            };
            let sprite = if rows == 0 {
                Seq::<u8>::empty()
            } else {
                pre.ram.subrange(pre.i as int, pre.i as int + rows)
            };
            &&& spec_execute(m1, Instruction::Draw(x, y, n), rnd2).1 == ExecResult::Continue
            &&& m2.screen == pre.screen
            &&& (m2.v[15] == 1 <==> (exists|p: int|
                0 <= p < 64 * 32 && !pre.screen[p] && pixel_drawn(sprite, x0, y0, p)))
        }),
{
    let x0 = pre.v[x as int] as int % 64;
    let y0 = pre.v[y as int] as int % 32;
    let rows = if n as int <= 32 - y0 {
        n as int
    } else {
        32 - y0
    };
    let sprite = if rows == 0 {
        Seq::<u8>::empty()
    } else {
        pre.ram.subrange(pre.i as int, pre.i as int + rows)
    };
    let m1 = spec_execute(pre, Instruction::Draw(x, y, n), rnd1).0;
    assert(m1.v[x as int] == pre.v[x as int] && m1.v[y as int] == pre.v[y as int]);
    assert(m1.ram == pre.ram && m1.i == pre.i);
    lemma_draw_twice_restores(pre.screen, sprite, x0, y0);
    lemma_second_draw_collision(pre.screen, sprite, x0, y0);
}

/// `StoreMemory(X)` then `LoadMemory(X)` on any machine that holds the
/// stored memory and the same index register reproduces V0..=VX
/// exactly.
pub proof fn lemma_store_load_round_trip(
    pre: MachineView,
    other: MachineView,
    x: u8,
    rnd1: u8,
    rnd2: u8,
)
    requires
        pre.wf(),
        other.wf(),
        x < 16,
        spec_execute(pre, Instruction::StoreMemory(x), rnd1).1 == ExecResult::Continue,
        other.ram == spec_execute(pre, Instruction::StoreMemory(x), rnd1).0.ram,
        other.i == pre.i,
    ensures
        spec_execute(other, Instruction::LoadMemory(x), rnd2).1 == ExecResult::Continue,
        forall|j: int|
            0 <= j <= x ==> spec_execute(other, Instruction::LoadMemory(x), rnd2).0.v[j]
                == pre.v[j],
{
}

/// `BinaryDecimalConversion` writes the hundreds, tens and ones digits
/// of VX at the index register, most significant first, and touches no
/// other memory byte.
pub proof fn lemma_bcd_digits(pre: MachineView, x: u8, rnd: u8)
    requires
        pre.wf(),
        x < 16,
        pre.i as int + 2 < 4096,
    ensures
        ({
            let n = pre.v[x as int];
            let post = spec_execute(pre, Instruction::BinaryDecimalConversion(x), rnd).0;
            &&& spec_execute(pre, Instruction::BinaryDecimalConversion(x), rnd).1
                == ExecResult::Continue
            &&& post.ram[pre.i as int] == n / 100
            &&& post.ram[pre.i as int + 1] == (n % 100) / 10
            &&& post.ram[pre.i as int + 2] == n % 10
            &&& forall|a: int|
                0 <= a < 4096 && !(pre.i as int <= a <= pre.i as int + 2) ==> post.ram[a]
                    == pre.ram[a]
        }),
{
}

/// `FontCharacter` points the index register at the glyph of VX's low
/// nibble: the font base plus five bytes per digit, always inside the
/// font region.
pub proof fn lemma_font_character(pre: MachineView, x: u8, rnd: u8)
    requires
        pre.wf(),
        x < 16,
    ensures
        ({
            let post = spec_execute(pre, Instruction::FontCharacter(x), rnd).0;
            &&& spec_execute(pre, Instruction::FontCharacter(x), rnd).1 == ExecResult::Continue
            &&& post.i == 0x50 + 5 * (pre.v[x as int] & 0xF)
            &&& 0x50 <= post.i <= 0x9B
        }),
{
    let vv = pre.v[x as int];
    assert(vv & 0xF < 16) by (bit_vector);
}

/// Every word of the arithmetic family whose low nibble matches no
/// operation decodes to `Unrecognized`.
pub proof fn lemma_decode_arithmetic_unknown(w: u16)
    requires
        w >> 12 == 8,
        w & 0xF == 8,
    ensures
        spec_decode(w) == Instruction::Unrecognized(w),
{
    assert((w >> 12) as u8 == 8 && (w & 0xF) as u8 == 8) by (bit_vector)
        requires
            w >> 12 == 8 && w & 0xF == 8,
    ;
}

/// While a key is awaited the program counter never moves, whatever
/// the key vector holds.
pub proof fn lemma_key_wait_holds_pc(pre: MachineView, rnd: u8)
    requires
        pre.waiting is Some,
    ensures
        spec_step(pre, rnd).0.pc == pre.pc,
{
}

/// A step taken while a key is awaited and no key is pressed changes
/// nothing: the machine — program counter included — stays as it is.
pub proof fn lemma_key_wait_unresolved(pre: MachineView, rnd: u8)
    requires
        pre.wf(),
        pre.waiting is Some,
        forall|j: int| 0 <= j < 16 ==> !pre.keys[j],
    ensures
        spec_step(pre, rnd).0 == pre,
        spec_step(pre, rnd).1 == ExecResult::AwaitingKey,
{
    lemma_first_pressed_from_none(pre.keys, 0);
}

/// A step taken while a key is awaited and `k` is the lowest pressed
/// key writes `k` to the pending register, clears the wait, and moves
/// nothing else; execution resumes on the next step.
pub proof fn lemma_key_wait_resolved(pre: MachineView, rnd: u8, reg: u8, k: u8)
    requires
        pre.wf(),
        pre.waiting == Some(reg),
        k < 16,
        pre.keys[k as int],
        forall|m: int| 0 <= m < k ==> !pre.keys[m],
    ensures
        spec_step(pre, rnd).0 == (MachineView {
            v: pre.v.update(reg as int, k),
            waiting: None::<u8>,
            ..pre
        }),
        spec_step(pre, rnd).0.pc == pre.pc,
        spec_step(pre, rnd).1 == ExecResult::Continue,
{
    lemma_first_pressed_from_lowest(pre.keys, 0, k as int);
}

/// Every instruction except `Random` is unaffected by which random
/// byte was drawn, so for those the outcome of
/// [`Emulator::execute_instruction`] is pinned down completely.
///
/// [`Emulator::execute_instruction`]: crate::machine::Emulator::execute_instruction
pub proof fn lemma_execute_ignores_random(pre: MachineView, inst: Instruction, b1: u8, b2: u8)
    requires
        !(inst is Random),
    ensures
        spec_execute(pre, inst, b1) == spec_execute(pre, inst, b2),
{
}

/// Below `k`, nothing is pressed; at `k`, a key is: the scan finds `k`.
proof fn lemma_first_pressed_from_lowest(keys: Seq<bool>, j: int, k: int)
    requires
        keys.len() == 16,
        0 <= j <= k < 16,
        keys[k],
        forall|m: int| j <= m < k ==> !keys[m],
    ensures
        first_pressed_from(keys, j) == Some(k as u8),
    decreases k - j,
{
    if j < k {
        lemma_first_pressed_from_lowest(keys, j + 1, k);
    }
}

/// With nothing pressed at or above `j`, the scan finds nothing.
proof fn lemma_first_pressed_from_none(keys: Seq<bool>, j: int)
    requires
        keys.len() == 16,
        0 <= j <= 16,
        forall|m: int| j <= m < 16 ==> !keys[m],
    ensures
        first_pressed_from(keys, j) == None::<u8>,
    decreases 16 - j,
{
    if j < 16 {
        lemma_first_pressed_from_none(keys, j + 1);
    }
}

} // verus!
