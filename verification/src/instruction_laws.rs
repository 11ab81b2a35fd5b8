//! What each instruction does, stated directly over the registers, memory,
//! screen and keys it reads and writes. Every opcode is written out from its
//! fields, `F * 0x1000 + X * 0x100 + Y * 0x10 + N`.
use vstd::prelude::*;
use vstd::arithmetic::div_mod::lemma_fundamental_div_mod_converse;
use crate::spec::{
    EmuState, shaped, step, step_ok, nib1, nib2, nib3, nib4, nnn, nn, sprite_covers, sprite_col,
    sprite_row, collides,
};
use crate::lemmas::lemma_sprite_pixel;

verus! {

/// The opcode with family `f`, register fields `a`, `b` and low nibble `n`.
pub open spec fn opcode(f: u16, a: u16, b: u16, n: u16) -> u16 {
    (f * 4096 + a * 256 + b * 16 + n) as u16
}

/// The screen index that row `r`, column `c` of a sprite drawn at `(x, y)`
/// lands on: `x + c` and `y + r` wrapped to the 64 x 32 screen.
pub open spec fn sprite_target(x: int, y: int, r: int, c: int) -> int {
    (x + c) % 64 + 64 * ((y + r) % 32)
}

/// Whether column `c` (0 = leftmost) of the sprite row byte `row` is set.
pub open spec fn row_has_pixel(row: u8, c: int) -> bool {
    (row >> ((7 - c) as u8)) & 1u8 == 1u8
}

/// The fields of an opcode built from its nibbles decode back to them.
proof fn lemma_opcode_fields(f: u16, a: u16, b: u16, n: u16)
    requires
        f < 16,
        a < 16,
        b < 16,
        n < 16,
    ensures
        opcode(f, a, b, n) as int == f * 4096 + a * 256 + b * 16 + n,
        nib1(opcode(f, a, b, n)) == f,
        nib2(opcode(f, a, b, n)) == a,
        nib3(opcode(f, a, b, n)) == b,
        nib4(opcode(f, a, b, n)) == n,
        nnn(opcode(f, a, b, n)) as int == a * 256 + b * 16 + n,
        nn(opcode(f, a, b, n)) as int == b * 16 + n,
        opcode(f, a, b, n) % 256 == b * 16 + n,
{
    let op = opcode(f, a, b, n);
    assert(op as int == f * 4096 + a * 256 + b * 16 + n);
    lemma_fundamental_div_mod_converse(op as int, 4096, f as int, a * 256 + b * 16 + n);
    lemma_fundamental_div_mod_converse(op as int, 256, f * 16 + a, b * 16 + n);
    lemma_fundamental_div_mod_converse(op as int, 16, f * 256 + a * 16 + b, n as int);
    lemma_fundamental_div_mod_converse(f * 16 + a, 16, f as int, a as int);
    lemma_fundamental_div_mod_converse(f * 256 + a * 16 + b, 16, f * 16 + a, b as int);
}

// ---------------------------------------------------------------------------
// DXYN
// ---------------------------------------------------------------------------

/// DXYN XORs the sprite onto the screen: each pixel that row `r < N`,
/// column `c < 8` of the sprite lands on (wrapping at the edges) is flipped
/// when that sprite bit is set, and every pixel no set bit lands on keeps
/// its value.
pub proof fn law_draw_flips_covered_pixels(s: EmuState, a: u16, b: u16, n: u16, rnd: u8)
    requires
        shaped(s),
        a < 16,
        b < 16,
        n < 16,
        n == 0 || s.i + n <= 4096,
    ensures
        step_ok(s, opcode(13, a, b, n)),
        forall|r: int, c: int|
            0 <= r < n && 0 <= c < 8 && row_has_pixel(s.ram[s.i + r], c) ==> step(
                s,
                opcode(13, a, b, n),
                rnd,
            ).screen[#[trigger] sprite_target(s.v[a as int] as int, s.v[b as int] as int, r, c)]
                == !s.screen[sprite_target(s.v[a as int] as int, s.v[b as int] as int, r, c)],
        forall|k: int|
            0 <= k < 2048 && (forall|r: int, c: int|
                0 <= r < n && 0 <= c < 8 && row_has_pixel(s.ram[s.i + r], c) ==> #[trigger] sprite_target(
                    s.v[a as int] as int,
                    s.v[b as int] as int,
                    r,
                    c,
                ) != k) ==> #[trigger] step(s, opcode(13, a, b, n), rnd).screen[k] == s.screen[k],
        step(s, opcode(13, a, b, n), rnd).screen.len() == 2048,
{
    lemma_opcode_fields(13, a, b, n);
    let op = opcode(13, a, b, n);
    let x = s.v[a as int] as int;
    let y = s.v[b as int] as int;
    let t = step(s, op, rnd);
    assert forall|r: int, c: int|
        0 <= r < n && 0 <= c < 8 && row_has_pixel(s.ram[s.i + r], c) implies t.screen[#[trigger] sprite_target(x, y, r, c)]
        == !s.screen[sprite_target(x, y, r, c)] by {
        lemma_sprite_pixel(x, y, r, c);
        assert(sprite_covers(s.ram, s.i as int, x, y, n as int, sprite_target(x, y, r, c)));
    }
    assert forall|k: int|
        0 <= k < 2048 && (forall|r: int, c: int|
            0 <= r < n && 0 <= c < 8 && row_has_pixel(s.ram[s.i + r], c) ==> #[trigger] sprite_target(x, y, r, c)
                != k) implies #[trigger] t.screen[k] == s.screen[k] by {
        if sprite_covers(s.ram, s.i as int, x, y, n as int, k) {
            let r = sprite_row(y, k);
            let c = sprite_col(x, k);
            lemma_sprite_pixel(x, y, r, c);
            assert(sprite_target(x, y, r, c) == k);
        }
    }
}

/// DXYN reports a collision in VF: VF is 1 exactly when some set bit of any
/// row of the sprite lands on a pixel that was lit before the draw, and 0
/// otherwise. The other registers keep their values.
pub proof fn law_draw_collision_flag(s: EmuState, a: u16, b: u16, n: u16, rnd: u8)
    requires
        shaped(s),
        a < 16,
        b < 16,
        n < 16,
        n == 0 || s.i + n <= 4096,
    ensures
        step(s, opcode(13, a, b, n), rnd).v[15] == 0 || step(s, opcode(13, a, b, n), rnd).v[15] == 1,
        step(s, opcode(13, a, b, n), rnd).v[15] == 1 <==> exists|r: int, c: int|
            0 <= r < n && 0 <= c < 8 && row_has_pixel(s.ram[s.i + r], c)
                && s.screen[#[trigger] sprite_target(s.v[a as int] as int, s.v[b as int] as int, r, c)],
        forall|j: int| 0 <= j < 15 ==> #[trigger] step(s, opcode(13, a, b, n), rnd).v[j] == s.v[j],
        step(s, opcode(13, a, b, n), rnd).v.len() == 16,
        step(s, opcode(13, a, b, n), rnd).ram == s.ram,
        step(s, opcode(13, a, b, n), rnd).pc == s.pc,
        step(s, opcode(13, a, b, n), rnd).i == s.i,
{
    lemma_opcode_fields(13, a, b, n);
    let op = opcode(13, a, b, n);
    let x = s.v[a as int] as int;
    let y = s.v[b as int] as int;
    let hit = exists|r: int, c: int|
        0 <= r < n && 0 <= c < 8 && row_has_pixel(s.ram[s.i + r], c) && s.screen[#[trigger] sprite_target(x, y, r, c)];
    if collides(s.screen, s.ram, s.i as int, x, y, n as int) {
        let k = choose|k: int| 0 <= k < 2048 && #[trigger] sprite_covers(s.ram, s.i as int, x, y, n as int, k) && s.screen[k];
        let r = sprite_row(y, k);
        let c = sprite_col(x, k);
        lemma_sprite_pixel(x, y, r, c);
        assert(sprite_target(x, y, r, c) == k);
        assert(hit);
    }
    if hit {
        let (r, c) = choose|r: int, c: int|
            0 <= r < n && 0 <= c < 8 && row_has_pixel(s.ram[s.i + r], c) && s.screen[#[trigger] sprite_target(x, y, r, c)];
        lemma_sprite_pixel(x, y, r, c);
        let k = sprite_target(x, y, r, c);
        assert(sprite_covers(s.ram, s.i as int, x, y, n as int, k));
        assert(collides(s.screen, s.ram, s.i as int, x, y, n as int));
    }
}

// ---------------------------------------------------------------------------
// 8XYN
// ---------------------------------------------------------------------------

/// 8XY0..=8XY3 set VX to VY, VX | VY, VX & VY and VX ^ VY; nothing else
/// changes.
pub proof fn law_register_logic(s: EmuState, a: u16, b: u16, rnd: u8)
    requires
        shaped(s),
        a < 16,
        b < 16,
    ensures
        step(s, opcode(8, a, b, 0), rnd) == (EmuState { v: s.v.update(a as int, s.v[b as int]), ..s }),
        step(s, opcode(8, a, b, 1), rnd) == (EmuState {
            v: s.v.update(a as int, s.v[a as int] | s.v[b as int]),
            ..s
        }),
        step(s, opcode(8, a, b, 2), rnd) == (EmuState {
            v: s.v.update(a as int, s.v[a as int] & s.v[b as int]),
            ..s
        }),
        step(s, opcode(8, a, b, 3), rnd) == (EmuState {
            v: s.v.update(a as int, s.v[a as int] ^ s.v[b as int]),
            ..s
        }),
{
    lemma_opcode_fields(8, a, b, 0);
    lemma_opcode_fields(8, a, b, 1);
    lemma_opcode_fields(8, a, b, 2);
    lemma_opcode_fields(8, a, b, 3);
}

/// 8XY1 sets exactly the bits set in VX or in VY.
pub proof fn law_or_sets_bits_of_both(s: EmuState, a: u16, b: u16, rnd: u8)
    requires
        shaped(s),
        a < 16,
        b < 16,
    ensures
        ({
            let vx = s.v[a as int];
            let vy = s.v[b as int];
            let r = step(s, opcode(8, a, b, 1), rnd).v[a as int];
            &&& r & vx == vx
            &&& r & vy == vy
            &&& r & !(vx | vy) == 0u8
        }),
{
    lemma_opcode_fields(8, a, b, 1);
    let vx = s.v[a as int];
    let vy = s.v[b as int];
    assert((vx | vy) & vx == vx && (vx | vy) & vy == vy && (vx | vy) & !(vx | vy) == 0u8) by (bit_vector);
}

/// The arithmetic 8XYN instructions, with X other than VF: the new VX and the
/// flag VF together hold the exact result, VF is 0 or 1, and no other
/// register changes.
/// - 8XY4: VX + 256 * VF == old VX + VY (VF is the carry);
/// - 8XY5: VX == old VX - VY + 256 * (1 - VF) (VF is 1 when there is no borrow);
/// - 8XY6: 2 * VX + VF == old VX (VF is the bit shifted out);
/// - 8XY7: VX == VY - old VX + 256 * (1 - VF);
/// - 8XYE: VX + 256 * VF == 2 * old VX.
pub proof fn law_register_arithmetic(s: EmuState, a: u16, b: u16, n: u16, rnd: u8)
    requires
        shaped(s),
        a < 15,
        b < 16,
        n == 4 || n == 5 || n == 6 || n == 7 || n == 14,
    ensures
        ({
            let vx = s.v[a as int] as int;
            let vy = s.v[b as int] as int;
            let t = step(s, opcode(8, a, b, n), rnd);
            let rx = t.v[a as int] as int;
            let f = t.v[15] as int;
            &&& f == 0 || f == 1
            &&& n == 4 ==> rx + 256 * f == vx + vy
            &&& n == 5 ==> rx == vx - vy + 256 * (1 - f)
            &&& n == 6 ==> 2 * rx + f == vx
            &&& n == 7 ==> rx == vy - vx + 256 * (1 - f)
            &&& n == 14 ==> rx + 256 * f == 2 * vx
            &&& t.v.len() == 16
            &&& forall|j: int| 0 <= j < 15 && j != a ==> #[trigger] t.v[j] == s.v[j]
            &&& t == (EmuState { v: t.v, ..s })
        }),
{
    lemma_opcode_fields(8, a, b, n);
}

// ---------------------------------------------------------------------------
// Skips
// ---------------------------------------------------------------------------

/// The skip instructions add 2 to the program counter exactly when their
/// condition holds, and change nothing else:
/// 3XKK skips when VX == KK, 4XKK when VX != KK, 5XY0 when VX == VY,
/// 9XY0 when VX != VY, EX9E when key VX is held, EXA1 when it is not.
pub proof fn law_skips(s: EmuState, a: u16, b: u16, k: u16, rnd: u8)
    requires
        shaped(s),
        a < 16,
        b < 16,
        k < 256,
        s.pc + 2 <= 0xFFFF,
    ensures
        step(s, opcode(3, a, k / 16, k % 16), rnd) == (EmuState {
            pc: if s.v[a as int] == k { (s.pc + 2) as u16 } else { s.pc },
            ..s
        }),
        step(s, opcode(4, a, k / 16, k % 16), rnd) == (EmuState {
            pc: if s.v[a as int] != k { (s.pc + 2) as u16 } else { s.pc },
            ..s
        }),
        step_ok(s, opcode(5, a, b, 0)),
        step(s, opcode(5, a, b, 0), rnd) == (EmuState {
            pc: if s.v[a as int] == s.v[b as int] { (s.pc + 2) as u16 } else { s.pc },
            ..s
        }),
        step_ok(s, opcode(9, a, b, 0)),
        step(s, opcode(9, a, b, 0), rnd) == (EmuState {
            pc: if s.v[a as int] != s.v[b as int] { (s.pc + 2) as u16 } else { s.pc },
            ..s
        }),
        s.v[a as int] < 16 ==> step_ok(s, opcode(14, a, 9, 14)) && step(s, opcode(14, a, 9, 14), rnd)
            == (EmuState {
            pc: if s.keys[s.v[a as int] as int] { (s.pc + 2) as u16 } else { s.pc },
            ..s
        }),
        s.v[a as int] < 16 ==> step_ok(s, opcode(14, a, 10, 1)) && step(s, opcode(14, a, 10, 1), rnd)
            == (EmuState {
            pc: if !s.keys[s.v[a as int] as int] { (s.pc + 2) as u16 } else { s.pc },
            ..s
        }),
{
    lemma_opcode_fields(3, a, k / 16, k % 16);
    lemma_opcode_fields(4, a, k / 16, k % 16);
    lemma_opcode_fields(5, a, b, 0);
    lemma_opcode_fields(9, a, b, 0);
    lemma_opcode_fields(14, a, 9, 14);
    lemma_opcode_fields(14, a, 10, 1);
}

/// 5XY0 and 9XY0 on the same registers are complementary: exactly one of
/// them skips.
pub proof fn law_register_skips_complementary(s: EmuState, a: u16, b: u16, r1: u8, r2: u8)
    requires
        shaped(s),
        a < 16,
        b < 16,
        s.pc + 2 <= 0xFFFF,
    ensures
        step(s, opcode(5, a, b, 0), r1).pc + step(s, opcode(9, a, b, 0), r2).pc == 2 * s.pc + 2,
{
    law_skips(s, a, b, 0, r1);
    law_skips(s, a, b, 0, r2);
}

// ---------------------------------------------------------------------------
// Timers
// ---------------------------------------------------------------------------

/// FX15 sets the delay timer to VX, FX18 sets the sound timer to VX, FX07
/// copies the delay timer (not the sound timer) into VX; nothing else
/// changes.
pub proof fn law_timer_registers(s: EmuState, a: u16, rnd: u8)
    requires
        shaped(s),
        a < 16,
    ensures
        step(s, opcode(15, a, 1, 5), rnd) == (EmuState { dt: s.v[a as int], ..s }),
        step(s, opcode(15, a, 1, 8), rnd) == (EmuState { st: s.v[a as int], ..s }),
        step(s, opcode(15, a, 0, 7), rnd) == (EmuState { v: s.v.update(a as int, s.dt), ..s }),
{
    lemma_opcode_fields(15, a, 1, 5);
    lemma_opcode_fields(15, a, 1, 8);
    lemma_opcode_fields(15, a, 0, 7);
}

/// Setting the delay timer from VX (FX15) and reading it into VY (FY07)
/// copies VX into VY, whatever the sound timer holds.
pub proof fn law_delay_timer_round_trip(s: EmuState, a: u16, b: u16, r1: u8, r2: u8)
    requires
        shaped(s),
        a < 16,
        b < 16,
    ensures
        step(step(s, opcode(15, a, 1, 5), r1), opcode(15, b, 0, 7), r2).v[b as int] == s.v[a as int],
{
    law_timer_registers(s, a, r1);
    law_timer_registers(step(s, opcode(15, a, 1, 5), r1), b, r2);
}

// ---------------------------------------------------------------------------
// Jumps, index register, loads of constants
// ---------------------------------------------------------------------------

/// 1NNN jumps to NNN; BNNN jumps to V0 + NNN (an arithmetic sum); ANNN sets I
/// to NNN; FX1E adds VX to I modulo 2^16; FX29 sets I to 5 * VX, the address
/// of the font glyph of VX. Nothing else changes.
pub proof fn law_jumps_and_index(s: EmuState, a: u16, b: u16, n: u16, rnd: u8)
    requires
        shaped(s),
        a < 16,
        b < 16,
        n < 16,
    ensures
        step(s, opcode(1, a, b, n), rnd) == (EmuState { pc: (a * 256 + b * 16 + n) as u16, ..s }),
        step(s, opcode(11, a, b, n), rnd).pc as int == s.v[0] + a * 256 + b * 16 + n,
        step(s, opcode(11, a, b, n), rnd) == (EmuState { pc: step(s, opcode(11, a, b, n), rnd).pc, ..s }),
        step(s, opcode(10, a, b, n), rnd) == (EmuState { i: (a * 256 + b * 16 + n) as u16, ..s }),
        step(s, opcode(15, a, 1, 14), rnd).i as int == (s.i + s.v[a as int]) % 65536,
        step(s, opcode(15, a, 1, 14), rnd) == (EmuState { i: step(s, opcode(15, a, 1, 14), rnd).i, ..s }),
        step(s, opcode(15, a, 2, 9), rnd).i as int == 5 * s.v[a as int],
        step(s, opcode(15, a, 2, 9), rnd) == (EmuState { i: step(s, opcode(15, a, 2, 9), rnd).i, ..s }),
{
    lemma_opcode_fields(1, a, b, n);
    lemma_opcode_fields(11, a, b, n);
    lemma_opcode_fields(10, a, b, n);
    lemma_opcode_fields(15, a, 1, 14);
    lemma_opcode_fields(15, a, 2, 9);
}

/// 6XKK sets VX to KK; 7XKK adds KK to VX modulo 256 and leaves VF alone;
/// CXKK sets VX to the random byte masked by KK.
pub proof fn law_register_constants(s: EmuState, a: u16, k: u16, rnd: u8)
    requires
        shaped(s),
        a < 16,
        k < 256,
    ensures
        step(s, opcode(6, a, k / 16, k % 16), rnd) == (EmuState { v: s.v.update(a as int, k as u8), ..s }),
        step(s, opcode(7, a, k / 16, k % 16), rnd).v[a as int] as int == (s.v[a as int] + k) % 256,
        step(s, opcode(7, a, k / 16, k % 16), rnd) == (EmuState {
            v: s.v.update(a as int, step(s, opcode(7, a, k / 16, k % 16), rnd).v[a as int]),
            ..s
        }),
        step(s, opcode(12, a, k / 16, k % 16), rnd) == (EmuState { v: s.v.update(a as int, rnd & (k as u8)), ..s }),
{
    lemma_opcode_fields(6, a, k / 16, k % 16);
    lemma_opcode_fields(7, a, k / 16, k % 16);
    lemma_opcode_fields(12, a, k / 16, k % 16);
}

// ---------------------------------------------------------------------------
// Screen, calls, memory
// ---------------------------------------------------------------------------

/// 00E0 turns every pixel off and changes nothing else.
pub proof fn law_clear_screen(s: EmuState, rnd: u8)
    requires
        shaped(s),
    ensures
        forall|k: int| 0 <= k < 2048 ==> !#[trigger] step(s, 0x00E0, rnd).screen[k],
        step(s, 0x00E0, rnd).screen.len() == 2048,
        step(s, 0x00E0, rnd) == (EmuState { screen: step(s, 0x00E0, rnd).screen, ..s }),
{
    lemma_opcode_fields(0, 0, 14, 0);
}

/// 2NNN pushes the program counter and jumps to NNN; 00EE pops the most
/// recent return address into the program counter.
pub proof fn law_call_and_return(s: EmuState, a: u16, b: u16, n: u16, rnd: u8)
    requires
        shaped(s),
        a < 16,
        b < 16,
        n < 16,
    ensures
        s.sp < 16 ==> step(s, opcode(2, a, b, n), rnd) == (EmuState {
            pc: (a * 256 + b * 16 + n) as u16,
            stack: s.stack.update(s.sp as int, s.pc),
            sp: (s.sp + 1) as u16,
            ..s
        }),
        s.sp > 0 ==> step(s, 0x00EE, rnd) == (EmuState {
            pc: s.stack[s.sp - 1],
            sp: (s.sp - 1) as u16,
            ..s
        }),
{
    lemma_opcode_fields(2, a, b, n);
    lemma_opcode_fields(0, 0, 14, 14);
}

/// FX55 copies V0..=VX to memory at I..=I+X, and FX65 copies memory at
/// I..=I+X into V0..=VX; everything else, I included, is left as it was.
pub proof fn law_register_dumps(s: EmuState, a: u16, rnd: u8)
    requires
        shaped(s),
        a < 16,
        s.i + a < 4096,
    ensures
        ({
            let st = step(s, opcode(15, a, 5, 5), rnd);
            &&& st.ram.len() == 4096
            &&& forall|j: int| 0 <= j <= a ==> #[trigger] st.ram[s.i + j] == s.v[j]
            &&& forall|j: int| 0 <= j < 4096 && !(s.i <= j <= s.i + a) ==> #[trigger] st.ram[j] == s.ram[j]
            &&& st == (EmuState { ram: st.ram, ..s })
        }),
        ({
            let ld = step(s, opcode(15, a, 6, 5), rnd);
            &&& ld.v.len() == 16
            &&& forall|j: int| 0 <= j <= a ==> #[trigger] ld.v[j] == s.ram[s.i + j]
            &&& forall|j: int| a < j < 16 ==> #[trigger] ld.v[j] == s.v[j]
            &&& ld == (EmuState { v: ld.v, ..s })
        }),
{
    lemma_opcode_fields(15, a, 5, 5);
    lemma_opcode_fields(15, a, 6, 5);
}

} // verus!
