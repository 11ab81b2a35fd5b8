//! Properties that span several instructions or hold of every instruction.
use vstd::prelude::*;
use crate::spec::{
    EmuState, shaped, step, step_ok, nib1, nib4, nn, rx, ry, push_state, pop_state, pop_value,
    drawn_screen, blank_screen, collides, tick_ok, tick_state, fetched, fetch_op, first_pressed,
    timers_ticked_n, loaded_ram, initial_state,
};

verus! {

/// Every instruction keeps the shape of the state: memory, screen,
/// registers, stack and keys keep their sizes, and the stack pointer stays
/// within the stack.
pub proof fn law_step_keeps_shape(s: EmuState, op: u16, rnd: u8)
    requires
        shaped(s),
        s.sp <= 16,
        step_ok(s, op),
    ensures
        shaped(step(s, op, rnd)),
        step(s, op, rnd).sp <= 16,
{
}

/// No instruction changes which keys are held: only `keypress` does.
pub proof fn law_step_keeps_keys(s: EmuState, op: u16, rnd: u8)
    ensures
        step(s, op, rnd).keys == s.keys,
{
}

/// The random byte matters to CXNN alone: every other instruction has the
/// same effect whatever byte is drawn.
pub proof fn law_only_cxnn_is_random(s: EmuState, op: u16, r1: u8, r2: u8)
    requires
        nib1(op) != 12,
    ensures
        step(s, op, r1) == step(s, op, r2),
{
}

/// CXNN sets VX to a random byte masked by NN: no bit outside NN is ever set.
pub proof fn law_random_is_masked(s: EmuState, op: u16, rnd: u8)
    requires
        shaped(s),
        nib1(op) == 12,
    ensures
        step(s, op, rnd).v[rx(op)] & !nn(op) == 0u8,
        step(s, op, rnd).v[rx(op)] == rnd & nn(op),
{
    let m = nn(op);
    assert((rnd & m) & !m == 0u8) by (bit_vector);
}

/// Popping right after a push gives back the pushed value and the stack
/// pointer it started from.
pub proof fn law_pop_after_push(s: EmuState, val: u16)
    requires
        shaped(s),
        s.sp < 16,
    ensures
        pop_value(push_state(s, val)) == val,
        pop_state(push_state(s, val)) == (EmuState { stack: s.stack.update(s.sp as int, val), ..s }),
{
}

/// A subroutine call (2NNN) followed by a return (00EE) comes back to the
/// address the call was made from, with the stack pointer where it was.
pub proof fn law_call_then_return(s: EmuState, op: u16, r1: u8, r2: u8)
    requires
        shaped(s),
        nib1(op) == 2,
        s.sp < 16,
    ensures
        step_ok(s, op),
        step_ok(step(s, op, r1), 0x00EE),
        step(step(s, op, r1), 0x00EE, r2) == (EmuState { stack: s.stack.update(s.sp as int, s.pc), ..s }),
{
    assert(nib1(0x00EEu16) == 0);
}

/// Drawing a sprite onto a screen twice gives the screen back.
pub proof fn law_draw_twice_erases(screen: Seq<bool>, ram: Seq<u8>, i: int, x: int, y: int, n: int)
    requires
        screen.len() == 2048,
    ensures
        drawn_screen(drawn_screen(screen, ram, i, x, y, n), ram, i, x, y, n) == screen,
{
    assert(drawn_screen(drawn_screen(screen, ram, i, x, y, n), ram, i, x, y, n) =~= screen);
}

/// Executing the same DXYN twice, where neither coordinate register is VF,
/// restores the screen: sprites are drawn by XOR.
pub proof fn law_draw_instruction_twice(s: EmuState, op: u16, r1: u8, r2: u8)
    requires
        shaped(s),
        nib1(op) == 13,
        step_ok(s, op),
        rx(op) != 15,
        ry(op) != 15,
    ensures
        step_ok(step(s, op, r1), op),
        step(step(s, op, r1), op, r2).screen == s.screen,
{
    let s1 = step(s, op, r1);
    assert(s1.v[rx(op)] == s.v[rx(op)]);
    assert(s1.v[ry(op)] == s.v[ry(op)]);
    law_draw_twice_erases(s.screen, s.ram, s.i as int, s.v[rx(op)] as int, s.v[ry(op)] as int, nib4(op) as int);
}

/// On a cleared screen (00E0) a sprite never collides: the draw that follows
/// sets VF to 0.
pub proof fn law_draw_after_clear_no_collision(s: EmuState, op: u16, r1: u8, r2: u8)
    requires
        shaped(s),
        nib1(op) == 13,
        step_ok(s, op),
    ensures
        step_ok(step(s, 0x00E0, r1), op),
        step(step(s, 0x00E0, r1), op, r2).v[15] == 0,
{
    assert(nib1(0x00E0u16) == 0);
    let s1 = step(s, 0x00E0, r1);
    assert(s1.screen == blank_screen());
    let x = s1.v[rx(op)] as int;
    let y = s1.v[ry(op)] as int;
    assert(!collides(s1.screen, s1.ram, s1.i as int, x, y, nib4(op) as int));
}

/// FX33 stores the decimal digits of VX: hundreds, tens and ones, each
/// below ten, which together make VX again.
pub proof fn law_bcd_digits(s: EmuState, op: u16, rnd: u8)
    requires
        shaped(s),
        nib1(op) == 15,
        op % 256 == 0x33,
        step_ok(s, op),
    ensures
        ({
            let t = step(s, op, rnd);
            let i = s.i as int;
            &&& t.ram[i] < 10
            &&& t.ram[i + 1] < 10
            &&& t.ram[i + 2] < 10
            &&& 100 * t.ram[i] + 10 * t.ram[i + 1] + t.ram[i + 2] == s.v[rx(op)]
        }),
{
    let vx = s.v[rx(op)];
    assert(100 * (vx / 100) + 10 * ((vx / 10) % 10) + vx % 10 == vx);
}

/// Storing V0..=VX to memory (FX55) and loading them back from the same
/// address (FX65) leaves the registers as they were.
pub proof fn law_store_then_load(s: EmuState, x: u16, r1: u8, r2: u8)
    requires
        shaped(s),
        x < 16,
        s.i + x < 4096,
    ensures
        step_ok(s, (0xF055 + x * 256) as u16),
        step_ok(step(s, (0xF055 + x * 256) as u16, r1), (0xF065 + x * 256) as u16),
        step(step(s, (0xF055 + x * 256) as u16, r1), (0xF065 + x * 256) as u16, r2).v == s.v,
{
    let store = (0xF055 + x * 256) as u16;
    let load = (0xF065 + x * 256) as u16;
    assert(nib1(store) == 15 && rx(store) == x && store % 256 == 0x55);
    assert(nib1(load) == 15 && rx(load) == x && load % 256 == 0x65);
    let s1 = step(s, store, r1);
    assert(step(s1, load, r2).v =~= s.v);
}

/// Loading V0..=VX from memory (FX65) and storing them back to the same
/// address (FX55) leaves memory as it was.
pub proof fn law_load_then_store(s: EmuState, x: u16, r1: u8, r2: u8)
    requires
        shaped(s),
        x < 16,
        s.i + x < 4096,
    ensures
        step_ok(s, (0xF065 + x * 256) as u16),
        step_ok(step(s, (0xF065 + x * 256) as u16, r1), (0xF055 + x * 256) as u16),
        step(step(s, (0xF065 + x * 256) as u16, r1), (0xF055 + x * 256) as u16, r2).ram == s.ram,
{
    let store = (0xF055 + x * 256) as u16;
    let load = (0xF065 + x * 256) as u16;
    assert(nib1(store) == 15 && rx(store) == x && store % 256 == 0x55);
    assert(nib1(load) == 15 && rx(load) == x && load % 256 == 0x65);
    let s1 = step(s, load, r1);
    assert(step(s1, store, r2).ram =~= s.ram);
}

/// 8XY4 adds with carry: the new VX and the carry flag VF together hold the
/// full sum (when X is not VF itself).
pub proof fn law_add_with_carry(s: EmuState, op: u16, rnd: u8)
    requires
        shaped(s),
        nib1(op) == 8,
        nib4(op) == 4,
        rx(op) != 15,
    ensures
        ({
            let t = step(s, op, rnd);
            &&& t.v[15] <= 1
            &&& t.v[rx(op)] + 256 * t.v[15] == s.v[rx(op)] + s.v[ry(op)]
        }),
{
}

/// 8XY5 subtracts with borrow: VF is 1 when no borrow occurs, and the new VX
/// is the difference modulo 256 (when X is not VF itself).
pub proof fn law_sub_with_borrow(s: EmuState, op: u16, rnd: u8)
    requires
        shaped(s),
        nib1(op) == 8,
        nib4(op) == 5,
        rx(op) != 15,
    ensures
        ({
            let t = step(s, op, rnd);
            &&& t.v[15] <= 1
            &&& t.v[rx(op)] == s.v[rx(op)] - s.v[ry(op)] + 256 * (1 - t.v[15])
        }),
{
}

/// 3XNN and 4XNN are complementary: for the same register and constant,
/// exactly one of them skips the next instruction.
pub proof fn law_skip_complementary(s: EmuState, x: u16, k: u8, r1: u8, r2: u8)
    requires
        shaped(s),
        x < 16,
        s.pc + 2 <= 0xFFFF,
    ensures
        step(s, (0x3000 + x * 256 + k) as u16, r1).pc + step(s, (0x4000 + x * 256 + k) as u16, r2).pc
            == 2 * s.pc + 2,
{
    let eq = (0x3000 + x * 256 + k) as u16;
    let ne = (0x4000 + x * 256 + k) as u16;
    assert(nib1(eq) == 3 && rx(eq) == x && nn(eq) == k);
    assert(nib1(ne) == 4 && rx(ne) == x && nn(ne) == k);
}

/// FX0A either stores the first held key in VX, or, when no key is held,
/// steps the program counter back so that the same instruction runs again.
pub proof fn law_wait_for_key(s: EmuState, op: u16, rnd: u8)
    requires
        shaped(s),
        nib1(op) == 15,
        op % 256 == 0x0A,
        step_ok(s, op),
    ensures
        ({
            let t = step(s, op, rnd);
            let k = first_pressed(s.keys, 0);
            &&& k <= 16
            &&& (k < 16 ==> s.keys[k as int] && t.v[rx(op)] == k && t.pc == s.pc)
            &&& (k < 16 ==> forall|j: int| 0 <= j < k ==> !s.keys[j])
            &&& (k == 16 ==> (forall|j: int| 0 <= j < 16 ==> !s.keys[j]) && t.pc == s.pc - 2 && t.v == s.v)
        }),
{
    lemma_first_pressed(s.keys, 0);
}

/// After `k` timer ticks each timer has dropped by `k`, stopping at zero,
/// and nothing else has changed.
pub proof fn law_timers_after_ticks(s: EmuState, k: nat)
    ensures
        timers_ticked_n(s, k) == (EmuState {
            dt: if s.dt >= k { (s.dt - k) as u8 } else { 0u8 },
            st: if s.st >= k { (s.st - k) as u8 } else { 0u8 },
            ..s
        }),
    decreases k,
{
    if k > 0 {
        law_timers_after_ticks(s, (k - 1) as nat);
    }
}

/// `first_pressed` finds the lowest held key at or after `from`.
proof fn lemma_first_pressed(keys: Seq<bool>, from: nat)
    requires
        from <= keys.len(),
    ensures
        from <= first_pressed(keys, from) <= keys.len(),
        first_pressed(keys, from) < keys.len() ==> keys[first_pressed(keys, from) as int],
        forall|j: int| from <= j < first_pressed(keys, from) ==> !keys[j],
    decreases keys.len() - from,
{
    if from < keys.len() && !keys[from as int] {
        lemma_first_pressed(keys, from + 1);
    }
}

/// A fetch-execute cycle reads the opcode most significant byte first and
/// runs it with the program counter already past it.
pub proof fn law_tick_runs_fetched_opcode(s: EmuState, rnd: u8)
    requires
        tick_ok(s),
    ensures
        fetch_op(s) == s.ram[s.pc as int] * 256 + s.ram[s.pc + 1],
        tick_state(s, rnd) == step(fetched(s), fetch_op(s), rnd),
        fetched(s).pc == s.pc + 2,
{
    assert(s.ram[s.pc as int] * 256 + s.ram[s.pc + 1] <= 0xFFFF) by (nonlinear_arith)
        requires
            s.ram[s.pc as int] <= 255,
            s.ram[s.pc + 1] <= 255,
    ;
}

/// Loading a program puts its bytes at 0x200, 0x201, ... in order and leaves
/// every other byte of memory, the font included, as it was.
pub proof fn law_load_places_program(ram: Seq<u8>, data: Seq<u8>)
    requires
        ram.len() == 4096,
        data.len() <= 4096 - 0x200,
    ensures
        loaded_ram(ram, data).len() == 4096,
        forall|j: int| 0 <= j < data.len() ==> #[trigger] loaded_ram(ram, data)[0x200 + j] == data[j],
        forall|j: int| 0 <= j < 4096 && !(0x200 <= j < 0x200 + data.len()) ==> #[trigger] loaded_ram(ram, data)[j] == ram[j],
{
}

/// A new machine starts at 0x200 with every register, timer, key, pixel and
/// stack entry zero; memory holds the font below address 80 and zeros from
/// there on, and each font row uses only the left four pixels of a sprite row.
pub proof fn law_initial_state()
    ensures
        ({
            let s = initial_state();
            &&& shaped(s)
            &&& s.pc == 0x200 && s.i == 0 && s.sp == 0 && s.dt == 0 && s.st == 0
            &&& forall|k: int| 0 <= k < 16 ==> #[trigger] s.v[k] == 0 && s.stack[k] == 0 && !s.keys[k]
            &&& forall|k: int| 0 <= k < 2048 ==> !#[trigger] s.screen[k]
            &&& forall|k: int| 80 <= k < 4096 ==> #[trigger] s.ram[k] == 0
            &&& forall|k: int| 0 <= k < 80 ==> #[trigger] s.ram[k] & 0x0Fu8 == 0
        }),
{
    let s = initial_state();
    assert forall|k: int| 0 <= k < 80 implies #[trigger] s.ram[k] & 0x0Fu8 == 0 by {
        let b = s.ram[k];
        assert(b == 0xF0 || b == 0x90 || b == 0x20 || b == 0x60 || b == 0x70 || b == 0x10 || b == 0x80
            || b == 0x40 || b == 0xE0);
        assert(b == 0xF0u8 || b == 0x90u8 || b == 0x20u8 || b == 0x60u8 || b == 0x70u8 || b == 0x10u8
            || b == 0x80u8 || b == 0x40u8 || b == 0xE0u8 ==> b & 0x0Fu8 == 0) by (bit_vector);
    }
}

} // verus!
