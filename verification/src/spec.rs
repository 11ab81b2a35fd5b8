//! The mathematical model of the machine and of each instruction.
use vstd::prelude::*;

verus! {

/// The built-in hexadecimal font: five rows of sprite data for each digit 0..=F.
pub open spec fn font_seq() -> Seq<u8> {
    seq![
        0xF0, 0x90, 0x90, 0x90, 0xF0, 0x20, 0x60, 0x20, 0x20, 0x70,
        0xF0, 0x10, 0xF0, 0x80, 0xF0, 0xF0, 0x10, 0xF0, 0x10, 0xF0,
        0x90, 0x90, 0xF0, 0x10, 0x10, 0xF0, 0x80, 0xF0, 0x10, 0xF0,
        0xF0, 0x80, 0xF0, 0x90, 0xF0, 0xF0, 0x10, 0x20, 0x40, 0x40,
        0xF0, 0x90, 0xF0, 0x90, 0xF0, 0xF0, 0x90, 0xF0, 0x10, 0xF0,
        0xF0, 0x90, 0xF0, 0x90, 0x90, 0xE0, 0x90, 0xE0, 0x90, 0xE0,
        0xF0, 0x80, 0x80, 0x80, 0xF0, 0xE0, 0x90, 0x90, 0x90, 0xE0,
        0xF0, 0x80, 0xF0, 0x80, 0xF0, 0xF0, 0x80, 0xF0, 0x80, 0x80
    ]
}

/// The abstract state of the machine.
#[verifier::ext_equal]
pub struct EmuState {
    pub pc: u16,
    pub ram: Seq<u8>,
    pub screen: Seq<bool>,
    pub v: Seq<u8>,
    pub i: u16,
    pub sp: u16,
    pub stack: Seq<u16>,
    pub keys: Seq<bool>,
    pub dt: u8,
    pub st: u8,
}

/// Every sequence of the state has the length of the memory it models.
pub open spec fn shaped(s: EmuState) -> bool {
    &&& s.ram.len() == 4096
    &&& s.screen.len() == 2048
    &&& s.v.len() == 16
    &&& s.stack.len() == 16
    &&& s.keys.len() == 16
}

/// Memory after power-on: the font at address 0, zeros elsewhere.
pub open spec fn initial_ram() -> Seq<u8> {
    font_seq() + Seq::new(4016, |k: int| 0u8)
}

/// The display with every pixel off.
pub open spec fn blank_screen() -> Seq<bool> {
    Seq::new(2048, |k: int| false)
}

/// The state of a freshly created (or reset) machine.
pub open spec fn initial_state() -> EmuState {
    EmuState {
        pc: 0x200,
        ram: initial_ram(),
        screen: blank_screen(),
        v: Seq::new(16, |k: int| 0u8),
        i: 0,
        sp: 0,
        stack: Seq::new(16, |k: int| 0u16),
        keys: Seq::new(16, |k: int| false),
        dt: 0,
        st: 0,
    }
}

// ---------------------------------------------------------------------------
// Opcode fields
// ---------------------------------------------------------------------------

/// Highest nibble of an opcode: its family.
pub open spec fn nib1(op: u16) -> u16 { op / 4096 }
/// Second nibble: register X.
pub open spec fn nib2(op: u16) -> u16 { (op / 256) % 16 }
/// Third nibble: register Y.
pub open spec fn nib3(op: u16) -> u16 { (op / 16) % 16 }
/// Lowest nibble: N.
pub open spec fn nib4(op: u16) -> u16 { op % 16 }
/// Lowest twelve bits: address NNN.
pub open spec fn nnn(op: u16) -> u16 { op % 4096 }
/// Lowest byte: constant NN.
pub open spec fn nn(op: u16) -> u8 { (op % 256) as u8 }

/// Register X of an opcode, as an index.
pub open spec fn rx(op: u16) -> int { nib2(op) as int }
/// Register Y of an opcode, as an index.
pub open spec fn ry(op: u16) -> int { nib3(op) as int }

// ---------------------------------------------------------------------------
// Small state updates
// ---------------------------------------------------------------------------

/// Sets register `x` to `val`.
pub open spec fn set_v(s: EmuState, x: int, val: u8) -> EmuState {
    EmuState { v: s.v.update(x, val), ..s }
}

/// Sets register `x` to `val`, then the flag register VF to `flag`.
pub open spec fn set_v_flag(s: EmuState, x: int, val: u8, flag: u8) -> EmuState {
    EmuState { v: s.v.update(x, val).update(15, flag), ..s }
}

/// Skips the next instruction when `cond` holds.
pub open spec fn skip_if(s: EmuState, cond: bool) -> EmuState {
    if cond { EmuState { pc: (s.pc + 2) as u16, ..s } } else { s }
}

/// The condition under which a skip instruction (3XNN, 4XNN, 5XY0, 9XY0,
/// EX9E, EXA1) skips.
pub open spec fn skip_cond(s: EmuState, op: u16) -> bool {
    let d = nib1(op);
    if d == 3 {
        s.v[rx(op)] == nn(op)
    } else if d == 4 {
        s.v[rx(op)] != nn(op)
    } else if d == 5 {
        s.v[rx(op)] == s.v[ry(op)]
    } else if d == 9 {
        s.v[rx(op)] != s.v[ry(op)]
    } else if d == 14 && nib3(op) == 9 {
        s.keys[s.v[rx(op)] as int]
    } else {
        !s.keys[s.v[rx(op)] as int]
    }
}

/// Pushes `val` on the call stack.
pub open spec fn push_state(s: EmuState, val: u16) -> EmuState {
    EmuState { stack: s.stack.update(s.sp as int, val), sp: (s.sp + 1) as u16, ..s }
}

/// The state after popping the call stack.
pub open spec fn pop_state(s: EmuState) -> EmuState {
    EmuState { sp: (s.sp - 1) as u16, ..s }
}

/// The value a pop returns: the entry just below the stack pointer.
pub open spec fn pop_value(s: EmuState) -> u16 {
    s.stack[s.sp - 1]
}

/// The effect of the 60 Hz timer tick: both timers count down to zero.
pub open spec fn timers_ticked(s: EmuState) -> EmuState {
    EmuState {
        dt: if s.dt > 0 { (s.dt - 1) as u8 } else { 0 },
        st: if s.st > 0 { (s.st - 1) as u8 } else { 0 },
        ..s
    }
}

/// The state after `k` timer ticks in a row.
pub open spec fn timers_ticked_n(s: EmuState, k: nat) -> EmuState
    decreases k,
{
    if k == 0 {
        s
    } else {
        timers_ticked(timers_ticked_n(s, (k - 1) as nat))
    }
}

/// `ram` after `data` is copied to the program area starting at 0x200.
pub open spec fn loaded_ram(ram: Seq<u8>, data: Seq<u8>) -> Seq<u8> {
    Seq::new(ram.len(), |k: int| if 0x200 <= k < 0x200 + data.len() { data[k - 0x200] } else { ram[k] })
}

// ---------------------------------------------------------------------------
// Drawing
// ---------------------------------------------------------------------------

/// Bit `col` of a sprite row, counting from the most significant bit.
pub open spec fn sprite_bit(row: u8, col: int) -> bool {
    (row >> ((7 - col) as u8)) & 1u8 == 1u8
}

/// Column of pixel `k` relative to a sprite drawn at horizontal position
/// `x`, wrapping around the screen's edge.
pub open spec fn sprite_col(x: int, k: int) -> int {
    (k % 64 - x) % 64
}

/// Row of pixel `k` relative to a sprite drawn at vertical position `y`,
/// wrapping around the screen's edge.
pub open spec fn sprite_row(y: int, k: int) -> int {
    (k / 64 - y) % 32
}

/// Whether pixel `k` is set by the `n`-row sprite stored at `ram[i..i + n]`
/// drawn at `(x, y)`.
pub open spec fn sprite_covers(ram: Seq<u8>, i: int, x: int, y: int, n: int, k: int) -> bool {
    let c = sprite_col(x, k);
    let r = sprite_row(y, k);
    c < 8 && r < n && sprite_bit(ram[i + r], c)
}

/// The screen after XOR-drawing a sprite.
pub open spec fn drawn_screen(screen: Seq<bool>, ram: Seq<u8>, i: int, x: int, y: int, n: int) -> Seq<bool> {
    Seq::new(2048, |k: int| screen[k] != sprite_covers(ram, i, x, y, n, k))
}

/// Whether drawing the sprite turns off a pixel that was on.
pub open spec fn collides(screen: Seq<bool>, ram: Seq<u8>, i: int, x: int, y: int, n: int) -> bool {
    exists|k: int| 0 <= k < 2048 && #[trigger] sprite_covers(ram, i, x, y, n, k) && screen[k]
}

/// DXYN: draw the N-row sprite at address I at (VX, VY); VF reports a collision.
pub open spec fn step_draw(s: EmuState, op: u16) -> EmuState {
    let x = s.v[rx(op)] as int;
    let y = s.v[ry(op)] as int;
    let n = nib4(op) as int;
    EmuState {
        screen: drawn_screen(s.screen, s.ram, s.i as int, x, y, n),
        v: s.v.update(15, if collides(s.screen, s.ram, s.i as int, x, y, n) { 1u8 } else { 0u8 }),
        ..s
    }
}

// ---------------------------------------------------------------------------
// Instruction families
// ---------------------------------------------------------------------------

/// 0x0NNN family: 0000 does nothing, 00E0 clears the screen, 00EE returns.
pub open spec fn step_sys(s: EmuState, op: u16) -> EmuState {
    if op == 0x00E0 {
        EmuState { screen: blank_screen(), ..s }
    } else if op == 0x00EE {
        EmuState { pc: pop_value(s), ..pop_state(s) }
    } else {
        s
    }
}

/// 8XYN family: register to register arithmetic and logic.
pub open spec fn step_alu(s: EmuState, op: u16) -> EmuState {
    let x = rx(op);
    let vx = s.v[x];
    let vy = s.v[ry(op)];
    let n = nib4(op);
    if n == 0 {
        set_v(s, x, vy)
    } else if n == 1 {
        set_v(s, x, vx | vy)
    } else if n == 2 {
        set_v(s, x, vx & vy)
    } else if n == 3 {
        set_v(s, x, vx ^ vy)
    } else if n == 4 {
        set_v_flag(s, x, ((vx + vy) % 256) as u8, if vx + vy > 255 { 1u8 } else { 0u8 })
    } else if n == 5 {
        set_v_flag(s, x, ((vx - vy) % 256) as u8, if vx < vy { 0u8 } else { 1u8 })
    } else if n == 6 {
        set_v_flag(s, x, vx / 2, vx % 2)
    } else if n == 7 {
        set_v_flag(s, x, ((vy - vx) % 256) as u8, if vy < vx { 0u8 } else { 1u8 })
    } else {
        // 8XYE; `step_ok` admits no other low nibble
        set_v_flag(s, x, ((vx * 2) % 256) as u8, vx / 128)
    }
}

/// Index of the first pressed key at or after `from`, or the number of keys
/// when none is pressed.
pub open spec fn first_pressed(keys: Seq<bool>, from: nat) -> nat
    decreases keys.len() - from,
{
    if from >= keys.len() {
        keys.len()
    } else if keys[from as int] {
        from
    } else {
        first_pressed(keys, from + 1)
    }
}

/// FX.. family: timers, keypad wait, index register, BCD, register dumps.
pub open spec fn step_misc(s: EmuState, op: u16) -> EmuState {
    let x = rx(op);
    let vx = s.v[x];
    let low = op % 256;
    if low == 0x07 {
        set_v(s, x, s.dt)
    } else if low == 0x0A {
        let k = first_pressed(s.keys, 0);
        if k < s.keys.len() {
            set_v(s, x, k as u8)
        } else {
            EmuState { pc: (s.pc - 2) as u16, ..s }
        }
    } else if low == 0x15 {
        EmuState { dt: vx, ..s }
    } else if low == 0x18 {
        EmuState { st: vx, ..s }
    } else if low == 0x1E {
        EmuState { i: ((s.i + vx) % 65536) as u16, ..s }
    } else if low == 0x29 {
        EmuState { i: (vx * 5) as u16, ..s }
    } else if low == 0x33 {
        EmuState {
            ram: s.ram.update(s.i as int, vx / 100).update(s.i + 1, (vx / 10) % 10).update(
                s.i + 2,
                vx % 10,
            ),
            ..s
        }
    } else if low == 0x55 {
        EmuState {
            ram: Seq::new(
                s.ram.len(),
                |k: int| if s.i <= k <= s.i + x { s.v[k - s.i] } else { s.ram[k] },
            ),
            ..s
        }
    } else {
        EmuState {
            v: Seq::new(s.v.len(), |k: int| if k <= x { s.ram[s.i + k] } else { s.v[k] }),
            ..s
        }
    }
}

/// The state after executing `op`; `rnd` is the random byte that CXNN uses
/// and no other instruction reads.
pub open spec fn step(s: EmuState, op: u16, rnd: u8) -> EmuState {
    let d = nib1(op);
    let x = rx(op);
    if d == 0 {
        step_sys(s, op)
    } else if d == 1 {
        EmuState { pc: nnn(op), ..s }
    } else if d == 2 {
        EmuState { pc: nnn(op), ..push_state(s, s.pc) }
    } else if d == 3 || d == 4 || d == 5 || d == 9 || d == 14 {
        skip_if(s, skip_cond(s, op))
    } else if d == 6 {
        set_v(s, x, nn(op))
    } else if d == 7 {
        set_v(s, x, ((s.v[x] + nn(op)) % 256) as u8)
    } else if d == 8 {
        step_alu(s, op)
    } else if d == 10 {
        EmuState { i: nnn(op), ..s }
    } else if d == 11 {
        EmuState { pc: (s.v[0] + nnn(op)) as u16, ..s }
    } else if d == 12 {
        set_v(s, x, rnd & nn(op))
    } else if d == 13 {
        step_draw(s, op)
    } else {
        step_misc(s, op)
    }
}

/// Whether the FX.. opcode is one the machine knows, and its memory or
/// program-counter use stays in range.
pub open spec fn misc_ok(s: EmuState, op: u16) -> bool {
    let low = op % 256;
    let x = rx(op);
    if low == 0x07 || low == 0x15 || low == 0x18 || low == 0x1E || low == 0x29 {
        true
    } else if low == 0x0A {
        first_pressed(s.keys, 0) < s.keys.len() || s.pc >= 2
    } else if low == 0x33 {
        s.i + 2 < 4096
    } else if low == 0x55 || low == 0x65 {
        s.i + x < 4096
    } else {
        false
    }
}

/// Whether executing `op` in state `s` succeeds: the opcode is known, the
/// call stack neither overflows nor underflows, every memory, key and
/// register access stays in range and the program counter does not leave
/// the 16-bit range. On every other input the interpreter stops with a panic.
pub open spec fn step_ok(s: EmuState, op: u16) -> bool {
    let d = nib1(op);
    if d == 0 {
        op == 0 || op == 0x00E0 || (op == 0x00EE && s.sp > 0)
    } else if d == 2 {
        s.sp < 16
    } else if d == 3 || d == 4 {
        skip_cond(s, op) ==> s.pc + 2 <= 0xFFFF
    } else if d == 5 || d == 9 {
        nib4(op) == 0 && (skip_cond(s, op) ==> s.pc + 2 <= 0xFFFF)
    } else if d == 8 {
        nib4(op) <= 7 || nib4(op) == 14
    } else if d == 13 {
        nib4(op) == 0 || s.i + nib4(op) <= 4096
    } else if d == 14 {
        &&& ((nib3(op) == 9 && nib4(op) == 14) || (nib3(op) == 10 && nib4(op) == 1))
        &&& s.v[rx(op)] < 16
        &&& (skip_cond(s, op) ==> s.pc + 2 <= 0xFFFF)
    } else if d == 15 {
        misc_ok(s, op)
    } else {
        true
    }
}

/// The opcode at the program counter: two bytes, most significant first.
pub open spec fn fetch_op(s: EmuState) -> u16 {
    (s.ram[s.pc as int] * 256 + s.ram[s.pc + 1]) as u16
}

/// The state after fetching: the program counter moves past the opcode.
pub open spec fn fetched(s: EmuState) -> EmuState {
    EmuState { pc: (s.pc + 2) as u16, ..s }
}

/// Whether one fetch-execute cycle succeeds.
pub open spec fn tick_ok(s: EmuState) -> bool {
    s.pc + 1 < 4096 && step_ok(fetched(s), fetch_op(s))
}

/// The state after one fetch-execute cycle that drew `rnd` as its random byte.
pub open spec fn tick_state(s: EmuState, rnd: u8) -> EmuState {
    step(fetched(s), fetch_op(s), rnd)
}

} // verus!
