//! The executable interpreter.
use vstd::prelude::*;
use crate::spec::{
    EmuState, font_seq, initial_ram, initial_state, loaded_ram, push_state, pop_state, pop_value,
    timers_ticked, fetch_op, fetched, step, step_ok, step_sys, step_alu, step_misc, step_draw,
    misc_ok, first_pressed, shaped, sprite_covers, sprite_row, sprite_col, sprite_bit,
    drawn_screen, collides, nib1, nib2, nib3, nib4, nnn, nn, tick_ok, tick_state,
};
use crate::rng::random_byte;
use crate::lemmas::lemma_sprite_pixel;

verus! {

broadcast use vstd::array::group_array_axioms;

/// A CHIP-8 machine: memory, display, registers, call stack, keypad and timers.
#[allow(non_camel_case_types)]
pub struct emu {
    pc: u16,
    ram: [u8; 4096],
    screen: [bool; 2048],
    v_registers: [u8; 16],
    i_register: u16,
    sp: u16,
    stack: [u16; 16],
    keys: [bool; 16],
    dt: u8,
    st: u8,
}

impl View for emu {
    type V = EmuState;

    closed spec fn view(&self) -> EmuState {
        EmuState {
            pc: self.pc,
            ram: self.ram@,
            screen: self.screen@,
            v: self.v_registers@,
            i: self.i_register,
            sp: self.sp,
            stack: self.stack@,
            keys: self.keys@,
            dt: self.dt,
            st: self.st,
        }
    }
}

/// The built-in font as an array.
fn font_table() -> (f: [u8; 80])
    ensures
        f@ == font_seq(),
{
    let f: [u8; 80] = [
        0xF0, 0x90, 0x90, 0x90, 0xF0, 0x20, 0x60, 0x20, 0x20, 0x70,
        0xF0, 0x10, 0xF0, 0x80, 0xF0, 0xF0, 0x10, 0xF0, 0x10, 0xF0,
        0x90, 0x90, 0xF0, 0x10, 0x10, 0xF0, 0x80, 0xF0, 0x10, 0xF0,
        0xF0, 0x80, 0xF0, 0x90, 0xF0, 0xF0, 0x10, 0x20, 0x40, 0x40,
        0xF0, 0x90, 0xF0, 0x90, 0xF0, 0xF0, 0x90, 0xF0, 0x10, 0xF0,
        0xF0, 0x90, 0xF0, 0x90, 0x90, 0xE0, 0x90, 0xE0, 0x90, 0xE0,
        0xF0, 0x80, 0x80, 0x80, 0xF0, 0xE0, 0x90, 0x90, 0x90, 0xE0,
        0xF0, 0x80, 0xF0, 0x80, 0xF0, 0xF0, 0x80, 0xF0, 0x80, 0x80
    ];
    assert(f@ =~= font_seq());
    f
}

/// Memory as it is at power-on: the font followed by zeros.
fn initial_memory() -> (ram: [u8; 4096])
    ensures
        ram@ == initial_ram(),
{
    let mut ram: [u8; 4096] = [0u8; 4096];
    let font = font_table();
    let mut k: usize = 0;
    while k < 80
        invariant
            k <= 80,
            font@ == font_seq(),
            forall|j: int| 0 <= j < k ==> ram@[j] == font_seq()[j],
            forall|j: int| k <= j < 4096 ==> ram@[j] == 0u8,
        decreases 80 - k,
    {
        ram[k] = font[k];
        k = k + 1;
    }
    assert(ram@ =~= initial_ram());
    ram
}

/// The exec decoding of opcode fields agrees with the arithmetic one.
proof fn lemma_fields(op: u16)
    ensures
        (op & 0xF000u16) >> 12u16 == nib1(op),
        (op & 0x0F00u16) >> 8u16 == nib2(op),
        (op & 0x00F0u16) >> 4u16 == nib3(op),
        op & 0x000Fu16 == nib4(op),
        op & 0x0FFFu16 == nnn(op),
        (op & 0x00FFu16) as u8 == nn(op),
        op & 0x00FFu16 == op % 256,
        nib1(op) < 16,
        nib2(op) < 16,
        nib3(op) < 16,
        nib4(op) < 16,
{
    assert((op & 0xF000u16) >> 12u16 == op / 4096) by (bit_vector);
    assert((op & 0x0F00u16) >> 8u16 == (op / 256) % 16) by (bit_vector);
    assert((op & 0x00F0u16) >> 4u16 == (op / 16) % 16) by (bit_vector);
    assert(op & 0x000Fu16 == op % 16) by (bit_vector);
    assert(op & 0x0FFFu16 == op % 4096) by (bit_vector);
    assert(op & 0x00FFu16 == op % 256) by (bit_vector);
}

/// Facts about the shifts and masks on a byte that the 8XY6 and 8XYE
/// instructions use.
proof fn lemma_byte_shifts(b: u8)
    ensures
        b & 1u8 == b % 2,
        b >> 1u8 == b / 2,
        (b >> 7u8) & 1u8 == b / 128,
        (b << 1u8) as int == (b * 2) % 256,
{
    assert(b & 1u8 == b % 2) by (bit_vector);
    assert(b >> 1u8 == b / 2) by (bit_vector);
    assert((b >> 7u8) & 1u8 == b / 128) by (bit_vector);
    assert((b << 1u8) as int == (b * 2) % 256) by (bit_vector);
}

/// Whether pixel `k` is covered by the sprite and lies in a sprite position
/// that comes before row `r0`, column `c0` in drawing order.
spec fn drawn_before(ram: Seq<u8>, i: int, x: int, y: int, n: int, k: int, r0: int, c0: int) -> bool {
    &&& sprite_covers(ram, i, x, y, n, k)
    &&& (sprite_row(y, k) < r0 || (sprite_row(y, k) == r0 && sprite_col(x, k) < c0))
}

/// The exec test of a sprite bit agrees with `sprite_bit`.
proof fn lemma_sprite_bit(b: u8, c: u8)
    requires
        c < 8,
    ensures
        ((b & (0x80u8 >> c)) != 0u8) == sprite_bit(b, c as int),
{
    assert(((b & (0x80u8 >> c)) != 0u8) == ((b >> ((7u8 - c) as u8)) & 1u8 == 1u8)) by (bit_vector)
        requires
            c < 8,
    ;
}

impl emu {
    /// The stack pointer never passes the top of the call stack.
    #[verifier::type_invariant]
    spec fn inv(self) -> bool {
        self.sp <= 16
    }

    /// Every machine has 4096 bytes of memory, 2048 pixels, 16 registers,
    /// 16 stack slots and 16 keys.
    pub proof fn lemma_view_shaped(&self)
        ensures
            shaped(self@),
    {
    }

    /// Creates a machine in its power-on state: the font loaded at address 0,
    /// execution starting at 0x200, everything else zero.
    pub fn new() -> (r: Self)
        ensures
            r@ == initial_state(),
    {
        let r = emu {
            pc: 0x200,
            ram: initial_memory(),
            screen: [false; 2048],
            v_registers: [0u8; 16],
            i_register: 0,
            sp: 0,
            stack: [0u16; 16],
            keys: [false; 16],
            dt: 0,
            st: 0,
        };
        assert(r@ =~= initial_state());
        r
    }

    /// The display, row by row: pixel `(x, y)` is at index `x + 64 * y`.
    pub fn get_display(&self) -> (d: &[bool])
        ensures
            d@ == self@.screen,
            d@.len() == 2048,
    {
        &self.screen
    }

    /// Records whether key `idx` is held down.
    pub fn keypress(&mut self, idx: usize, pressed: bool)
        requires
            idx < 16,
        ensures
            final(self)@ == (EmuState { keys: old(self)@.keys.update(idx as int, pressed), ..old(self)@ }),
    {
        proof {
            use_type_invariant(&*self);
        }
        self.keys[idx] = pressed;
    }

    /// Copies a program into memory at 0x200.
    pub fn load(&mut self, data: &[u8])
        requires
            data@.len() <= 4096 - 0x200,
        ensures
            final(self)@ == (EmuState { ram: loaded_ram(old(self)@.ram, data@), ..old(self)@ }),
    {
        proof {
            use_type_invariant(&*self);
        }
        let start: usize = 0x200;
        let mut k: usize = 0;
        while k < data.len()
            invariant
                k <= data@.len() <= 4096 - 0x200,
                start == 0x200,
                self.sp <= 16,
                self@ == (EmuState { ram: self@.ram, ..old(self)@ }),
                self@.ram.len() == 4096,
                forall|j: int| 0 <= j < 4096 ==> #[trigger] self@.ram[j] == (
                    if 0x200 <= j < 0x200 + k { data@[j - 0x200] } else { old(self)@.ram[j] }),
            decreases data@.len() - k,
        {
            self.ram[start + k] = data[k];
            k = k + 1;
        }
        assert(self@.ram =~= loaded_ram(old(self)@.ram, data@));
    }

    /// Pushes a return address on the call stack.
    pub fn push(&mut self, val: u16)
        requires
            old(self)@.sp < 16,
        ensures
            final(self)@ == push_state(old(self)@, val),
    {
        proof {
            use_type_invariant(&*self);
        }
        self.stack[self.sp as usize] = val;
        self.sp += 1;
    }

    /// Pops the most recent return address off the call stack.
    pub fn pop(&mut self) -> (r: u16)
        requires
            old(self)@.sp > 0,
        ensures
            final(self)@ == pop_state(old(self)@),
            r == pop_value(old(self)@),
    {
        proof {
            use_type_invariant(&*self);
        }
        self.sp -= 1;
        self.stack[self.sp as usize]
    }

    /// Counts the delay and sound timers down by one, stopping at zero.
    pub fn tick_timers(&mut self)
        ensures
            final(self)@ == timers_ticked(old(self)@),
    {
        proof {
            use_type_invariant(&*self);
        }
        if self.dt > 0 {
            self.dt -= 1;
        }
        if self.st > 0 {
            if self.st == 1 {
                // the sound timer runs out here: a host would stop its beep
            }
            self.st -= 1;
        }
    }

    /// Reads the opcode at the program counter and moves past it.
    fn fetch(&mut self) -> (op: u16)
        requires
            old(self)@.pc + 1 < 4096,
        ensures
            op == fetch_op(old(self)@),
            final(self)@ == fetched(old(self)@),
    {
        proof {
            use_type_invariant(&*self);
        }
        let higher_byte: u16 = self.ram[self.pc as usize] as u16;
        let lower_byte: u16 = self.ram[(self.pc + 1) as usize] as u16;
        let op: u16 = (higher_byte << 8) | lower_byte;
        assert(op == higher_byte * 256 + lower_byte) by (bit_vector)
            requires
                higher_byte < 256,
                lower_byte < 256,
                op == (higher_byte << 8) | lower_byte,
        ;
        self.pc += 2;
        op
    }

    /// 0NNN family: 00E0 clears the screen, 00EE returns from a subroutine,
    /// 0000 does nothing.
    fn execute_sys(&mut self, op: u16)
        requires
            nib1(op) == 0,
            step_ok(old(self)@, op),
        ensures
            final(self)@ == step_sys(old(self)@, op),
    {
        proof {
            use_type_invariant(&*self);
        }
        if op == 0x00E0 {
            self.screen = [false; 2048];
            assert(self@ =~= step_sys(old(self)@, op));
        } else if op == 0x00EE {
            let return_address: u16 = self.pop();
            self.pc = return_address;
        }
    }

    /// 8XYN family: register arithmetic and logic.
    #[verifier::rlimit(60)]
    fn execute_alu(&mut self, op: u16)
        requires
            nib1(op) == 8,
            step_ok(old(self)@, op),
        ensures
            final(self)@ == step_alu(old(self)@, op),
    {
        proof {
            use_type_invariant(&*self);
            lemma_fields(op);
        }
        let x: usize = ((op & 0x0F00) >> 8) as usize;
        let y: usize = ((op & 0x00F0) >> 4) as usize;
        let digit4: u16 = op & 0x000F;
        let vx: u8 = self.v_registers[x];
        let vy: u8 = self.v_registers[y];
        proof {
            lemma_byte_shifts(vx);
        }
        if digit4 == 0 {
            self.v_registers[x] = vy;
            assert(self@ =~= step_alu(old(self)@, op));
        } else if digit4 == 1 {
            self.v_registers[x] = vx | vy;
            assert(self@ =~= step_alu(old(self)@, op));
        } else if digit4 == 2 {
            self.v_registers[x] = vx & vy;
            assert(self@ =~= step_alu(old(self)@, op));
        } else if digit4 == 3 {
            self.v_registers[x] = vx ^ vy;
            assert(self@ =~= step_alu(old(self)@, op));
        } else if digit4 == 4 {
            let new_vx: u8 = vx.wrapping_add(vy);
            let carry: bool = (vx as u16) + (vy as u16) > 255;
            let new_vf: u8 = if carry { 1 } else { 0 };
            self.v_registers[x] = new_vx;
            self.v_registers[15] = new_vf;
            assert(self@ =~= step_alu(old(self)@, op));
        } else if digit4 == 5 {
            let new_vx: u8 = vx.wrapping_sub(vy);
            let borrow: bool = vx < vy;
            let new_vf: u8 = if borrow { 0 } else { 1 };
            self.v_registers[x] = new_vx;
            self.v_registers[15] = new_vf;
            assert(self@ =~= step_alu(old(self)@, op));
        } else if digit4 == 6 {
            let lsb: u8 = vx & 1;
            self.v_registers[x] = vx >> 1;
            self.v_registers[15] = lsb;
            assert(self@ =~= step_alu(old(self)@, op));
        } else if digit4 == 7 {
            let new_vx: u8 = vy.wrapping_sub(vx);
            let borrow: bool = vy < vx;
            let new_vf: u8 = if borrow { 0 } else { 1 };
            self.v_registers[x] = new_vx;
            self.v_registers[15] = new_vf;
            assert(self@ =~= step_alu(old(self)@, op));
        } else {
            // 8XYE
            let msb: u8 = (vx >> 7) & 1;
            self.v_registers[x] = vx << 1;
            self.v_registers[15] = msb;
            assert(self@ =~= step_alu(old(self)@, op));
        }
    }

    /// FX07, FX0A, FX15, FX18, FX1E, FX29, FX33, FX55, FX65.
    fn execute_misc(&mut self, op: u16)
        requires
            nib1(op) == 15,
            misc_ok(old(self)@, op),
        ensures
            final(self)@ == step_misc(old(self)@, op),
    {
        proof {
            use_type_invariant(&*self);
            lemma_fields(op);
        }
        let x: usize = ((op & 0x0F00) >> 8) as usize;
        let low: u16 = op & 0x00FF;
        if low == 0x07 {
            self.v_registers[x] = self.dt;
        } else if low == 0x0A {
            let mut pressed: bool = false;
            let mut k: usize = 0;
            while k < 16
                invariant_except_break
                    k <= 16,
                    !pressed,
                    self@ == old(self)@,
                    first_pressed(old(self)@.keys, 0) == first_pressed(old(self)@.keys, k as nat),
                invariant
                    self.sp <= 16,
                    x < 16,
                    x == nib2(op),
                    op % 256 == 0x0A,
                ensures
                    pressed ==> self@ == step_misc(old(self)@, op),
                    !pressed ==> self@ == old(self)@ && first_pressed(old(self)@.keys, 0) == 16,
                decreases 16 - k,
            {
                if self.keys[k] {
                    assert(first_pressed(old(self)@.keys, k as nat) == k);
                    assert(old(self)@.keys.len() == 16);
                    self.v_registers[x] = k as u8;
                    pressed = true;
                    assert(self@ =~= step_misc(old(self)@, op));
                    break;
                }
                k = k + 1;
            }
            if !pressed {
                self.pc -= 2;
            }
        } else if low == 0x15 {
            self.dt = self.v_registers[x];
        } else if low == 0x18 {
            self.st = self.v_registers[x];
        } else if low == 0x1E {
            let vx: u16 = self.v_registers[x] as u16;
            self.i_register = self.i_register.wrapping_add(vx);
        } else if low == 0x29 {
            let c: u16 = self.v_registers[x] as u16;
            self.i_register = c * 5;
        } else if low == 0x33 {
            let vx: u8 = self.v_registers[x];
            let hundreds: u8 = vx / 100;
            let tens: u8 = (vx / 10) % 10;
            let ones: u8 = vx % 10;
            let i: usize = self.i_register as usize;
            self.ram[i] = hundreds;
            self.ram[i + 1] = tens;
            self.ram[i + 2] = ones;
        } else if low == 0x55 {
            let i: usize = self.i_register as usize;
            let mut idx: usize = 0;
            while idx <= x
                invariant
                    x < 16,
                    i == old(self)@.i,
                    i + x < 4096,
                    idx <= x + 1,
                    self.sp <= 16,
                    self@ == (EmuState { ram: self@.ram, ..old(self)@ }),
                    self@.ram.len() == 4096,
                    forall|j: int| 0 <= j < 4096 ==> #[trigger] self@.ram[j] == (
                        if i <= j < i + idx { old(self)@.v[j - i] } else { old(self)@.ram[j] }),
                decreases x + 1 - idx,
            {
                self.ram[i + idx] = self.v_registers[idx];
                idx = idx + 1;
            }
        } else {
            let i: usize = self.i_register as usize;
            let mut idx: usize = 0;
            while idx <= x
                invariant
                    x < 16,
                    i == old(self)@.i,
                    i + x < 4096,
                    idx <= x + 1,
                    self.sp <= 16,
                    self@ == (EmuState { v: self@.v, ..old(self)@ }),
                    self@.v.len() == 16,
                    forall|j: int| 0 <= j < 16 ==> #[trigger] self@.v[j] == (
                        if j < idx { old(self)@.ram[i + j] } else { old(self)@.v[j] }),
                decreases x + 1 - idx,
            {
                self.v_registers[idx] = self.ram[i + idx];
                idx = idx + 1;
            }
        }
        assert(self@ =~= step_misc(old(self)@, op));
    }

    /// DXYN: draws the N-row sprite at address I at position (VX, VY),
    /// XOR-ing it onto the screen with wrap-around at the edges; VF is set to
    /// 1 when a pixel that was on is turned off, to 0 otherwise.
    #[verifier::rlimit(40)]
    fn execute_draw(&mut self, op: u16)
        requires
            nib1(op) == 13,
            step_ok(old(self)@, op),
        ensures
            final(self)@ == step_draw(old(self)@, op),
    {
        proof {
            use_type_invariant(&*self);
            lemma_fields(op);
        }
        let ghost s0 = self@;
        // Getting (x, y) coords for the sprite
        let x_coord: u16 = self.v_registers[((op & 0x0F00) >> 8) as usize] as u16;
        let y_coord: u16 = self.v_registers[((op & 0x00F0) >> 4) as usize] as u16;
        // Last digit says height of sprite
        let num_rows: u16 = op & 0x000F;
        let ghost xi = x_coord as int;
        let ghost yi = y_coord as int;
        let ghost ni = num_rows as int;
        let ghost ii = s0.i as int;
        // Whether a pixel was flipped off
        let mut flipped: bool = false;
        let mut y_line: u16 = 0;
        while y_line < num_rows
            invariant
                self.sp <= 16,
                self@ == (EmuState { screen: self@.screen, ..s0 }),
                self@.screen.len() == 2048,
                s0.screen.len() == 2048,
                s0.ram.len() == 4096,
                xi == x_coord, yi == y_coord, ni == num_rows, ii == s0.i,
                x_coord < 256, y_coord < 256,
                num_rows < 16,
                y_line <= num_rows,
                num_rows == 0 || ii + ni <= 4096,
                forall|k: int| 0 <= k < 2048 ==> #[trigger] self@.screen[k] == (s0.screen[k]
                    != drawn_before(s0.ram, ii, xi, yi, ni, k, y_line as int, 0)),
                flipped == exists|k: int| 0 <= k < 2048
                    && #[trigger] drawn_before(s0.ram, ii, xi, yi, ni, k, y_line as int, 0)
                    && s0.screen[k],
            decreases num_rows - y_line,
        {
            // determine address of row's data
            let addr: u16 = self.i_register + y_line;
            let pixels: u8 = self.ram[addr as usize];
            let mut x_line: u16 = 0;
            while x_line < 8
                invariant
                    self.sp <= 16,
                    self@ == (EmuState { screen: self@.screen, ..s0 }),
                    self@.screen.len() == 2048,
                    s0.screen.len() == 2048,
                    s0.ram.len() == 4096,
                    xi == x_coord, yi == y_coord, ni == num_rows, ii == s0.i,
                    x_coord < 256, y_coord < 256,
                    num_rows < 16,
                    y_line < num_rows,
                    x_line <= 8,
                    pixels == s0.ram[ii + y_line],
                    forall|k: int| 0 <= k < 2048 ==> #[trigger] self@.screen[k] == (s0.screen[k]
                        != drawn_before(s0.ram, ii, xi, yi, ni, k, y_line as int, x_line as int)),
                    flipped == exists|k: int| 0 <= k < 2048
                        && #[trigger] drawn_before(s0.ram, ii, xi, yi, ni, k, y_line as int, x_line as int)
                        && s0.screen[k],
                decreases 8 - x_line,
            {
                let ghost r = y_line as int;
                let ghost c = x_line as int;
                let ghost before = self@.screen;
                let ghost flipped_before = flipped;
                proof {
                    lemma_sprite_pixel(xi, yi, r, c);
                    lemma_sprite_bit(pixels, x_line as u8);
                }
                let ghost k0 = (xi + c) % 64 + 64 * ((yi + r) % 32);
                // mask to fetch current pixels bit only flip if its 1
                if (pixels & (0b1000_0000u8 >> (x_line as u8))) != 0 {
                    // sprites should wrap around screen
                    let x: usize = (x_coord + x_line) as usize % 64;
                    let y: usize = (y_coord + y_line) as usize % 32;
                    // Get pixels index for the screen array
                    let idx: usize = x + 64 * y;
                    assert(idx == k0);
                    // check if we gotta flip pixel and set
                    flipped = flipped || self.screen[idx];
                    self.screen[idx] = !self.screen[idx];
                    proof {
                        assert(sprite_covers(s0.ram, ii, xi, yi, ni, k0));
                        assert forall|k: int| 0 <= k < 2048 implies #[trigger] self@.screen[k] == (s0.screen[k]
                            != drawn_before(s0.ram, ii, xi, yi, ni, k, r, c + 1)) by {
                            if k != k0 {
                                assert(drawn_before(s0.ram, ii, xi, yi, ni, k, r, c + 1)
                                    == drawn_before(s0.ram, ii, xi, yi, ni, k, r, c));
                            }
                        }
                        if flipped {
                            if flipped_before {
                                let kw = choose|k: int| 0 <= k < 2048
                                    && #[trigger] drawn_before(s0.ram, ii, xi, yi, ni, k, r, c)
                                    && s0.screen[k];
                                assert(drawn_before(s0.ram, ii, xi, yi, ni, kw, r, c + 1));
                            } else {
                                assert(drawn_before(s0.ram, ii, xi, yi, ni, k0, r, c + 1));
                            }
                        } else {
                            assert forall|k: int| 0 <= k < 2048 && #[trigger] drawn_before(s0.ram, ii, xi, yi, ni, k, r, c + 1)
                                implies !s0.screen[k] by {
                                if k != k0 {
                                    assert(drawn_before(s0.ram, ii, xi, yi, ni, k, r, c));
                                }
                            }
                        }
                    }
                } else {
                    proof {
                        assert(!sprite_covers(s0.ram, ii, xi, yi, ni, k0));
                        assert forall|k: int| 0 <= k < 2048 implies #[trigger] drawn_before(s0.ram, ii, xi, yi, ni, k, r, c + 1)
                            == drawn_before(s0.ram, ii, xi, yi, ni, k, r, c) by {
                        }
                        if flipped {
                            let kw = choose|k: int| 0 <= k < 2048
                                && #[trigger] drawn_before(s0.ram, ii, xi, yi, ni, k, r, c)
                                && s0.screen[k];
                            assert(drawn_before(s0.ram, ii, xi, yi, ni, kw, r, c + 1));
                        } else {
                            assert forall|k: int| 0 <= k < 2048 && #[trigger] drawn_before(s0.ram, ii, xi, yi, ni, k, r, c + 1)
                                implies !s0.screen[k] by {
                                assert(drawn_before(s0.ram, ii, xi, yi, ni, k, r, c));
                            }
                        }
                    }
                }
                x_line += 1;
            }
            proof {
                let r = y_line as int;
                assert forall|k: int| 0 <= k < 2048 implies #[trigger] drawn_before(s0.ram, ii, xi, yi, ni, k, r, 8)
                    == drawn_before(s0.ram, ii, xi, yi, ni, k, r + 1, 0) by {
                    assert(0 <= sprite_col(xi, k));
                }
                if flipped {
                    let kw = choose|k: int| 0 <= k < 2048
                        && #[trigger] drawn_before(s0.ram, ii, xi, yi, ni, k, r, 8)
                        && s0.screen[k];
                    assert(drawn_before(s0.ram, ii, xi, yi, ni, kw, r + 1, 0));
                } else {
                    assert forall|k: int| 0 <= k < 2048 && #[trigger] drawn_before(s0.ram, ii, xi, yi, ni, k, r + 1, 0)
                        implies !s0.screen[k] by {
                        assert(drawn_before(s0.ram, ii, xi, yi, ni, k, r, 8));
                    }
                }
            }
            y_line += 1;
        }
        proof {
            assert forall|k: int| 0 <= k < 2048 implies drawn_before(s0.ram, ii, xi, yi, ni, k, ni, 0)
                == sprite_covers(s0.ram, ii, xi, yi, ni, k) by {
            }
            assert(self@.screen =~= drawn_screen(s0.screen, s0.ram, ii, xi, yi, ni));
            assert(flipped == collides(s0.screen, s0.ram, ii, xi, yi, ni));
        }
        // Populate vf register
        if flipped {
            self.v_registers[0xF] = 1;
        } else {
            self.v_registers[0xF] = 0;
        }
        assert(self@ =~= step_draw(s0, op));
    }

    /// Executes `op`, with `rnd` as the random byte that CXNN masks.
    pub fn execute_with(&mut self, op: u16, rnd: u8)
        requires
            step_ok(old(self)@, op),
        ensures
            final(self)@ == step(old(self)@, op, rnd),
    {
        proof {
            use_type_invariant(&*self);
            lemma_fields(op);
        }
        let digit1: u16 = (op & 0xF000) >> 12;
        let x: usize = ((op & 0x0F00) >> 8) as usize;
        let y: usize = ((op & 0x00F0) >> 4) as usize;
        let nnn: u16 = op & 0x0FFF;
        let nn: u8 = (op & 0x00FF) as u8;
        if digit1 == 0 {
            self.execute_sys(op);
        } else if digit1 == 1 {
            self.pc = nnn;
        } else if digit1 == 2 {
            let pc: u16 = self.pc;
            self.push(pc);
            self.pc = nnn;
        } else if digit1 == 3 {
            if self.v_registers[x] == nn {
                self.pc += 2;
            }
        } else if digit1 == 4 {
            if self.v_registers[x] != nn {
                self.pc += 2;
            }
        } else if digit1 == 5 {
            if self.v_registers[x] == self.v_registers[y] {
                self.pc += 2;
            }
        } else if digit1 == 6 {
            self.v_registers[x] = nn;
        } else if digit1 == 7 {
            self.v_registers[x] = self.v_registers[x].wrapping_add(nn);
        } else if digit1 == 8 {
            self.execute_alu(op);
        } else if digit1 == 9 {
            if self.v_registers[x] != self.v_registers[y] {
                self.pc += 2;
            }
        } else if digit1 == 0xA {
            self.i_register = nnn;
        } else if digit1 == 0xB {
            self.pc = (self.v_registers[0] as u16) + nnn;
        } else if digit1 == 0xC {
            self.v_registers[x] = rnd & nn;
        } else if digit1 == 0xD {
            self.execute_draw(op);
        } else if digit1 == 0xE {
            let vx: u8 = self.v_registers[x];
            let key: bool = self.keys[vx as usize];
            let digit3: u16 = (op & 0x00F0) >> 4;
            if digit3 == 9 {
                if key {
                    self.pc += 2;
                }
            } else {
                if !key {
                    self.pc += 2;
                }
            }
        } else {
            self.execute_misc(op);
        }
        assert(self@ =~= step(old(self)@, op, rnd));
    }

    /// Executes `op`; CXNN draws its random byte from `rand`.
    fn execute(&mut self, op: u16)
        requires
            step_ok(old(self)@, op),
        ensures
            exists|r: u8| final(self)@ == step(old(self)@, op, r),
            nib1(op) != 12 ==> final(self)@ == step(old(self)@, op, 0),
    {
        proof {
            lemma_fields(op);
        }
        let digit1: u16 = (op & 0xF000) >> 12;
        let rnd: u8 = if digit1 == 0xC { random_byte() } else { 0 };
        self.execute_with(op, rnd);
    }

    /// One fetch-decode-execute cycle.
    pub fn tick(&mut self)
        requires
            tick_ok(old(self)@),
        ensures
            exists|r: u8| final(self)@ == tick_state(old(self)@, r),
            nib1(fetch_op(old(self)@)) != 12 ==> final(self)@ == tick_state(old(self)@, 0),
    {
        // Fetch
        let op: u16 = self.fetch();
        // Decode and execute
        self.execute(op);
        proof {
            let r = choose|r: u8| self@ == step(fetched(old(self)@), op, r);
            assert(self@ == tick_state(old(self)@, r));
        }
    }

    /// Whether any key is held.
    fn any_key_pressed(&self) -> (r: bool)
        ensures
            r == (first_pressed(self@.keys, 0) < 16),
    {
        let mut k: usize = 0;
        while k < 16
            invariant
                k <= 16,
                self@.keys.len() == 16,
                first_pressed(self@.keys, 0) == first_pressed(self@.keys, k as nat),
            decreases 16 - k,
        {
            if self.keys[k] {
                return true;
            }
            k = k + 1;
        }
        false
    }

    /// Whether `op` can run in the current state with the program counter
    /// set to `pc`.
    fn can_execute(&self, op: u16, pc: u16) -> (ok: bool)
        ensures
            ok == step_ok(EmuState { pc: pc, ..self@ }, op),
    {
        proof {
            use_type_invariant(self);
            lemma_fields(op);
        }
        let digit1: u16 = (op & 0xF000) >> 12;
        let x: usize = ((op & 0x0F00) >> 8) as usize;
        let y: usize = ((op & 0x00F0) >> 4) as usize;
        let digit3: u16 = (op & 0x00F0) >> 4;
        let digit4: u16 = op & 0x000F;
        let nn: u8 = (op & 0x00FF) as u8;
        let low: u16 = op & 0x00FF;
        let room_to_skip: bool = pc <= 0xFFFD;
        if digit1 == 0 {
            op == 0 || op == 0x00E0 || (op == 0x00EE && self.sp > 0)
        } else if digit1 == 2 {
            self.sp < 16
        } else if digit1 == 3 {
            self.v_registers[x] != nn || room_to_skip
        } else if digit1 == 4 {
            self.v_registers[x] == nn || room_to_skip
        } else if digit1 == 5 {
            digit4 == 0 && (self.v_registers[x] != self.v_registers[y] || room_to_skip)
        } else if digit1 == 9 {
            digit4 == 0 && (self.v_registers[x] == self.v_registers[y] || room_to_skip)
        } else if digit1 == 8 {
            digit4 <= 7 || digit4 == 0xE
        } else if digit1 == 0xD {
            digit4 == 0 || (self.i_register as u32) + (digit4 as u32) <= 4096
        } else if digit1 == 0xE {
            let known: bool = (digit3 == 9 && digit4 == 0xE) || (digit3 == 0xA && digit4 == 1);
            let vx: u8 = self.v_registers[x];
            if known && vx < 16 {
                let held: bool = self.keys[vx as usize];
                let skips: bool = if digit3 == 9 { held } else { !held };
                !skips || room_to_skip
            } else {
                false
            }
        } else if digit1 == 0xF {
            if low == 0x07 || low == 0x15 || low == 0x18 || low == 0x1E || low == 0x29 {
                true
            } else if low == 0x0A {
                self.any_key_pressed() || pc >= 2
            } else if low == 0x33 {
                (self.i_register as u32) + 2 < 4096
            } else if low == 0x55 || low == 0x65 {
                (self.i_register as u32) + (x as u32) < 4096
            } else {
                false
            }
        } else {
            true
        }
    }

    /// Whether `tick` can run: the opcode at the program counter lies in
    /// memory, is one the machine knows, and executing it keeps every
    /// access in range. On a state where this is false the cycle would stop
    /// the interpreter.
    pub fn can_tick(&self) -> (ok: bool)
        ensures
            ok == tick_ok(self@),
    {
        if self.pc >= 4095 {
            return false;
        }
        let higher_byte: u16 = self.ram[self.pc as usize] as u16;
        let lower_byte: u16 = self.ram[(self.pc + 1) as usize] as u16;
        let op: u16 = (higher_byte << 8) | lower_byte;
        assert(op == higher_byte * 256 + lower_byte) by (bit_vector)
            requires
                higher_byte < 256,
                lower_byte < 256,
                op == (higher_byte << 8) | lower_byte,
        ;
        self.can_execute(op, self.pc + 2)
    }

    /// Puts the machine back in its power-on state.
    pub fn reset(&mut self)
        ensures
            final(self)@ == initial_state(),
    {
        proof {
            use_type_invariant(&*self);
        }
        self.pc = 0x200;
        self.screen = [false; 2048];
        self.v_registers = [0u8; 16];
        self.i_register = 0;
        self.sp = 0;
        self.stack = [0u16; 16];
        self.keys = [false; 16];
        self.dt = 0;
        self.st = 0;
        self.ram = initial_memory();
        assert(self@ =~= initial_state());
    }

    /// The program counter.
    pub fn program_counter(&self) -> (r: u16)
        ensures
            r == self@.pc,
    {
        self.pc
    }

    /// Register V`idx`.
    pub fn register(&self, idx: usize) -> (r: u8)
        requires
            idx < 16,
        ensures
            r == self@.v[idx as int],
    {
        self.v_registers[idx]
    }

    /// The index register I.
    pub fn index_register(&self) -> (r: u16)
        ensures
            r == self@.i,
    {
        self.i_register
    }

    /// The byte at memory address `addr`.
    pub fn memory(&self, addr: usize) -> (r: u8)
        requires
            addr < 4096,
        ensures
            r == self@.ram[addr as int],
    {
        self.ram[addr]
    }

    /// The number of return addresses on the call stack.
    pub fn stack_pointer(&self) -> (r: u16)
        ensures
            r == self@.sp,
            r <= 16,
    {
        proof {
            use_type_invariant(self);
        }
        self.sp
    }

    /// The delay timer.
    pub fn delay_timer(&self) -> (r: u8)
        ensures
            r == self@.dt,
    {
        self.dt
    }

    /// The sound timer.
    pub fn sound_timer(&self) -> (r: u8)
        ensures
            r == self@.st,
    {
        self.st
    }
}

} // verus!
