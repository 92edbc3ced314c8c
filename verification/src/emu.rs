//! The executable interpreter. Every operation is proved to implement the
//! matching transition of the model in [`crate::state`]: its view after the
//! call is exactly what [`crate::state::spec_tick`] and its companions say.

use crate::instr;
use crate::instr::{wf_instr, Instr};
use crate::state::{
    draw_covers, draw_target, lowest_pressed_from, spec_draw, spec_draw_collision, spec_execute,
    spec_load, spec_op_at, spec_tick, sprite_row_bit, Chip8Error, EmuView, FONTSET, FONTSET_SIZE,
    NUM_KEYS, NUM_REGS, RAM_SIZE, SCREEN_PIXELS, STACK_SIZE, START_ADDR,
};
use vstd::arithmetic::div_mod::{lemma_fundamental_div_mod, lemma_mod_division_less_than_divisor};
use vstd::prelude::*;

verus! {

/// Whether some sprite row and column strictly before progress point
/// `(row, col)` — rows first, then columns within a row — flips the pixel at
/// index `idx`. At the end of a draw this coincides with
/// [`draw_covers`].
spec fn draw_covers_upto(
    ram: Seq<u8>,
    i: u16,
    x0: u8,
    y0: u8,
    row: int,
    col: int,
    idx: int,
) -> bool {
    exists|r: int, c: int|
        0 <= r && 0 <= c < 8 && (r < row || (r == row && c < col)) && sprite_row_bit(ram[i + r], c)
            && idx == draw_target(x0, y0, r, c)
}

/// Whether some sprite row and column strictly before progress point
/// `(row, col)` flips a pixel that `screen` already has set.
spec fn draw_collision_upto(
    screen: Seq<bool>,
    ram: Seq<u8>,
    i: u16,
    x0: u8,
    y0: u8,
    row: int,
    col: int,
) -> bool {
    exists|r: int, c: int|
        0 <= r && 0 <= c < 8 && (r < row || (r == row && c < col)) && sprite_row_bit(ram[i + r], c)
            && screen[draw_target(x0, y0, r, c)]
}

/// Two in-range sprite positions land on the same pixel only when they are
/// the same position: with at most 16 rows and 8 columns on a 64-by-64
/// toroidal grid, no pixel is covered twice in one draw.
proof fn lemma_draw_target_injective(x0: u8, y0: u8, r1: int, c1: int, r2: int, c2: int)
    requires
        0 <= r1 < 16,
        0 <= c1 < 8,
        0 <= r2 < 16,
        0 <= c2 < 8,
        draw_target(x0, y0, r1, c1) == draw_target(x0, y0, r2, c2),
    ensures
        r1 == r2,
        c1 == c2,
{
    let px1 = (x0 + c1) % 64;
    let py1 = (y0 + r1) % 64;
    let px2 = (x0 + c2) % 64;
    let py2 = (y0 + r2) % 64;
    lemma_mod_division_less_than_divisor(x0 + c1, 64);
    lemma_mod_division_less_than_divisor(y0 + r1, 64);
    lemma_mod_division_less_than_divisor(x0 + c2, 64);
    lemma_mod_division_less_than_divisor(y0 + r2, 64);
    assert(px1 == px2 && py1 == py2);
    lemma_fundamental_div_mod(x0 + c1, 64);
    lemma_fundamental_div_mod(x0 + c2, 64);
    lemma_fundamental_div_mod(y0 + r1, 64);
    lemma_fundamental_div_mod(y0 + r2, 64);
    assert(c1 - c2 == 64 * ((x0 + c1) / 64 - (x0 + c2) / 64));
    assert(r1 - r2 == 64 * ((y0 + r1) / 64 - (y0 + r2) / 64));
}

/// Relies on `rand::random`: one byte sampled from the standard
/// distribution. Nothing can be promised of a random value; the caller
/// states what holds of its own state whatever byte comes back.
#[verifier::external_body]
fn random_byte() -> u8 {
    rand::random::<u8>()
}

/// The interpreter state: memory, registers, call stack, display buffer,
/// keypad and timers, driven by [`EMU::tick`] and [`EMU::tick_timers`].
pub struct EMU {
    /// Program counter.
    pub program_counter: u16,
    /// Addressable memory; the font table sits at address 0, a loaded
    /// program at [`START_ADDR`].
    pub ram: [u8; 4096],
    /// Display buffer, row-major, [`SCREEN_WIDTH`](crate::state::SCREEN_WIDTH)
    /// by [`SCREEN_HEIGHT`](crate::state::SCREEN_HEIGHT) pixels.
    pub screen: [bool; 4096],
    /// General registers `V0`-`VF`; `VF` doubles as the flag register.
    pub v_reg: [u8; 16],
    /// Index register.
    pub i_reg: u16,
    /// Stack pointer: how many return addresses are on the stack.
    pub sp: u16,
    /// Call stack of return addresses.
    pub stack: [u16; 16],
    /// Keypad state, set by the host through [`EMU::set_key`].
    pub keys: [bool; 16],
    /// Sound timer; the host reads it through [`EMU::get_sound_timer`].
    pub st: u8,
    /// Delay timer.
    pub dt: u8,
}

impl View for EMU {
    type V = EmuView;

    open spec fn view(&self) -> EmuView {
        EmuView {
            pc: self.program_counter,
            ram: self.ram@,
            screen: self.screen@,
            v: self.v_reg@,
            ireg: self.i_reg,
            sp: self.sp as nat,
            stack: self.stack@,
            keys: self.keys@,
            dt: self.dt,
            st: self.st,
        }
    }
}

impl EMU {
    /// The stack pointer stays within the stack; everything else is bounded
    /// by the types themselves.
    pub open spec fn wf(&self) -> bool {
        self@.wf()
    }

    /// A fresh interpreter in its power-on state: cleared memory with the
    /// font table at address 0, the program counter at [`START_ADDR`].
    pub fn new() -> (r: EMU)
        ensures
            r@ == EmuView::power_on(),
            r.wf(),
    {
        let mut e = EMU {
            program_counter: START_ADDR,
            ram: [0; 4096],
            screen: [false; 4096],
            v_reg: [0; 16],
            i_reg: 0,
            sp: 0,
            stack: [0; 16],
            keys: [false; 16],
            st: 0,
            dt: 0,
        };
        e.reset();
        e
    }

    /// Reinitialize in place: restore every field to its power-on value and
    /// rewrite the font table. Idempotent, and equal to a fresh instance.
    pub fn reset(&mut self)
        ensures
            final(self)@ == EmuView::power_on(),
            final(self).wf(),
    {
        self.program_counter = START_ADDR;
        self.ram = [0; 4096];
        self.screen = [false; 4096];
        self.v_reg = [0; 16];
        self.i_reg = 0;
        self.sp = 0;
        self.stack = [0; 16];
        self.keys = [false; 16];
        self.st = 0;
        self.dt = 0;
        let font = FONTSET;
        let mut k: usize = 0;
        while k < FONTSET_SIZE
            invariant
                k <= FONTSET_SIZE,
                self.program_counter == START_ADDR,
                self.i_reg == 0,
                self.sp == 0,
                self.st == 0,
                self.dt == 0,
                font == FONTSET,
                forall|j: int| 0 <= j < k ==> self.ram@[j] == FONTSET@[j],
                forall|j: int| k <= j < RAM_SIZE ==> self.ram@[j] == 0u8,
                forall|j: int| 0 <= j < SCREEN_PIXELS ==> self.screen@[j] == false,
                forall|j: int| 0 <= j < NUM_REGS ==> self.v_reg@[j] == 0u8,
                forall|j: int| 0 <= j < STACK_SIZE ==> self.stack@[j] == 0u16,
                forall|j: int| 0 <= j < NUM_KEYS ==> self.keys@[j] == false,
            decreases FONTSET_SIZE - k,
        {
            self.ram[k] = font[k];
            k += 1;
        }
        proof {
            assert(self@.ram =~= EmuView::power_on().ram);
            assert(self@.screen =~= EmuView::power_on().screen);
            assert(self@.v =~= EmuView::power_on().v);
            assert(self@.stack =~= EmuView::power_on().stack);
            assert(self@.keys =~= EmuView::power_on().keys);
            assert(self@ =~= EmuView::power_on());
        }
    }

    /// Install a program: copy `data` into memory starting at
    /// [`START_ADDR`]. Fails with [`Chip8Error::RomTooLarge`], leaving the
    /// state untouched, exactly when the bytes would run past the end of
    /// memory.
    pub fn load(&mut self, data: &[u8]) -> (r: Result<(), Chip8Error>)
        ensures
            r is Ok <==> spec_load(old(self)@, data@) is Ok,
            r is Ok ==> spec_load(old(self)@, data@) == Ok::<EmuView, Chip8Error>(final(self)@),
            r matches Err(e) ==> e == Chip8Error::RomTooLarge && final(self)@ == old(self)@,
            final(self).wf() == old(self).wf(),
    {
        if data.len() > RAM_SIZE - (START_ADDR as usize) {
            return Err(Chip8Error::RomTooLarge);
        }
        let start = START_ADDR as usize;
        let mut k: usize = 0;
        while k < data.len()
            invariant
                k <= data@.len(),
                data@.len() <= RAM_SIZE - start,
                start == START_ADDR as int,
                self.program_counter == old(self).program_counter,
                self.screen == old(self).screen,
                self.v_reg == old(self).v_reg,
                self.i_reg == old(self).i_reg,
                self.sp == old(self).sp,
                self.stack == old(self).stack,
                self.keys == old(self).keys,
                self.st == old(self).st,
                self.dt == old(self).dt,
                forall|j: int| start <= j < start + k ==> self.ram@[j] == data@[j - start],
                forall|j: int|
                    0 <= j < RAM_SIZE && !(start <= j < start + k) ==> self.ram@[j] == old(
                        self,
                    ).ram@[j],
            decreases data@.len() - k,
        {
            self.ram[start + k] = data[k];
            k += 1;
        }
        proof {
            let target = spec_load(old(self)@, data@);
            assert(self@.ram =~= target->Ok_0.ram);
            assert(self@ =~= target->Ok_0);
        }
        Ok(())
    }

    /// Push a return address. Fails with [`Chip8Error::StackOverflow`],
    /// leaving the state untouched, exactly when the stack is full.
    fn push(&mut self, val: u16) -> (r: Result<(), Chip8Error>)
        ensures
            old(self)@.sp < STACK_SIZE ==> r is Ok && final(self)@ == (EmuView {
                stack: old(self)@.stack.update(old(self)@.sp as int, val),
                sp: old(self)@.sp + 1,
                ..old(self)@
            }),
            old(self)@.sp >= STACK_SIZE ==> r == Err::<(), Chip8Error>(Chip8Error::StackOverflow)
                && final(self)@ == old(self)@,
    {
        if self.sp >= STACK_SIZE as u16 {
            return Err(Chip8Error::StackOverflow);
        }
        self.stack[self.sp as usize] = val;
        self.sp = self.sp + 1;
        Ok(())
    }

    /// Pop a return address. Fails with [`Chip8Error::StackUnderflow`],
    /// leaving the state untouched, exactly when the stack is empty.
    fn pop(&mut self) -> (r: Result<u16, Chip8Error>)
        requires
            old(self).wf(),
        ensures
            old(self)@.sp > 0 ==> r == Ok::<u16, Chip8Error>(
                old(self)@.stack[old(self)@.sp - 1],
            ) && final(self)@ == (EmuView { sp: (old(self)@.sp - 1) as nat, ..old(self)@ }),
            old(self)@.sp == 0 ==> r == Err::<u16, Chip8Error>(Chip8Error::StackUnderflow)
                && final(self)@ == old(self)@,
    {
        if self.sp == 0 {
            return Err(Chip8Error::StackUnderflow);
        }
        self.sp = self.sp - 1;
        Ok(self.stack[self.sp as usize])
    }

    /// The display buffer: one boolean per pixel, row-major.
    pub fn get_dislay(&self) -> (r: &[bool])
        ensures
            r@ == self@.screen,
    {
        &self.screen
    }

    /// The sound timer's current value; the host keeps a tone audible
    /// while it is above zero.
    pub fn get_sound_timer(&self) -> (r: u8)
        ensures
            r == self@.st,
    {
        self.st
    }

    /// Set one key of the keypad. Fails with
    /// [`Chip8Error::InvalidKeyIndex`], leaving the state untouched, exactly
    /// when `idx` is not a keypad index.
    pub fn set_key(&mut self, idx: usize, pressed: bool) -> (r: Result<(), Chip8Error>)
        ensures
            idx < NUM_KEYS ==> r is Ok && final(self)@ == (EmuView {
                keys: old(self)@.keys.update(idx as int, pressed),
                ..old(self)@
            }),
            idx >= NUM_KEYS ==> r == Err::<(), Chip8Error>(Chip8Error::InvalidKeyIndex)
                && final(self)@ == old(self)@,
            final(self).wf() == old(self).wf(),
    {
        if idx >= NUM_KEYS {
            return Err(Chip8Error::InvalidKeyIndex);
        }
        self.keys[idx] = pressed;
        Ok(())
    }

    /// Count both timers down by at most one each, floored at zero. Called
    /// by the host at its own fixed cadence, independently of
    /// [`EMU::tick`].
    pub fn tick_timers(&mut self)
        ensures
            final(self)@ == (EmuView {
                dt: if old(self)@.dt > 0 {
                    ((old(self)@.dt - 1) as u8)
                } else {
                    0u8
                },
                st: if old(self)@.st > 0 {
                    ((old(self)@.st - 1) as u8)
                } else {
                    0u8
                },
                ..old(self)@
            }),
            final(self).wf() == old(self).wf(),
    {
        if self.dt > 0 {
            self.dt = self.dt - 1;
        }
        if self.st > 0 {
            self.st = self.st - 1;
        }
    }

    /// Draw the `n`-row sprite at memory `I` to the coordinates held in
    /// registers `x` and `y`: each sprite bit toggles its pixel, wrapping
    /// toroidally, and `VF` reports whether a set pixel was toggled off.
    /// Fails with [`Chip8Error::MemoryOutOfBounds`], leaving the state
    /// untouched, exactly when a sprite row would be read past the end of
    /// memory.
    fn draw_sprite(&mut self, x: u8, y: u8, n: u8) -> (r: Result<(), Chip8Error>)
        requires
            old(self).wf(),
            x < 16,
            y < 16,
            n < 16,
        ensures
            final(self).wf(),
            r is Ok <==> !(n > 0 && old(self)@.ireg + n > RAM_SIZE),
            r is Ok ==> final(self)@ == (EmuView {
                screen: spec_draw(
                    old(self)@.screen,
                    old(self)@.ram,
                    old(self)@.ireg,
                    old(self)@.v[x as int],
                    old(self)@.v[y as int],
                    n as int,
                ),
                v: old(self)@.v.update(
                    15,
                    if spec_draw_collision(
                        old(self)@.screen,
                        old(self)@.ram,
                        old(self)@.ireg,
                        old(self)@.v[x as int],
                        old(self)@.v[y as int],
                        n as int,
                    ) {
                        1u8
                    } else {
                        0u8
                    },
                ),
                ..old(self)@
            }),
            r matches Err(e) ==> e == Chip8Error::MemoryOutOfBounds && final(self)@ == old(self)@,
    {
        if n > 0 && self.i_reg as usize + n as usize > RAM_SIZE {
            return Err(Chip8Error::MemoryOutOfBounds);
        }
        let x0 = self.v_reg[x as usize];
        let y0 = self.v_reg[y as usize];
        let i = self.i_reg as usize;
        let ghost ram0 = self@.ram;
        let ghost screen0 = self@.screen;
        let ghost i0 = self@.ireg;
        let mut flipped = false;
        let mut row: usize = 0;
        while row < n as usize
            invariant
                row <= n as int,
                x < 16,
                y < 16,
                n < 16,
                n > 0 ==> i + n as int <= RAM_SIZE,
                i == i0,
                ram0 == self.ram@,
                screen0 == old(self)@.screen,
                i0 == self.i_reg,
                x0 == old(self)@.v[x as int],
                y0 == old(self)@.v[y as int],
                self.program_counter == old(self).program_counter,
                self.ram == old(self).ram,
                self.v_reg == old(self).v_reg,
                self.i_reg == old(self).i_reg,
                self.sp == old(self).sp,
                self.stack == old(self).stack,
                self.keys == old(self).keys,
                self.st == old(self).st,
                self.dt == old(self).dt,
                forall|idx: int|
                    0 <= idx < SCREEN_PIXELS ==> self.screen@[idx] == (screen0[idx]
                        ^ draw_covers_upto(ram0, i0, x0, y0, row as int, 0, idx)),
                flipped == draw_collision_upto(screen0, ram0, i0, x0, y0, row as int, 0),
            decreases n as int - row,
        {
            let rowbyte = self.ram[i + row];
            let mut col: usize = 0;
            while col < 8
                invariant
                    col <= 8,
                    row < n as int,
                    x < 16,
                    y < 16,
                    n < 16,
                    i + n as int <= RAM_SIZE,
                    i == i0,
                    ram0 == self.ram@,
                    screen0 == old(self)@.screen,
                    i0 == self.i_reg,
                    x0 == old(self)@.v[x as int],
                    y0 == old(self)@.v[y as int],
                    rowbyte == ram0[i0 + row],
                    self.program_counter == old(self).program_counter,
                    self.ram == old(self).ram,
                    self.v_reg == old(self).v_reg,
                    self.i_reg == old(self).i_reg,
                    self.sp == old(self).sp,
                    self.stack == old(self).stack,
                    self.keys == old(self).keys,
                    self.st == old(self).st,
                    self.dt == old(self).dt,
                    forall|idx: int|
                        0 <= idx < SCREEN_PIXELS ==> self.screen@[idx] == (screen0[idx]
                            ^ draw_covers_upto(ram0, i0, x0, y0, row as int, col as int, idx)),
                    flipped == draw_collision_upto(
                        screen0,
                        ram0,
                        i0,
                        x0,
                        y0,
                        row as int,
                        col as int,
                    ),
                decreases 8 - col,
            {
                if (rowbyte >> ((7 - col) as u8)) & 1 == 1 {
                    let px = (x0 as usize + col) % 64;
                    let py = (y0 as usize + row) % 64;
                    let idx = py * 64 + px;
                    proof {
                        assert(idx == draw_target(x0, y0, row as int, col as int));
                        assert(sprite_row_bit(ram0[i0 + row], col as int));
                        assert forall|r: int, c: int|
                            0 <= r && 0 <= c < 8 && (r < row as int || (r == row as int && c
                                < col as int)) && sprite_row_bit(
                                ram0[i0 + r],
                                c,
                            ) implies draw_target(x0, y0, r, c) != idx by {
                            if draw_target(x0, y0, r, c) == idx {
                                lemma_draw_target_injective(
                                    x0,
                                    y0,
                                    r,
                                    c,
                                    row as int,
                                    col as int,
                                );
                            }
                        }
                        assert(!draw_covers_upto(
                            ram0,
                            i0,
                            x0,
                            y0,
                            row as int,
                            col as int,
                            idx as int,
                        ));
                        assert(self.screen@[idx as int] == screen0[idx as int]);
                    }
                    let cur = self.screen[idx];
                    flipped = flipped || cur;
                    self.screen[idx] = !cur;
                    proof {
                        assert(draw_covers_upto(ram0, i0, x0, y0, row as int, col as int + 1, idx as int))
                            by {
                            assert(sprite_row_bit(ram0[i0 + row as int], col as int) && idx as int
                                == draw_target(x0, y0, row as int, col as int));
                        }
                        assert forall|idx2: int|
                            0 <= idx2 < SCREEN_PIXELS implies self.screen@[idx2] == (screen0[idx2]
                            ^ draw_covers_upto(
                            ram0,
                            i0,
                            x0,
                            y0,
                            row as int,
                            col as int + 1,
                            idx2,
                        )) by {
                            if idx2 != idx as int {
                                assert(draw_covers_upto(
                                    ram0,
                                    i0,
                                    x0,
                                    y0,
                                    row as int,
                                    col as int + 1,
                                    idx2,
                                ) == draw_covers_upto(
                                    ram0,
                                    i0,
                                    x0,
                                    y0,
                                    row as int,
                                    col as int,
                                    idx2,
                                )) by {
                                    if draw_covers_upto(
                                        ram0,
                                        i0,
                                        x0,
                                        y0,
                                        row as int,
                                        col as int + 1,
                                        idx2,
                                    ) {
                                        let (r, c) = choose|r: int, c: int|
                                            0 <= r && 0 <= c < 8 && (r < row as int || (r
                                                == row as int && c < col as int + 1))
                                                && sprite_row_bit(ram0[i0 + r], c) && idx2
                                                == draw_target(x0, y0, r, c);
                                        assert(!(r == row as int && c == col as int));
                                        assert(draw_covers_upto(
                                            ram0,
                                            i0,
                                            x0,
                                            y0,
                                            row as int,
                                            col as int,
                                            idx2,
                                        ));
                                    }
                                }
                            }
                        }
                        assert(draw_collision_upto(
                            screen0,
                            ram0,
                            i0,
                            x0,
                            y0,
                            row as int,
                            col as int + 1,
                        ) == (draw_collision_upto(screen0, ram0, i0, x0, y0, row as int, col as int)
                            || screen0[idx as int])) by {
                            if draw_collision_upto(
                                screen0,
                                ram0,
                                i0,
                                x0,
                                y0,
                                row as int,
                                col as int + 1,
                            ) {
                                let (r, c) = choose|r: int, c: int|
                                    0 <= r && 0 <= c < 8 && (r < row as int || (r == row as int && c
                                        < col as int + 1)) && sprite_row_bit(ram0[i0 + r], c)
                                        && screen0[draw_target(x0, y0, r, c)];
                                if r == row as int && c == col as int {
                                    assert(screen0[idx as int]);
                                } else {
                                    assert(draw_collision_upto(
                                        screen0,
                                        ram0,
                                        i0,
                                        x0,
                                        y0,
                                        row as int,
                                        col as int,
                                    ));
                                }
                            } else {
                                assert(!screen0[idx as int]);
                                assert(!draw_collision_upto(
                                    screen0,
                                    ram0,
                                    i0,
                                    x0,
                                    y0,
                                    row as int,
                                    col as int,
                                ));
                            }
                        }
                    }
                } else {
                    proof {
                        assert(!sprite_row_bit(ram0[i0 + row as int], col as int));
                        assert forall|idx2: int|
                            draw_covers_upto(
                                ram0,
                                i0,
                                x0,
                                y0,
                                row as int,
                                col as int + 1,
                                idx2,
                            ) == draw_covers_upto(
                                ram0,
                                i0,
                                x0,
                                y0,
                                row as int,
                                col as int,
                                idx2,
                            ) by {
                            if draw_covers_upto(
                                ram0,
                                i0,
                                x0,
                                y0,
                                row as int,
                                col as int + 1,
                                idx2,
                            ) {
                                let (r, c) = choose|r: int, c: int|
                                    0 <= r && 0 <= c < 8 && (r < row as int || (r == row as int && c
                                        < col as int + 1)) && sprite_row_bit(ram0[i0 + r], c)
                                        && idx2 == draw_target(x0, y0, r, c);
                                assert(!(r == row as int && c == col as int));
                                assert(draw_covers_upto(
                                    ram0,
                                    i0,
                                    x0,
                                    y0,
                                    row as int,
                                    col as int,
                                    idx2,
                                ));
                            }
                        }
                        assert(draw_collision_upto(
                            screen0,
                            ram0,
                            i0,
                            x0,
                            y0,
                            row as int,
                            col as int + 1,
                        ) == draw_collision_upto(
                            screen0,
                            ram0,
                            i0,
                            x0,
                            y0,
                            row as int,
                            col as int,
                        )) by {
                            if draw_collision_upto(
                                screen0,
                                ram0,
                                i0,
                                x0,
                                y0,
                                row as int,
                                col as int + 1,
                            ) {
                                let (r, c) = choose|r: int, c: int|
                                    0 <= r && 0 <= c < 8 && (r < row as int || (r == row as int && c
                                        < col as int + 1)) && sprite_row_bit(ram0[i0 + r], c)
                                        && screen0[draw_target(x0, y0, r, c)];
                                assert(!(r == row as int && c == col as int));
                            }
                        }
                    }
                }
                col += 1;
            }
            proof {
                assert forall|idx2: int|
                    draw_covers_upto(ram0, i0, x0, y0, row as int + 1, 0, idx2) == draw_covers_upto(
                        ram0,
                        i0,
                        x0,
                        y0,
                        row as int,
                        8,
                        idx2,
                    ) by {
                    if draw_covers_upto(ram0, i0, x0, y0, row as int + 1, 0, idx2) {
                        let (r, c) = choose|r: int, c: int|
                            0 <= r && 0 <= c < 8 && r < row as int + 1 && sprite_row_bit(
                                ram0[i0 + r],
                                c,
                            ) && idx2 == draw_target(x0, y0, r, c);
                        assert(r < row as int || (r == row as int && c < 8));
                        assert(draw_covers_upto(ram0, i0, x0, y0, row as int, 8, idx2));
                    } else {
                        if draw_covers_upto(ram0, i0, x0, y0, row as int, 8, idx2) {
                            let (r, c) = choose|r: int, c: int|
                                0 <= r && 0 <= c < 8 && (r < row as int || (r == row as int && c
                                    < 8)) && sprite_row_bit(ram0[i0 + r], c) && idx2 == draw_target(
                                    x0,
                                    y0,
                                    r,
                                    c,
                                );
                            assert(r < row as int + 1);
                            assert(draw_covers_upto(ram0, i0, x0, y0, row as int + 1, 0, idx2));
                        }
                    }
                }
                assert(draw_collision_upto(screen0, ram0, i0, x0, y0, row as int + 1, 0)
                    == draw_collision_upto(screen0, ram0, i0, x0, y0, row as int, 8)) by {
                    if draw_collision_upto(screen0, ram0, i0, x0, y0, row as int + 1, 0) {
                        let (r, c) = choose|r: int, c: int|
                            0 <= r && 0 <= c < 8 && r < row as int + 1 && sprite_row_bit(
                                ram0[i0 + r],
                                c,
                            ) && screen0[draw_target(x0, y0, r, c)];
                        assert(r < row as int || (r == row as int && c < 8));
                        assert(draw_collision_upto(screen0, ram0, i0, x0, y0, row as int, 8));
                    } else {
                        if draw_collision_upto(screen0, ram0, i0, x0, y0, row as int, 8) {
                            let (r, c) = choose|r: int, c: int|
                                0 <= r && 0 <= c < 8 && (r < row as int || (r == row as int && c
                                    < 8)) && sprite_row_bit(ram0[i0 + r], c) && screen0[draw_target(
                                    x0,
                                    y0,
                                    r,
                                    c,
                                )];
                            assert(r < row as int + 1);
                            assert(draw_collision_upto(
                                screen0,
                                ram0,
                                i0,
                                x0,
                                y0,
                                row as int + 1,
                                0,
                            ));
                        }
                    }
                }
            }
            row += 1;
        }
        self.v_reg[15] = if flipped {
            1
        } else {
            0
        };
        proof {
            assert forall|idx2: int|
                draw_covers_upto(ram0, i0, x0, y0, n as int, 0, idx2) == draw_covers(
                    ram0,
                    i0,
                    x0,
                    y0,
                    n as int,
                    idx2,
                ) by {
                if draw_covers_upto(ram0, i0, x0, y0, n as int, 0, idx2) {
                    let (r, c) = choose|r: int, c: int|
                        0 <= r && 0 <= c < 8 && r < n as int && sprite_row_bit(ram0[i0 + r], c)
                            && idx2 == draw_target(x0, y0, r, c);
                    assert(draw_covers(ram0, i0, x0, y0, n as int, idx2));
                } else {
                    if draw_covers(ram0, i0, x0, y0, n as int, idx2) {
                        let (r, c) = choose|r: int, c: int|
                            0 <= r < n as int && 0 <= c < 8 && sprite_row_bit(ram0[i0 + r], c)
                                && idx2 == draw_target(x0, y0, r, c);
                        assert(draw_covers_upto(ram0, i0, x0, y0, n as int, 0, idx2));
                    }
                }
            }
            assert(draw_collision_upto(screen0, ram0, i0, x0, y0, n as int, 0)
                == spec_draw_collision(screen0, ram0, i0, x0, y0, n as int)) by {
                if draw_collision_upto(screen0, ram0, i0, x0, y0, n as int, 0) {
                    let (r, c) = choose|r: int, c: int|
                        0 <= r && 0 <= c < 8 && r < n as int && sprite_row_bit(ram0[i0 + r], c)
                            && screen0[draw_target(x0, y0, r, c)];
                    assert(spec_draw_collision(screen0, ram0, i0, x0, y0, n as int));
                } else {
                    if spec_draw_collision(screen0, ram0, i0, x0, y0, n as int) {
                        let (r, c) = choose|r: int, c: int|
                            0 <= r < n as int && 0 <= c < 8 && sprite_row_bit(ram0[i0 + r], c)
                                && screen0[draw_target(x0, y0, r, c)];
                        assert(draw_collision_upto(screen0, ram0, i0, x0, y0, n as int, 0));
                    }
                }
            }
            assert(self@.screen =~= spec_draw(screen0, ram0, i0, x0, y0, n as int));
        }
        Ok(())
    }

    /// Read the opcode word at the program counter, big-endian, and advance
    /// the counter past it. Fails with [`Chip8Error::MemoryOutOfBounds`],
    /// leaving the state untouched, exactly when the word's second byte
    /// would lie past the end of memory.
    fn fetch(&mut self) -> (r: Result<u16, Chip8Error>)
        ensures
            old(self)@.pc + 1 < RAM_SIZE ==> r == Ok::<u16, Chip8Error>(
                spec_op_at(old(self)@.ram, old(self)@.pc as int),
            ) && final(self)@ == (EmuView { pc: ((old(self)@.pc + 2) as u16), ..old(self)@ }),
            old(self)@.pc + 1 >= RAM_SIZE ==> r == Err::<u16, Chip8Error>(
                Chip8Error::MemoryOutOfBounds,
            ) && final(self)@ == old(self)@,
    {
        if self.program_counter as usize + 1 >= RAM_SIZE {
            return Err(Chip8Error::MemoryOutOfBounds);
        }
        let hi = self.ram[self.program_counter as usize] as u16;
        let lo = self.ram[self.program_counter as usize + 1] as u16;
        self.program_counter = self.program_counter + 2;
        Ok((hi << 8) | lo)
    }

    /// Execute one decoded instruction on a state whose program counter has
    /// already been advanced past it, with `rnd` the byte a random
    /// instruction consumes. Implements [`spec_execute`] exactly: a fault is
    /// returned as the matching error and leaves the state untouched.
    fn execute(&mut self, ins: Instr, rnd: u8) -> (r: Result<(), Chip8Error>)
        requires
            old(self).wf(),
            wf_instr(ins),
            2 <= old(self).program_counter <= RAM_SIZE,
        ensures
            final(self).wf(),
            r is Ok <==> spec_execute(old(self)@, ins, rnd) is Ok,
            r is Ok ==> spec_execute(old(self)@, ins, rnd) == Ok::<EmuView, Chip8Error>(
                final(self)@,
            ),
            r matches Err(e) ==> spec_execute(old(self)@, ins, rnd) == Err::<EmuView, Chip8Error>(
                e,
            ) && final(self)@ == old(self)@,
    {
        match ins {
            Instr::ClearScreen => {
                self.screen = [false; 4096];
                proof {
                    assert(self@.screen =~= spec_execute(old(self)@, ins, rnd)->Ok_0.screen);
                    assert(self@ =~= spec_execute(old(self)@, ins, rnd)->Ok_0);
                }
                Ok(())
            },
            Instr::Return => {
                match self.pop() {
                    Ok(addr) => {
                        self.program_counter = addr;
                        Ok(())
                    },
                    Err(e) => Err(e),
                }
            },
            Instr::Jump { nnn } => {
                self.program_counter = nnn;
                Ok(())
            },
            Instr::Call { nnn } => {
                match self.push(self.program_counter) {
                    Ok(()) => {
                        self.program_counter = nnn;
                        Ok(())
                    },
                    Err(e) => Err(e),
                }
            },
            Instr::SkipEqImm { x, nn } => {
                if self.v_reg[x as usize] == nn {
                    self.program_counter = self.program_counter + 2;
                }
                Ok(())
            },
            Instr::SkipNeImm { x, nn } => {
                if self.v_reg[x as usize] != nn {
                    self.program_counter = self.program_counter + 2;
                }
                Ok(())
            },
            Instr::SkipEqReg { x, y } => {
                if self.v_reg[x as usize] == self.v_reg[y as usize] {
                    self.program_counter = self.program_counter + 2;
                }
                Ok(())
            },
            Instr::SetImm { x, nn } => {
                self.v_reg[x as usize] = nn;
                Ok(())
            },
            Instr::AddImm { x, nn } => {
                let sum = self.v_reg[x as usize] as u16 + nn as u16;
                self.v_reg[x as usize] = if sum < 256 {
                    sum as u8
                } else {
                    (sum - 256) as u8
                };
                Ok(())
            },
            Instr::MovReg { x, y } => {
                self.v_reg[x as usize] = self.v_reg[y as usize];
                Ok(())
            },
            Instr::OrReg { x, y } => {
                self.v_reg[x as usize] = self.v_reg[x as usize] | self.v_reg[y as usize];
                Ok(())
            },
            Instr::AndReg { x, y } => {
                self.v_reg[x as usize] = self.v_reg[x as usize] & self.v_reg[y as usize];
                Ok(())
            },
            Instr::XorReg { x, y } => {
                self.v_reg[x as usize] = self.v_reg[x as usize] ^ self.v_reg[y as usize];
                Ok(())
            },
            Instr::AddReg { x, y } => {
                let sum = self.v_reg[x as usize] as u16 + self.v_reg[y as usize] as u16;
                self.v_reg[x as usize] = if sum < 256 {
                    sum as u8
                } else {
                    (sum - 256) as u8
                };
                self.v_reg[15] = if sum > 255 {
                    1
                } else {
                    0
                };
                Ok(())
            },
            Instr::SubReg { x, y } => {
                let vx = self.v_reg[x as usize];
                let vy = self.v_reg[y as usize];
                self.v_reg[x as usize] = if vx >= vy {
                    vx - vy
                } else {
                    ((vx as u16 + 256) - vy as u16) as u8
                };
                self.v_reg[15] = if vx < vy {
                    0
                } else {
                    1
                };
                Ok(())
            },
            Instr::ShrReg { x, y } => {
                let vx = self.v_reg[x as usize];
                self.v_reg[x as usize] = vx / 2;
                self.v_reg[15] = vx % 2;
                Ok(())
            },
            Instr::SubnReg { x, y } => {
                let vx = self.v_reg[x as usize];
                let vy = self.v_reg[y as usize];
                self.v_reg[x as usize] = if vy >= vx {
                    vy - vx
                } else {
                    ((vy as u16 + 256) - vx as u16) as u8
                };
                self.v_reg[15] = if vy < vx {
                    0
                } else {
                    1
                };
                Ok(())
            },
            Instr::ShlReg { x, y } => {
                let vx = self.v_reg[x as usize];
                let dbl = vx as u16 + vx as u16;
                self.v_reg[x as usize] = if dbl < 256 {
                    dbl as u8
                } else {
                    (dbl - 256) as u8
                };
                self.v_reg[15] = vx / 128;
                Ok(())
            },
            Instr::SkipNeReg { x, y } => {
                if self.v_reg[x as usize] != self.v_reg[y as usize] {
                    self.program_counter = self.program_counter + 2;
                }
                Ok(())
            },
            Instr::SetIndex { nnn } => {
                self.i_reg = nnn;
                Ok(())
            },
            Instr::JumpV0 { nnn } => {
                self.program_counter = self.v_reg[0] as u16 + nnn;
                Ok(())
            },
            Instr::RandMask { x, nn } => {
                self.v_reg[x as usize] = rnd & nn;
                Ok(())
            },
            Instr::Draw { x, y, n } => self.draw_sprite(x, y, n),
            Instr::SkipKeyPressed { x } => {
                let vx = self.v_reg[x as usize];
                if vx as usize >= NUM_KEYS {
                    return Err(Chip8Error::InvalidKeyIndex);
                }
                if self.keys[vx as usize] {
                    self.program_counter = self.program_counter + 2;
                }
                Ok(())
            },
            Instr::SkipKeyNotPressed { x } => {
                let vx = self.v_reg[x as usize];
                if vx as usize >= NUM_KEYS {
                    return Err(Chip8Error::InvalidKeyIndex);
                }
                if !self.keys[vx as usize] {
                    self.program_counter = self.program_counter + 2;
                }
                Ok(())
            },
            Instr::ReadDelay { x } => {
                self.v_reg[x as usize] = self.dt;
                Ok(())
            },
            Instr::WaitKey { x } => {
                let mut k: usize = 0;
                while k < NUM_KEYS && !self.keys[k]
                    invariant
                        k <= NUM_KEYS,
                        forall|j: int| 0 <= j < k ==> !self@.keys[j],
                    decreases NUM_KEYS - k,
                {
                    k += 1;
                }
                proof {
                    lemma_lowest_pressed_found(self@.keys, 0, k as int);
                }
                if k < NUM_KEYS {
                    self.v_reg[x as usize] = k as u8;
                } else {
                    self.program_counter = self.program_counter - 2;
                }
                Ok(())
            },
            Instr::SetDelay { x } => {
                self.dt = self.v_reg[x as usize];
                Ok(())
            },
            Instr::SetSound { x } => {
                self.st = self.v_reg[x as usize];
                Ok(())
            },
            Instr::AddIndex { x } => {
                let sum = self.i_reg as usize + self.v_reg[x as usize] as usize;
                self.i_reg = if sum < 0x10000 {
                    sum as u16
                } else {
                    (sum - 0x10000) as u16
                };
                Ok(())
            },
            Instr::FontAddr { x } => {
                self.i_reg = 5 * (self.v_reg[x as usize] as u16);
                Ok(())
            },
            Instr::StoreBcd { x } => {
                if self.i_reg as usize + 2 >= RAM_SIZE {
                    return Err(Chip8Error::MemoryOutOfBounds);
                }
                let vx = self.v_reg[x as usize];
                let i = self.i_reg as usize;
                self.ram[i] = vx / 100;
                self.ram[i + 1] = (vx / 10) % 10;
                self.ram[i + 2] = vx % 10;
                Ok(())
            },
            Instr::StoreRegs { x } => {
                if x > 0 && self.i_reg as usize + x as usize > RAM_SIZE {
                    return Err(Chip8Error::MemoryOutOfBounds);
                }
                let i = self.i_reg as usize;
                let mut k: usize = 0;
                while k < x as usize
                    invariant
                        k <= x as int,
                        x < 16,
                        x > 0 ==> i + x as int <= RAM_SIZE,
                        i == old(self).i_reg,
                        self.program_counter == old(self).program_counter,
                        self.screen == old(self).screen,
                        self.v_reg == old(self).v_reg,
                        self.i_reg == old(self).i_reg,
                        self.sp == old(self).sp,
                        self.stack == old(self).stack,
                        self.keys == old(self).keys,
                        self.st == old(self).st,
                        self.dt == old(self).dt,
                        forall|j: int| i <= j < i + k ==> self.ram@[j] == old(self)@.v[j - i],
                        forall|j: int|
                            0 <= j < RAM_SIZE && !(i <= j < i + k) ==> self.ram@[j] == old(
                                self,
                            )@.ram[j],
                    decreases x as int - k,
                {
                    self.ram[i + k] = self.v_reg[k];
                    k += 1;
                }
                proof {
                    assert(self@.ram =~= spec_execute(old(self)@, ins, rnd)->Ok_0.ram);
                    assert(self@ =~= spec_execute(old(self)@, ins, rnd)->Ok_0);
                }
                Ok(())
            },
            Instr::LoadRegs { x } => {
                if x > 0 && self.i_reg as usize + x as usize > RAM_SIZE {
                    return Err(Chip8Error::MemoryOutOfBounds);
                }
                let i = self.i_reg as usize;
                let mut k: usize = 0;
                while k < x as usize
                    invariant
                        k <= x as int,
                        x < 16,
                        x > 0 ==> i + x as int <= RAM_SIZE,
                        i == old(self).i_reg,
                        self.program_counter == old(self).program_counter,
                        self.screen == old(self).screen,
                        self.ram == old(self).ram,
                        self.i_reg == old(self).i_reg,
                        self.sp == old(self).sp,
                        self.stack == old(self).stack,
                        self.keys == old(self).keys,
                        self.st == old(self).st,
                        self.dt == old(self).dt,
                        forall|j: int| 0 <= j < k ==> self.v_reg@[j] == old(self)@.ram[i + j],
                        forall|j: int| k <= j < NUM_REGS ==> self.v_reg@[j] == old(self)@.v[j],
                    decreases x as int - k,
                {
                    self.v_reg[k] = self.ram[i + k];
                    k += 1;
                }
                proof {
                    assert(self@.v =~= spec_execute(old(self)@, ins, rnd)->Ok_0.v);
                    assert(self@ =~= spec_execute(old(self)@, ins, rnd)->Ok_0);
                }
                Ok(())
            },
        }
    }

    /// One fetch-decode-execute step: read the opcode word at the program
    /// counter, advance the counter past it, and execute the decoded
    /// instruction. Implements [`spec_tick`]: some byte accounts for the
    /// step when it succeeds — only a random instruction depends on which —
    /// and a fault is returned as the matching error with the state left
    /// untouched.
    pub fn tick(&mut self) -> (r: Result<(), Chip8Error>)
        requires
            old(self).wf(),
        ensures
            final(self).wf(),
            r is Ok ==> exists|b: u8|
                spec_tick(old(self)@, b) == Ok::<EmuView, Chip8Error>(final(self)@),
            r matches Err(e) ==> final(self)@ == old(self)@ && forall|b: u8|
                spec_tick(old(self)@, b) == Err::<EmuView, Chip8Error>(e),
    {
        let op = match self.fetch() {
            Ok(op) => op,
            Err(e) => {
                return Err(e);
            },
        };
        match instr::decode(op) {
            None => {
                self.program_counter = self.program_counter - 2;
                proof {
                    assert(self@ =~= old(self)@);
                }
                Err(Chip8Error::UnimplementedOpcode)
            },
            Some(ins) => {
                let rnd: u8 = match ins {
                    Instr::RandMask { .. } => random_byte(),
                    _ => 0,
                };
                let ghost mid = self@;
                match self.execute(ins, rnd) {
                    Ok(()) => {
                        proof {
                            assert(spec_tick(old(self)@, rnd) == Ok::<EmuView, Chip8Error>(self@));
                        }
                        Ok(())
                    },
                    Err(e) => {
                        self.program_counter = self.program_counter - 2;
                        proof {
                            assert(self@ =~= old(self)@);
                            assert forall|b: u8|
                                spec_tick(old(self)@, b) == Err::<EmuView, Chip8Error>(e) by {
                                assert(spec_execute(mid, ins, b) == spec_execute(mid, ins, rnd));
                            }
                        }
                        Err(e)
                    },
                }
            },
        }
    }
}

/// The index the key scan of a waiting instruction stops at is exactly the
/// lowest pressed key: nothing below it is pressed, and it is pressed unless
/// the whole keypad was scanned.
proof fn lemma_lowest_pressed_found(keys: Seq<bool>, i: int, k: int)
    requires
        0 <= i <= k <= NUM_KEYS,
        forall|j: int| i <= j < k ==> !keys[j],
        k < NUM_KEYS ==> keys[k],
    ensures
        lowest_pressed_from(keys, i) == k,
    decreases k - i,
{
    if i < k {
        lemma_lowest_pressed_found(keys, i + 1, k);
    }
}

} // verus!
