//! Laws of the interpreter: proof functions that pin down, over the model
//! in [`crate::state`], how the opcode families relate — wrapping
//! arithmetic and its flags, the shift flags, sprite drawing as a
//! self-inverse, the skip distances, call paired with return, the key-wait
//! spin, and the decode/encode round trip (which lives with the decoder,
//! [`crate::instr::lemma_decode_encode`]).

use crate::instr::{spec_decode, Instr};
use crate::state::{
    lowest_pressed_from, spec_draw, spec_draw_collision, spec_execute, spec_op_at, spec_tick,
    wrap_add8, wrap_sub8, Chip8Error, EmuView, NUM_KEYS, RAM_SIZE, SCREEN_PIXELS, STACK_SIZE,
};
use vstd::arithmetic::div_mod::{
    lemma_mod_add_multiples_vanish, lemma_mod_division_less_than_divisor, lemma_small_mod,
};
use vstd::prelude::*;

verus! {

/// Wrapped byte addition is addition modulo 256.
proof fn lemma_wrap_add8_is_mod(a: u8, b: u8)
    ensures
        wrap_add8(a, b) == (a + b) % 256,
{
    if a + b < 256 {
        lemma_small_mod((a + b) as nat, 256);
    } else {
        lemma_mod_add_multiples_vanish(a + b - 256, 256);
        lemma_small_mod((a + b - 256) as nat, 256);
    }
}

/// Wrapped byte subtraction is subtraction modulo 256, computed on the
/// difference shifted into the non-negative range.
proof fn lemma_wrap_sub8_is_mod(a: u8, b: u8)
    ensures
        wrap_sub8(a, b) == (a - b + 256) % 256,
{
    if a >= b {
        lemma_mod_add_multiples_vanish(a - b, 256);
        lemma_small_mod((a - b) as nat, 256);
    } else {
        lemma_small_mod((a - b + 256) as nat, 256);
    }
}

/// The add-register instruction wraps modulo 256 and reports overflow in
/// `VF`: the flag is 1 exactly when the true sum exceeds 255, and the
/// destination (unless it is `VF` itself, which the flag overwrites) holds
/// the sum modulo 256. Reading both operands from the pre-state makes this
/// hold also when source and destination are the same register.
pub proof fn lemma_add_reg_wraps(s: EmuView, x: u8, y: u8, rnd: u8)
    requires
        s.wf(),
        x < 16,
        y < 16,
    ensures
        spec_execute(s, Instr::AddReg { x, y }, rnd) matches Ok(s2) && {
            &&& s2.v[15] == (if s.v[x as int] + s.v[y as int] > 255 {
                1u8
            } else {
                0u8
            })
            &&& x != 15 ==> s2.v[x as int] == (s.v[x as int] + s.v[y as int]) % 256
        },
{
    lemma_wrap_add8_is_mod(s.v[x as int], s.v[y as int]);
}

/// The subtract-register instruction wraps modulo 256 and reports borrow in
/// `VF`: the flag is 0 exactly when the subtrahend exceeds the minuend, and
/// the destination (unless it is `VF` itself) holds the difference modulo
/// 256. Holds also when source and destination are the same register.
pub proof fn lemma_sub_reg_wraps(s: EmuView, x: u8, y: u8, rnd: u8)
    requires
        s.wf(),
        x < 16,
        y < 16,
    ensures
        spec_execute(s, Instr::SubReg { x, y }, rnd) matches Ok(s2) && {
            &&& s2.v[15] == (if s.v[x as int] < s.v[y as int] {
                0u8
            } else {
                1u8
            })
            &&& x != 15 ==> s2.v[x as int] == (s.v[x as int] - s.v[y as int] + 256) % 256
        },
{
    lemma_wrap_sub8_is_mod(s.v[x as int], s.v[y as int]);
}

/// The reversed subtraction wraps modulo 256 and reports borrow in `VF`,
/// with the operands exchanged: the flag is 0 exactly when the destination
/// register held the larger value. Holds also when source and destination
/// are the same register.
pub proof fn lemma_subn_reg_wraps(s: EmuView, x: u8, y: u8, rnd: u8)
    requires
        s.wf(),
        x < 16,
        y < 16,
    ensures
        spec_execute(s, Instr::SubnReg { x, y }, rnd) matches Ok(s2) && {
            &&& s2.v[15] == (if s.v[y as int] < s.v[x as int] {
                0u8
            } else {
                1u8
            })
            &&& x != 15 ==> s2.v[x as int] == (s.v[y as int] - s.v[x as int] + 256) % 256
        },
{
    lemma_wrap_sub8_is_mod(s.v[y as int], s.v[x as int]);
}

/// The right shift captures the pre-shift least-significant bit in `VF` and
/// halves the register; the left shift captures the pre-shift
/// most-significant bit in `VF` and doubles the register modulo 256.
pub proof fn lemma_shift_captures_bit(s: EmuView, x: u8, y: u8, rnd: u8)
    requires
        s.wf(),
        x < 16,
        y < 16,
    ensures
        spec_execute(s, Instr::ShrReg { x, y }, rnd) matches Ok(s2) && {
            &&& s2.v[15] == s.v[x as int] % 2
            &&& x != 15 ==> s2.v[x as int] == s.v[x as int] / 2
        },
        spec_execute(s, Instr::ShlReg { x, y }, rnd) matches Ok(s2) && {
            &&& s2.v[15] == s.v[x as int] / 128
            &&& x != 15 ==> s2.v[x as int] == (2 * s.v[x as int]) % 256
        },
{
    lemma_wrap_add8_is_mod(s.v[x as int], s.v[x as int]);
}

/// Toggling the same set of pixels twice restores every pixel: drawing is
/// its own inverse on the display buffer.
proof fn lemma_spec_draw_twice(screen: Seq<bool>, ram: Seq<u8>, i: u16, x0: u8, y0: u8, n: int)
    requires
        screen.len() == SCREEN_PIXELS,
    ensures
        spec_draw(spec_draw(screen, ram, i, x0, y0, n), ram, i, x0, y0, n) == screen,
{
    assert(spec_draw(spec_draw(screen, ram, i, x0, y0, n), ram, i, x0, y0, n) =~= screen);
}

/// Drawing the same sprite twice at the same location restores the original
/// display buffer. The coordinate registers must not be `VF`, which the
/// first draw overwrites with its collision flag.
pub proof fn lemma_draw_twice_restores(s: EmuView, x: u8, y: u8, n: u8, rnd: u8)
    requires
        s.wf(),
        x < 16,
        y < 16,
        n < 16,
        x != 15,
        y != 15,
        !(n > 0 && s.ireg + n > RAM_SIZE),
    ensures
        spec_execute(s, Instr::Draw { x, y, n }, rnd) matches Ok(s1)
            && spec_execute(s1, Instr::Draw { x, y, n }, rnd) matches Ok(s2) && s2.screen
            == s.screen,
{
    let s1 = spec_execute(s, Instr::Draw { x, y, n }, rnd)->Ok_0;
    assert(s1.v[x as int] == s.v[x as int] && s1.v[y as int] == s.v[y as int]);
    lemma_spec_draw_twice(s.screen, s.ram, s.ireg, s.v[x as int], s.v[y as int], n as int);
}

/// The collision flag answers exactly whether some pixel the sprite flips
/// was already set before the draw.
pub proof fn lemma_draw_collision_is_overlap(s: EmuView, x: u8, y: u8, n: u8, rnd: u8)
    requires
        s.wf(),
        x < 16,
        y < 16,
        n < 16,
        !(n > 0 && s.ireg + n > RAM_SIZE),
    ensures
        spec_execute(s, Instr::Draw { x, y, n }, rnd) matches Ok(s2) && (s2.v[15] == 1u8 <==> (
        exists|idx: int|
            0 <= idx < SCREEN_PIXELS && crate::state::draw_covers(
                s.ram,
                s.ireg,
                s.v[x as int],
                s.v[y as int],
                n as int,
                idx,
            ) && s.screen[idx])),
        spec_execute(s, Instr::Draw { x, y, n }, rnd) matches Ok(s2) && (s2.v[15] == 1u8
            || s2.v[15] == 0u8),
{
    let x0 = s.v[x as int];
    let y0 = s.v[y as int];
    if spec_draw_collision(s.screen, s.ram, s.ireg, x0, y0, n as int) {
        let (r, c) = choose|r: int, c: int|
            0 <= r < n as int && 0 <= c < 8 && crate::state::sprite_row_bit(s.ram[s.ireg + r], c)
                && s.screen[crate::state::draw_target(x0, y0, r, c)];
        let idx = crate::state::draw_target(x0, y0, r, c);
        lemma_mod_division_less_than_divisor(x0 + c, 64);
        lemma_mod_division_less_than_divisor(y0 + r, 64);
        assert(0 <= idx < SCREEN_PIXELS);
        assert(crate::state::draw_covers(s.ram, s.ireg, x0, y0, n as int, idx));
    } else {
        if exists|idx: int|
            0 <= idx < SCREEN_PIXELS && crate::state::draw_covers(
                s.ram,
                s.ireg,
                x0,
                y0,
                n as int,
                idx,
            ) && s.screen[idx] {
            let idx = choose|idx: int|
                0 <= idx < SCREEN_PIXELS && crate::state::draw_covers(
                    s.ram,
                    s.ireg,
                    x0,
                    y0,
                    n as int,
                    idx,
                ) && s.screen[idx];
            let (r, c) = choose|r: int, c: int|
                0 <= r < n as int && 0 <= c < 8 && crate::state::sprite_row_bit(
                    s.ram[s.ireg + r],
                    c,
                ) && idx == crate::state::draw_target(x0, y0, r, c);
            assert(spec_draw_collision(s.screen, s.ram, s.ireg, x0, y0, n as int));
        }
    }
}

/// The conditional-skip instructions.
pub open spec fn is_cond_skip(i: Instr) -> bool {
    match i {
        Instr::SkipEqImm { .. } => true,
        Instr::SkipNeImm { .. } => true,
        Instr::SkipEqReg { .. } => true,
        Instr::SkipNeReg { .. } => true,
        Instr::SkipKeyPressed { .. } => true,
        Instr::SkipKeyNotPressed { .. } => true,
        _ => false,
    }
}

/// The condition a conditional-skip instruction tests, read from the state
/// before the step.
pub open spec fn skip_condition(s: EmuView, i: Instr) -> bool {
    match i {
        Instr::SkipEqImm { x, nn } => s.v[x as int] == nn,
        Instr::SkipNeImm { x, nn } => s.v[x as int] != nn,
        Instr::SkipEqReg { x, y } => s.v[x as int] == s.v[y as int],
        Instr::SkipNeReg { x, y } => s.v[x as int] != s.v[y as int],
        Instr::SkipKeyPressed { x } => s.keys[s.v[x as int] as int],
        Instr::SkipKeyNotPressed { x } => !s.keys[s.v[x as int] as int],
        _ => false,
    }
}

/// A tick on a conditional-skip instruction advances the program counter by
/// exactly 4 when its condition holds and by exactly 2 when it does not;
/// the key skips fault instead exactly when the tested register does not
/// hold a keypad index.
pub proof fn lemma_skip_advance(s: EmuView, rnd: u8)
    requires
        s.wf(),
        s.pc + 1 < RAM_SIZE,
        spec_decode(spec_op_at(s.ram, s.pc as int)) matches Some(i) && is_cond_skip(i),
    ensures
        ({
            let i = spec_decode(spec_op_at(s.ram, s.pc as int))->Some_0;
            let r = spec_tick(s, rnd);
            &&& (r is Ok <==> match i {
                Instr::SkipKeyPressed { x } => s.v[x as int] < NUM_KEYS,
                Instr::SkipKeyNotPressed { x } => s.v[x as int] < NUM_KEYS,
                _ => true,
            })
            &&& r matches Ok(s2) ==> s2.pc == s.pc + (if skip_condition(s, i) {
                4int
            } else {
                2int
            })
        }),
{
}

/// A call pushes the return address and jumps: it fails with a stack
/// overflow exactly when the stack is full, and otherwise the matching
/// return brings the program counter back to the instruction after the
/// call — the pre-call counter plus the fetch advance of 2.
pub proof fn lemma_call_then_return(s: EmuView, rnd: u8)
    requires
        s.wf(),
        s.pc + 1 < RAM_SIZE,
        spec_decode(spec_op_at(s.ram, s.pc as int)) matches Some(i) && i matches Instr::Call { .. },
    ensures
        s.sp == STACK_SIZE ==> spec_tick(s, rnd) == Err::<EmuView, Chip8Error>(
            Chip8Error::StackOverflow,
        ),
        s.sp < STACK_SIZE ==> (spec_tick(s, rnd) matches Ok(s1) && {
            let nnn = match spec_decode(spec_op_at(s.ram, s.pc as int))->Some_0 {
                Instr::Call { nnn } => nnn,
                _ => 0u16,
            };
            &&& s1.pc == nnn
            &&& s1.sp == s.sp + 1
            &&& s1.ram == s.ram
            &&& (nnn + 1 < RAM_SIZE && spec_op_at(s1.ram, nnn as int) == 0x00EE ==> (spec_tick(
                s1,
                rnd,
            ) matches Ok(s2) && s2.pc == s.pc + 2 && s2.sp == s.sp))
        }),
{
    if s.sp < STACK_SIZE {
        let s1 = spec_tick(s, rnd)->Ok_0;
        assert(s1.stack[s.sp as int] == (s.pc + 2) as u16);
        assert(spec_decode(0x00EE) == Some(Instr::Return));
    }
}

/// The lowest pressed key the scan finds: nothing below it is pressed, and
/// it is itself pressed unless the scan ran past the whole keypad.
proof fn lemma_lowest_pressed_props(keys: Seq<bool>, i: int)
    requires
        0 <= i <= NUM_KEYS,
    ensures
        ({
            let k = lowest_pressed_from(keys, i);
            &&& i <= k <= NUM_KEYS
            &&& k < NUM_KEYS ==> keys[k]
            &&& forall|j: int| i <= j < k ==> !keys[j]
        }),
    decreases NUM_KEYS - i,
{
    if i < NUM_KEYS && !keys[i] {
        lemma_lowest_pressed_props(keys, i + 1);
    }
}

/// A tick on the key-wait instruction with no key pressed leaves the whole
/// state — the program counter included — exactly as it was, so the same
/// instruction re-executes on the next tick; once some key is pressed, the
/// lowest-indexed pressed key is loaded into the register and the counter
/// advances normally.
pub proof fn lemma_wait_key_spin(s: EmuView, rnd: u8)
    requires
        s.wf(),
        s.pc + 1 < RAM_SIZE,
        spec_decode(spec_op_at(s.ram, s.pc as int)) matches Some(i) && i matches Instr::WaitKey {
            ..
        },
    ensures
        ({
            let x = match spec_decode(spec_op_at(s.ram, s.pc as int))->Some_0 {
                Instr::WaitKey { x } => x,
                _ => 0u8,
            };
            let r = spec_tick(s, rnd);
            &&& r is Ok
            &&& (forall|j: int| 0 <= j < NUM_KEYS ==> !s.keys[j]) ==> r == Ok::<
                EmuView,
                Chip8Error,
            >(s)
            &&& (exists|j: int| 0 <= j < NUM_KEYS && s.keys[j]) ==> ({
                let k = lowest_pressed_from(s.keys, 0);
                &&& r matches Ok(s2)
                &&& s2.pc == s.pc + 2
                &&& 0 <= k < NUM_KEYS
                &&& s.keys[k]
                &&& (forall|j: int| 0 <= j < k ==> !s.keys[j])
                &&& s2.v == s.v.update(x as int, k as u8)
            })
        }),
{
    lemma_lowest_pressed_props(s.keys, 0);
    let k = lowest_pressed_from(s.keys, 0);
    if forall|j: int| 0 <= j < NUM_KEYS ==> !s.keys[j] {
        let r = spec_tick(s, rnd);
        assert(k == NUM_KEYS as int);
        assert(r->Ok_0 =~= s);
    } else {
        let j0 = choose|j: int| 0 <= j < NUM_KEYS && s.keys[j];
        assert(k < NUM_KEYS) by {
            if k == NUM_KEYS as int {
                assert(!s.keys[j0]);
            }
        }
    }
}

} // verus!
