//! The mathematical model of the interpreter: an abstract state made of
//! sequences and plain integers, and the pure transition functions that say
//! what one fetch-decode-execute step does to it.
//!
//! The executable [`crate::emu::EMU`] carries this model as its view and is
//! proved to implement [`spec_tick`] step for step.

use crate::instr::{spec_decode, Instr};
use vstd::prelude::*;

verus! {

/// Bytes of addressable memory.
pub const RAM_SIZE: usize = 4096;

/// Pixels per display row.
pub const SCREEN_WIDTH: usize = 64;

/// Display rows.
pub const SCREEN_HEIGHT: usize = 64;

/// Pixels in the whole display buffer, row-major.
pub const SCREEN_PIXELS: usize = 4096;

/// General registers `V0`-`VF`.
pub const NUM_REGS: usize = 16;

/// Return addresses the call stack can hold.
pub const STACK_SIZE: usize = 16;

/// Keys on the keypad.
pub const NUM_KEYS: usize = 16;

/// Address where a loaded program begins, and the power-on program counter.
pub const START_ADDR: u16 = 0x200;

/// Bytes of the font table written at address 0.
pub const FONTSET_SIZE: usize = 80;

/// The sixteen hex-digit glyphs, five bytes each, written at address 0 at
/// construction and on every reset.
pub const FONTSET: [u8; 80] = [
    0xF0,
    0x90,
    0x90,
    0x90,
    0x90,  // 0
    0x20,
    0x60,
    0x20,
    0x20,
    0x70,  // 1
    0xF0,
    0x10,
    0xF0,
    0x80,
    0xF0,  // 2
    0xF0,
    0x10,
    0xF0,
    0x10,
    0xF0,  // 3
    0x90,
    0x90,
    0xF0,
    0x10,
    0x10,  // 4
    0xF0,
    0x80,
    0xF0,
    0x10,
    0xF0,  // 5
    0xF0,
    0x80,
    0xF0,
    0x90,
    0xF0,  // 6
    0xF0,
    0x10,
    0x20,
    0x40,
    0x40,  // 7
    0xF0,
    0x90,
    0xF0,
    0x90,
    0xF0,  // 8
    0xF0,
    0x90,
    0xF0,
    0x10,
    0xF0,  // 9
    0xF0,
    0x90,
    0xF0,
    0x90,
    0x90,  // A
    0xE0,
    0x90,
    0xE0,
    0x90,
    0xE0,  // B
    0xF0,
    0x80,
    0x80,
    0x80,
    0xF0,  // C
    0xE0,
    0x90,
    0x90,
    0x90,
    0xE0,  // D
    0xF0,
    0x80,
    0xF0,
    0x80,
    0xF0,  // E
    0xF0,
    0x80,
    0xF0,
    0x80,
    0x80,  // F
];

/// The faults an operation can surface. All are data or programming errors:
/// the host may stop, report a corrupt program, or ignore the step and go
/// on, since a failed operation leaves the state as it was.
#[derive(Clone, Copy, Debug, PartialEq, Eq, Structural)]
pub enum Chip8Error {
    /// A fetch or an execute addressed memory beyond its capacity.
    MemoryOutOfBounds,
    /// A call was made with the stack already full.
    StackOverflow,
    /// A return was made with the stack empty.
    StackUnderflow,
    /// The fetched opcode word matches no row of the decode table.
    UnimplementedOpcode,
    /// A keypad index at or above the number of keys.
    InvalidKeyIndex,
    /// A program too large to fit between the start address and the end of
    /// memory.
    RomTooLarge,
}

/// The abstract interpreter state.
#[verifier::ext_equal]
pub struct EmuView {
    /// Program counter.
    pub pc: u16,
    /// Addressable memory, `RAM_SIZE` bytes.
    pub ram: Seq<u8>,
    /// Display buffer, row-major, `SCREEN_PIXELS` pixels.
    pub screen: Seq<bool>,
    /// General registers `V0`-`VF`.
    pub v: Seq<u8>,
    /// Index register.
    pub ireg: u16,
    /// Stack pointer: how many return addresses are on the stack.
    pub sp: nat,
    /// Call stack, `STACK_SIZE` slots.
    pub stack: Seq<u16>,
    /// Keypad state, pressed or not, per key.
    pub keys: Seq<bool>,
    /// Delay timer.
    pub dt: u8,
    /// Sound timer.
    pub st: u8,
}

impl EmuView {
    /// Every part has its fixed capacity and the stack pointer is within the
    /// stack.
    pub open spec fn wf(self) -> bool {
        &&& self.ram.len() == RAM_SIZE
        &&& self.screen.len() == SCREEN_PIXELS
        &&& self.v.len() == NUM_REGS
        &&& self.stack.len() == STACK_SIZE
        &&& self.keys.len() == NUM_KEYS
        &&& self.sp <= STACK_SIZE
    }

    /// The power-on state: everything cleared, the program counter at the
    /// start address, the font table at address 0.
    pub open spec fn power_on() -> EmuView {
        EmuView {
            pc: START_ADDR,
            ram: Seq::new(
                RAM_SIZE as nat,
                |j: int|
                    if 0 <= j < FONTSET_SIZE {
                        FONTSET@[j]
                    } else {
                        0u8
                    },
            ),
            screen: Seq::new(SCREEN_PIXELS as nat, |j: int| false),
            v: Seq::new(NUM_REGS as nat, |j: int| 0u8),
            ireg: 0,
            sp: 0,
            stack: Seq::new(STACK_SIZE as nat, |j: int| 0u16),
            keys: Seq::new(NUM_KEYS as nat, |j: int| false),
            dt: 0,
            st: 0,
        }
    }
}

/// Byte addition wrapping modulo 256.
pub open spec fn wrap_add8(a: u8, b: u8) -> u8 {
    if a + b < 256 {
        ((a + b) as u8)
    } else {
        ((a + b - 256) as u8)
    }
}

/// Byte subtraction wrapping modulo 256.
pub open spec fn wrap_sub8(a: u8, b: u8) -> u8 {
    if a >= b {
        ((a - b) as u8)
    } else {
        ((a - b + 256) as u8)
    }
}

/// Word addition wrapping modulo 2^16.
pub open spec fn wrap_add16(a: u16, b: u16) -> u16 {
    if a + b < 0x10000 {
        ((a + b) as u16)
    } else {
        ((a + b - 0x10000) as u16)
    }
}

/// Word subtraction wrapping modulo 2^16.
pub open spec fn wrap_sub16(a: u16, b: u16) -> u16 {
    if a >= b {
        ((a - b) as u16)
    } else {
        ((a - b + 0x10000) as u16)
    }
}

/// The opcode word fetched big-endian from two consecutive memory bytes.
pub open spec fn spec_op_at(ram: Seq<u8>, a: int) -> u16 {
    (((ram[a] as u16) << 8) | (ram[a + 1] as u16))
}

/// The index of the lowest pressed key at or above `k`, or `NUM_KEYS` when
/// none is pressed there.
pub open spec fn lowest_pressed_from(keys: Seq<bool>, k: int) -> int
    decreases NUM_KEYS - k,
{
    if k < 0 || k >= NUM_KEYS {
        NUM_KEYS as int
    } else if keys[k] {
        k
    } else {
        lowest_pressed_from(keys, k + 1)
    }
}

/// The pixel index of display coordinates `(px, py)`, row-major.
pub open spec fn pixel_index(px: int, py: int) -> int {
    py * (SCREEN_WIDTH as int) + px
}

/// Whether sprite-row byte `b` has the bit for column `col` set; column 0 is
/// the most significant bit.
pub open spec fn sprite_row_bit(b: u8, col: int) -> bool {
    (b >> ((7 - col) as u8)) & 1 == 1
}

/// The pixel index that row `row`, column `col` of a sprite drawn at
/// `(x0, y0)` lands on; coordinates wrap toroidally.
pub open spec fn draw_target(x0: u8, y0: u8, row: int, col: int) -> int {
    pixel_index((x0 + col) % (SCREEN_WIDTH as int), (y0 + row) % (SCREEN_HEIGHT as int))
}

/// Whether drawing an `n`-row sprite from memory at `i` to `(x0, y0)` flips
/// the pixel at index `idx`.
pub open spec fn draw_covers(ram: Seq<u8>, i: u16, x0: u8, y0: u8, n: int, idx: int) -> bool {
    exists|row: int, col: int|
        0 <= row < n && 0 <= col < 8 && sprite_row_bit(ram[i + row], col) && idx == draw_target(
            x0,
            y0,
            row,
            col,
        )
}

/// The display buffer after drawing an `n`-row sprite from memory at `i` to
/// `(x0, y0)`: each covered pixel is toggled, every other pixel keeps its
/// value.
pub open spec fn spec_draw(screen: Seq<bool>, ram: Seq<u8>, i: u16, x0: u8, y0: u8, n: int) -> Seq<
    bool,
> {
    Seq::new(SCREEN_PIXELS as nat, |idx: int| screen[idx] ^ draw_covers(ram, i, x0, y0, n, idx))
}

/// Whether the draw toggles some pixel that was already set: the collision
/// condition reported in `VF`.
pub open spec fn spec_draw_collision(
    screen: Seq<bool>,
    ram: Seq<u8>,
    i: u16,
    x0: u8,
    y0: u8,
    n: int,
) -> bool {
    exists|row: int, col: int|
        0 <= row < n && 0 <= col < 8 && sprite_row_bit(ram[i + row], col) && screen[draw_target(
            x0,
            y0,
            row,
            col,
        )]
}

/// What executing one decoded instruction does to a state whose program
/// counter has already been advanced past the instruction. An `Err` means
/// the step faults and the state is left as it was.
pub open spec fn spec_execute(s: EmuView, i: Instr, rnd: u8) -> Result<EmuView, Chip8Error> {
    match i {
        Instr::ClearScreen => Ok(
            EmuView { screen: Seq::new(SCREEN_PIXELS as nat, |j: int| false), ..s },
        ),
        Instr::Return => {
            if s.sp == 0 {
                Err(Chip8Error::StackUnderflow)
            } else {
                Ok(EmuView { pc: s.stack[s.sp - 1], sp: (s.sp - 1) as nat, ..s })
            }
        },
        Instr::Jump { nnn } => Ok(EmuView { pc: nnn, ..s }),
        Instr::Call { nnn } => {
            if s.sp >= STACK_SIZE {
                Err(Chip8Error::StackOverflow)
            } else {
                Ok(
                    EmuView {
                        stack: s.stack.update(s.sp as int, s.pc),
                        sp: s.sp + 1,
                        pc: nnn,
                        ..s
                    },
                )
            }
        },
        Instr::SkipEqImm { x, nn } => Ok(
            EmuView {
                pc: if s.v[x as int] == nn {
                    wrap_add16(s.pc, 2)
                } else {
                    s.pc
                },
                ..s
            },
        ),
        Instr::SkipNeImm { x, nn } => Ok(
            EmuView {
                pc: if s.v[x as int] != nn {
                    wrap_add16(s.pc, 2)
                } else {
                    s.pc
                },
                ..s
            },
        ),
        Instr::SkipEqReg { x, y } => Ok(
            EmuView {
                pc: if s.v[x as int] == s.v[y as int] {
                    wrap_add16(s.pc, 2)
                } else {
                    s.pc
                },
                ..s
            },
        ),
        Instr::SetImm { x, nn } => Ok(EmuView { v: s.v.update(x as int, nn), ..s }),
        Instr::AddImm { x, nn } => Ok(
            EmuView { v: s.v.update(x as int, wrap_add8(s.v[x as int], nn)), ..s },
        ),
        Instr::MovReg { x, y } => Ok(EmuView { v: s.v.update(x as int, s.v[y as int]), ..s }),
        Instr::OrReg { x, y } => Ok(
            EmuView { v: s.v.update(x as int, s.v[x as int] | s.v[y as int]), ..s },
        ),
        Instr::AndReg { x, y } => Ok(
            EmuView { v: s.v.update(x as int, s.v[x as int] & s.v[y as int]), ..s },
        ),
        Instr::XorReg { x, y } => Ok(
            EmuView { v: s.v.update(x as int, s.v[x as int] ^ s.v[y as int]), ..s },
        ),
        Instr::AddReg { x, y } => {
            let vf: u8 = if s.v[x as int] + s.v[y as int] > 255 {
                1
            } else {
                0
            };
            Ok(
                EmuView {
                    v: s.v.update(x as int, wrap_add8(s.v[x as int], s.v[y as int])).update(
                        15,
                        vf,
                    ),
                    ..s
                },
            )
        },
        Instr::SubReg { x, y } => {
            let vf: u8 = if s.v[x as int] < s.v[y as int] {
                0
            } else {
                1
            };
            Ok(
                EmuView {
                    v: s.v.update(x as int, wrap_sub8(s.v[x as int], s.v[y as int])).update(
                        15,
                        vf,
                    ),
                    ..s
                },
            )
        },
        Instr::ShrReg { x, y } => {
            let lsb: u8 = ((s.v[x as int] % 2) as u8);
            Ok(
                EmuView {
                    v: s.v.update(x as int, ((s.v[x as int] / 2) as u8)).update(15, lsb),
                    ..s
                },
            )
        },
        Instr::SubnReg { x, y } => {
            let vf: u8 = if s.v[y as int] < s.v[x as int] {
                0
            } else {
                1
            };
            Ok(
                EmuView {
                    v: s.v.update(x as int, wrap_sub8(s.v[y as int], s.v[x as int])).update(
                        15,
                        vf,
                    ),
                    ..s
                },
            )
        },
        Instr::ShlReg { x, y } => {
            let msb: u8 = ((s.v[x as int] / 128) as u8);
            Ok(
                EmuView {
                    v: s.v.update(x as int, wrap_add8(s.v[x as int], s.v[x as int])).update(
                        15,
                        msb,
                    ),
                    ..s
                },
            )
        },
        Instr::SkipNeReg { x, y } => Ok(
            EmuView {
                pc: if s.v[x as int] != s.v[y as int] {
                    wrap_add16(s.pc, 2)
                } else {
                    s.pc
                },
                ..s
            },
        ),
        Instr::SetIndex { nnn } => Ok(EmuView { ireg: nnn, ..s }),
        Instr::JumpV0 { nnn } => Ok(EmuView { pc: wrap_add16(s.v[0] as u16, nnn), ..s }),
        Instr::RandMask { x, nn } => Ok(EmuView { v: s.v.update(x as int, rnd & nn), ..s }),
        Instr::Draw { x, y, n } => {
            let x0 = s.v[x as int];
            let y0 = s.v[y as int];
            if n > 0 && s.ireg + n > RAM_SIZE {
                Err(Chip8Error::MemoryOutOfBounds)
            } else {
                let vf: u8 = if spec_draw_collision(s.screen, s.ram, s.ireg, x0, y0, n as int) {
                    1
                } else {
                    0
                };
                Ok(
                    EmuView {
                        screen: spec_draw(s.screen, s.ram, s.ireg, x0, y0, n as int),
                        v: s.v.update(15, vf),
                        ..s
                    },
                )
            }
        },
        Instr::SkipKeyPressed { x } => {
            if s.v[x as int] >= NUM_KEYS {
                Err(Chip8Error::InvalidKeyIndex)
            } else {
                Ok(
                    EmuView {
                        pc: if s.keys[s.v[x as int] as int] {
                            wrap_add16(s.pc, 2)
                        } else {
                            s.pc
                        },
                        ..s
                    },
                )
            }
        },
        Instr::SkipKeyNotPressed { x } => {
            if s.v[x as int] >= NUM_KEYS {
                Err(Chip8Error::InvalidKeyIndex)
            } else {
                Ok(
                    EmuView {
                        pc: if !s.keys[s.v[x as int] as int] {
                            wrap_add16(s.pc, 2)
                        } else {
                            s.pc
                        },
                        ..s
                    },
                )
            }
        },
        Instr::ReadDelay { x } => Ok(EmuView { v: s.v.update(x as int, s.dt), ..s }),
        Instr::WaitKey { x } => {
            let k = lowest_pressed_from(s.keys, 0);
            if k < NUM_KEYS {
                Ok(EmuView { v: s.v.update(x as int, k as u8), ..s })
            } else {
                Ok(EmuView { pc: wrap_sub16(s.pc, 2), ..s })
            }
        },
        Instr::SetDelay { x } => Ok(EmuView { dt: s.v[x as int], ..s }),
        Instr::SetSound { x } => Ok(EmuView { st: s.v[x as int], ..s }),
        Instr::AddIndex { x } => Ok(
            EmuView { ireg: wrap_add16(s.ireg, s.v[x as int] as u16), ..s },
        ),
        Instr::FontAddr { x } => Ok(EmuView { ireg: ((5 * s.v[x as int]) as u16), ..s }),
        Instr::StoreBcd { x } => {
            if s.ireg + 2 >= RAM_SIZE {
                Err(Chip8Error::MemoryOutOfBounds)
            } else {
                let vx = s.v[x as int];
                Ok(
                    EmuView {
                        ram: s.ram.update(s.ireg as int, ((vx / 100) as u8)).update(
                            s.ireg + 1,
                            (((vx / 10) % 10) as u8),
                        ).update(s.ireg + 2, ((vx % 10) as u8)),
                        ..s
                    },
                )
            }
        },
        Instr::StoreRegs { x } => {
            if x > 0 && s.ireg + x > RAM_SIZE {
                Err(Chip8Error::MemoryOutOfBounds)
            } else {
                Ok(
                    EmuView {
                        ram: Seq::new(
                            RAM_SIZE as nat,
                            |j: int|
                                if s.ireg <= j < s.ireg + x {
                                    s.v[j - s.ireg]
                                } else {
                                    s.ram[j]
                                },
                        ),
                        ..s
                    },
                )
            }
        },
        Instr::LoadRegs { x } => {
            if x > 0 && s.ireg + x > RAM_SIZE {
                Err(Chip8Error::MemoryOutOfBounds)
            } else {
                Ok(
                    EmuView {
                        v: Seq::new(
                            NUM_REGS as nat,
                            |j: int|
                                if 0 <= j < x {
                                    s.ram[s.ireg + j]
                                } else {
                                    s.v[j]
                                },
                        ),
                        ..s
                    },
                )
            }
        },
    }
}

/// What installing a program does: the bytes are copied into memory at the
/// start address, everything else untouched, unless they would run past the
/// end of memory.
pub open spec fn spec_load(s: EmuView, data: Seq<u8>) -> Result<EmuView, Chip8Error> {
    if START_ADDR + data.len() <= RAM_SIZE {
        Ok(
            EmuView {
                ram: Seq::new(
                    RAM_SIZE as nat,
                    |j: int|
                        if START_ADDR <= j < START_ADDR + data.len() {
                            data[j - START_ADDR]
                        } else {
                            s.ram[j]
                        },
                ),
                ..s
            },
        )
    } else {
        Err(Chip8Error::RomTooLarge)
    }
}

/// What one whole `tick` does: fetch the opcode word at the program counter,
/// advance the counter past it, decode, and execute, with `rnd` the byte a
/// random instruction would consume. An `Err` means the step faults and the
/// state is left as it was.
pub open spec fn spec_tick(s: EmuView, rnd: u8) -> Result<EmuView, Chip8Error> {
    if s.pc + 1 >= RAM_SIZE {
        Err(Chip8Error::MemoryOutOfBounds)
    } else {
        let op = spec_op_at(s.ram, s.pc as int);
        match spec_decode(op) {
            None => Err(Chip8Error::UnimplementedOpcode),
            Some(i) => spec_execute(EmuView { pc: ((s.pc + 2) as u16), ..s }, i, rnd),
        }
    }
}

} // verus!
