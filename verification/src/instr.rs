//! The CHIP-8 instruction set: a tagged instruction value, a pure decoder
//! from 16-bit opcode words, and the matching encoder.
//!
//! An opcode is four 4-bit fields. The decoder is a flat table over masked
//! patterns; every pattern outside the table is rejected. Decoding and then
//! re-encoding the extracted fields reproduces the original opcode word
//! (`lemma_decode_encode`).

use vstd::prelude::*;

verus! {

/// One decoded CHIP-8 instruction. Field meanings: `x`, `y` are register
/// indices (one nibble each), `nn` the low byte, `nnn` the low 12 bits and
/// `n` the low nibble of the opcode word. The shift instructions keep their
/// `y` field even though it does not affect execution, so that an encoded
/// instruction round-trips exactly.
#[derive(Clone, Copy, Debug, PartialEq, Eq, Structural)]
pub enum Instr {
    /// `00E0`: clear the display buffer.
    ClearScreen,
    /// `00EE`: pop the stack into the program counter.
    Return,
    /// `1nnn`: jump to `nnn`.
    Jump { nnn: u16 },
    /// `2nnn`: push the program counter, then jump to `nnn`.
    Call { nnn: u16 },
    /// `3xnn`: skip the next instruction if `Vx == nn`.
    SkipEqImm { x: u8, nn: u8 },
    /// `4xnn`: skip the next instruction if `Vx != nn`.
    SkipNeImm { x: u8, nn: u8 },
    /// `5xy0`: skip the next instruction if `Vx == Vy`.
    SkipEqReg { x: u8, y: u8 },
    /// `6xnn`: `Vx = nn`.
    SetImm { x: u8, nn: u8 },
    /// `7xnn`: `Vx += nn`, wrapping, flags untouched.
    AddImm { x: u8, nn: u8 },
    /// `8xy0`: `Vx = Vy`.
    MovReg { x: u8, y: u8 },
    /// `8xy1`: `Vx |= Vy`.
    OrReg { x: u8, y: u8 },
    /// `8xy2`: `Vx &= Vy`.
    AndReg { x: u8, y: u8 },
    /// `8xy3`: `Vx ^= Vy`.
    XorReg { x: u8, y: u8 },
    /// `8xy4`: `Vx += Vy` wrapping; `VF = 1` on overflow, else 0.
    AddReg { x: u8, y: u8 },
    /// `8xy5`: `Vx -= Vy` wrapping; `VF = 0` on underflow, else 1.
    SubReg { x: u8, y: u8 },
    /// `8xy6`: `VF` = low bit of `Vx`, then `Vx >>= 1`.
    ShrReg { x: u8, y: u8 },
    /// `8xy7`: `Vx = Vy - Vx` wrapping; `VF = 0` on underflow, else 1.
    SubnReg { x: u8, y: u8 },
    /// `8xyE`: `VF` = high bit of `Vx`, then `Vx <<= 1`.
    ShlReg { x: u8, y: u8 },
    /// `9xy0`: skip the next instruction if `Vx != Vy`.
    SkipNeReg { x: u8, y: u8 },
    /// `Annn`: `I = nnn`.
    SetIndex { nnn: u16 },
    /// `Bnnn`: jump to `V0 + nnn`.
    JumpV0 { nnn: u16 },
    /// `Cxnn`: `Vx` = random byte AND `nn`.
    RandMask { x: u8, nn: u8 },
    /// `Dxyn`: draw the `n`-row sprite at memory `I` to `(Vx, Vy)`.
    Draw { x: u8, y: u8, n: u8 },
    /// `Ex9E`: skip the next instruction if key `Vx` is pressed.
    SkipKeyPressed { x: u8 },
    /// `ExA1`: skip the next instruction if key `Vx` is not pressed.
    SkipKeyNotPressed { x: u8 },
    /// `Fx07`: `Vx` = delay timer.
    ReadDelay { x: u8 },
    /// `Fx0A`: wait for a key; `Vx` = lowest pressed key index.
    WaitKey { x: u8 },
    /// `Fx15`: delay timer = `Vx`.
    SetDelay { x: u8 },
    /// `Fx18`: sound timer = `Vx`.
    SetSound { x: u8 },
    /// `Fx1E`: `I += Vx`, wrapping.
    AddIndex { x: u8 },
    /// `Fx29`: `I` = address of the font glyph for hex digit `Vx`.
    FontAddr { x: u8 },
    /// `Fx33`: store the decimal digits of `Vx` at `I`, `I+1`, `I+2`.
    StoreBcd { x: u8 },
    /// `Fx55`: store `V0..V(x-1)` into memory starting at `I`.
    StoreRegs { x: u8 },
    /// `Fx65`: load memory starting at `I` into `V0..V(x-1)`.
    LoadRegs { x: u8 },
}

/// The `x` field: the second nibble of the opcode word.
pub open spec fn op_x(op: u16) -> u8 {
    (((op >> 8) & 0xF) as u8)
}

/// The `y` field: the third nibble of the opcode word.
pub open spec fn op_y(op: u16) -> u8 {
    (((op >> 4) & 0xF) as u8)
}

/// The `n` field: the low nibble of the opcode word.
pub open spec fn op_n(op: u16) -> u8 {
    ((op & 0xF) as u8)
}

/// The `nn` field: the low byte of the opcode word.
pub open spec fn op_nn(op: u16) -> u8 {
    ((op & 0xFF) as u8)
}

/// The `nnn` field: the low 12 bits of the opcode word.
pub open spec fn op_nnn(op: u16) -> u16 {
    op & 0xFFF
}

/// Every register index, nibble and address field of a decoded instruction
/// is in range: indices and nibbles below 16, addresses below `0x1000`.
pub open spec fn wf_instr(i: Instr) -> bool {
    match i {
        Instr::ClearScreen => true,
        Instr::Return => true,
        Instr::Jump { nnn } => nnn < 0x1000,
        Instr::Call { nnn } => nnn < 0x1000,
        Instr::SkipEqImm { x, nn } => x < 16,
        Instr::SkipNeImm { x, nn } => x < 16,
        Instr::SkipEqReg { x, y } => x < 16 && y < 16,
        Instr::SetImm { x, nn } => x < 16,
        Instr::AddImm { x, nn } => x < 16,
        Instr::MovReg { x, y } => x < 16 && y < 16,
        Instr::OrReg { x, y } => x < 16 && y < 16,
        Instr::AndReg { x, y } => x < 16 && y < 16,
        Instr::XorReg { x, y } => x < 16 && y < 16,
        Instr::AddReg { x, y } => x < 16 && y < 16,
        Instr::SubReg { x, y } => x < 16 && y < 16,
        Instr::ShrReg { x, y } => x < 16 && y < 16,
        Instr::SubnReg { x, y } => x < 16 && y < 16,
        Instr::ShlReg { x, y } => x < 16 && y < 16,
        Instr::SkipNeReg { x, y } => x < 16 && y < 16,
        Instr::SetIndex { nnn } => nnn < 0x1000,
        Instr::JumpV0 { nnn } => nnn < 0x1000,
        Instr::RandMask { x, nn } => x < 16,
        Instr::Draw { x, y, n } => x < 16 && y < 16 && n < 16,
        Instr::SkipKeyPressed { x } => x < 16,
        Instr::SkipKeyNotPressed { x } => x < 16,
        Instr::ReadDelay { x } => x < 16,
        Instr::WaitKey { x } => x < 16,
        Instr::SetDelay { x } => x < 16,
        Instr::SetSound { x } => x < 16,
        Instr::AddIndex { x } => x < 16,
        Instr::FontAddr { x } => x < 16,
        Instr::StoreBcd { x } => x < 16,
        Instr::StoreRegs { x } => x < 16,
        Instr::LoadRegs { x } => x < 16,
    }
}

/// The decode table: which instruction, if any, an opcode word denotes.
/// Each row masks away the operand fields and compares what is left.
pub open spec fn spec_decode(op: u16) -> Option<Instr> {
    if op == 0x00E0 {
        Some(Instr::ClearScreen)
    } else if op == 0x00EE {
        Some(Instr::Return)
    } else if op & 0xF000 == 0x1000 {
        Some(Instr::Jump { nnn: op_nnn(op) })
    } else if op & 0xF000 == 0x2000 {
        Some(Instr::Call { nnn: op_nnn(op) })
    } else if op & 0xF000 == 0x3000 {
        Some(Instr::SkipEqImm { x: op_x(op), nn: op_nn(op) })
    } else if op & 0xF000 == 0x4000 {
        Some(Instr::SkipNeImm { x: op_x(op), nn: op_nn(op) })
    } else if op & 0xF00F == 0x5000 {
        Some(Instr::SkipEqReg { x: op_x(op), y: op_y(op) })
    } else if op & 0xF000 == 0x6000 {
        Some(Instr::SetImm { x: op_x(op), nn: op_nn(op) })
    } else if op & 0xF000 == 0x7000 {
        Some(Instr::AddImm { x: op_x(op), nn: op_nn(op) })
    } else if op & 0xF00F == 0x8000 {
        Some(Instr::MovReg { x: op_x(op), y: op_y(op) })
    } else if op & 0xF00F == 0x8001 {
        Some(Instr::OrReg { x: op_x(op), y: op_y(op) })
    } else if op & 0xF00F == 0x8002 {
        Some(Instr::AndReg { x: op_x(op), y: op_y(op) })
    } else if op & 0xF00F == 0x8003 {
        Some(Instr::XorReg { x: op_x(op), y: op_y(op) })
    } else if op & 0xF00F == 0x8004 {
        Some(Instr::AddReg { x: op_x(op), y: op_y(op) })
    } else if op & 0xF00F == 0x8005 {
        Some(Instr::SubReg { x: op_x(op), y: op_y(op) })
    } else if op & 0xF00F == 0x8006 {
        Some(Instr::ShrReg { x: op_x(op), y: op_y(op) })
    } else if op & 0xF00F == 0x8007 {
        Some(Instr::SubnReg { x: op_x(op), y: op_y(op) })
    } else if op & 0xF00F == 0x800E {
        Some(Instr::ShlReg { x: op_x(op), y: op_y(op) })
    } else if op & 0xF00F == 0x9000 {
        Some(Instr::SkipNeReg { x: op_x(op), y: op_y(op) })
    } else if op & 0xF000 == 0xA000 {
        Some(Instr::SetIndex { nnn: op_nnn(op) })
    } else if op & 0xF000 == 0xB000 {
        Some(Instr::JumpV0 { nnn: op_nnn(op) })
    } else if op & 0xF000 == 0xC000 {
        Some(Instr::RandMask { x: op_x(op), nn: op_nn(op) })
    } else if op & 0xF000 == 0xD000 {
        Some(Instr::Draw { x: op_x(op), y: op_y(op), n: op_n(op) })
    } else if op & 0xF0FF == 0xE09E {
        Some(Instr::SkipKeyPressed { x: op_x(op) })
    } else if op & 0xF0FF == 0xE0A1 {
        Some(Instr::SkipKeyNotPressed { x: op_x(op) })
    } else if op & 0xF0FF == 0xF007 {
        Some(Instr::ReadDelay { x: op_x(op) })
    } else if op & 0xF0FF == 0xF00A {
        Some(Instr::WaitKey { x: op_x(op) })
    } else if op & 0xF0FF == 0xF015 {
        Some(Instr::SetDelay { x: op_x(op) })
    } else if op & 0xF0FF == 0xF018 {
        Some(Instr::SetSound { x: op_x(op) })
    } else if op & 0xF0FF == 0xF01E {
        Some(Instr::AddIndex { x: op_x(op) })
    } else if op & 0xF0FF == 0xF029 {
        Some(Instr::FontAddr { x: op_x(op) })
    } else if op & 0xF0FF == 0xF033 {
        Some(Instr::StoreBcd { x: op_x(op) })
    } else if op & 0xF0FF == 0xF055 {
        Some(Instr::StoreRegs { x: op_x(op) })
    } else if op & 0xF0FF == 0xF065 {
        Some(Instr::LoadRegs { x: op_x(op) })
    } else {
        None
    }
}

/// The opcode word an instruction's fields assemble back into.
pub open spec fn spec_encode(i: Instr) -> u16 {
    match i {
        Instr::ClearScreen => 0x00E0,
        Instr::Return => 0x00EE,
        Instr::Jump { nnn } => 0x1000 | nnn,
        Instr::Call { nnn } => 0x2000 | nnn,
        Instr::SkipEqImm { x, nn } => 0x3000 | ((x as u16) << 8) | (nn as u16),
        Instr::SkipNeImm { x, nn } => 0x4000 | ((x as u16) << 8) | (nn as u16),
        Instr::SkipEqReg { x, y } => 0x5000 | ((x as u16) << 8) | ((y as u16) << 4),
        Instr::SetImm { x, nn } => 0x6000 | ((x as u16) << 8) | (nn as u16),
        Instr::AddImm { x, nn } => 0x7000 | ((x as u16) << 8) | (nn as u16),
        Instr::MovReg { x, y } => 0x8000 | ((x as u16) << 8) | ((y as u16) << 4),
        Instr::OrReg { x, y } => 0x8001 | ((x as u16) << 8) | ((y as u16) << 4),
        Instr::AndReg { x, y } => 0x8002 | ((x as u16) << 8) | ((y as u16) << 4),
        Instr::XorReg { x, y } => 0x8003 | ((x as u16) << 8) | ((y as u16) << 4),
        Instr::AddReg { x, y } => 0x8004 | ((x as u16) << 8) | ((y as u16) << 4),
        Instr::SubReg { x, y } => 0x8005 | ((x as u16) << 8) | ((y as u16) << 4),
        Instr::ShrReg { x, y } => 0x8006 | ((x as u16) << 8) | ((y as u16) << 4),
        Instr::SubnReg { x, y } => 0x8007 | ((x as u16) << 8) | ((y as u16) << 4),
        Instr::ShlReg { x, y } => 0x800E | ((x as u16) << 8) | ((y as u16) << 4),
        Instr::SkipNeReg { x, y } => 0x9000 | ((x as u16) << 8) | ((y as u16) << 4),
        Instr::SetIndex { nnn } => 0xA000 | nnn,
        Instr::JumpV0 { nnn } => 0xB000 | nnn,
        Instr::RandMask { x, nn } => 0xC000 | ((x as u16) << 8) | (nn as u16),
        Instr::Draw { x, y, n } => 0xD000 | ((x as u16) << 8) | ((y as u16) << 4) | (n as u16),
        Instr::SkipKeyPressed { x } => 0xE09E | ((x as u16) << 8),
        Instr::SkipKeyNotPressed { x } => 0xE0A1 | ((x as u16) << 8),
        Instr::ReadDelay { x } => 0xF007 | ((x as u16) << 8),
        Instr::WaitKey { x } => 0xF00A | ((x as u16) << 8),
        Instr::SetDelay { x } => 0xF015 | ((x as u16) << 8),
        Instr::SetSound { x } => 0xF018 | ((x as u16) << 8),
        Instr::AddIndex { x } => 0xF01E | ((x as u16) << 8),
        Instr::FontAddr { x } => 0xF029 | ((x as u16) << 8),
        Instr::StoreBcd { x } => 0xF033 | ((x as u16) << 8),
        Instr::StoreRegs { x } => 0xF055 | ((x as u16) << 8),
        Instr::LoadRegs { x } => 0xF065 | ((x as u16) << 8),
    }
}

/// Every extracted operand field is within its nibble, byte or 12-bit range.
proof fn lemma_fields_bounded(op: u16)
    ensures
        op_x(op) < 16,
        op_y(op) < 16,
        op_n(op) < 16,
        op_nnn(op) < 0x1000,
{
    assert((((op >> 8) & 0xF) as u8) < 16 && (((op >> 4) & 0xF) as u8) < 16 && ((op & 0xF) as u8)
        < 16 && (op & 0xFFF) < 0x1000) by (bit_vector);
}

/// Reassembling the high nibble with the low 12 bits gives back the word.
proof fn lemma_rebuild_nnn(op: u16, hv: u16)
    requires
        op & 0xF000 == hv,
    ensures
        hv | (op & 0xFFF) == op,
{
    assert(op & 0xF000 == hv ==> hv | (op & 0xFFF) == op) by (bit_vector);
}

/// Reassembling the high nibble with the `x` field and the low byte gives
/// back the word.
proof fn lemma_rebuild_xnn(op: u16, hv: u16)
    requires
        op & 0xF000 == hv,
    ensures
        hv | (((((op >> 8) & 0xF) as u8) as u16) << 8) | (((op & 0xFF) as u8) as u16) == op,
{
    assert(op & 0xF000 == hv ==> hv | (((((op >> 8) & 0xF) as u8) as u16) << 8) | (((op
        & 0xFF) as u8) as u16) == op) by (bit_vector);
}

/// Reassembling the masked pattern with the `x`, `y` and `n` fields gives
/// back the word; rows with a fixed low nibble pass it inside `hv`.
proof fn lemma_rebuild_xyn(op: u16, hv: u16)
    requires
        op & 0xF000 == hv,
    ensures
        hv | (((((op >> 8) & 0xF) as u8) as u16) << 8) | (((((op >> 4) & 0xF) as u8) as u16) << 4)
            | (((op & 0xF) as u8) as u16) == op,
{
    assert(op & 0xF000 == hv ==> hv | (((((op >> 8) & 0xF) as u8) as u16) << 8) | (((((op >> 4)
        & 0xF) as u8) as u16) << 4) | (((op & 0xF) as u8) as u16) == op) by (bit_vector);
}

/// Reassembling the masked pattern (high nibble and low byte fixed) with the
/// `x` field gives back the word.
proof fn lemma_rebuild_xy0(op: u16, mv: u16)
    requires
        op & 0xF00F == mv,
    ensures
        mv | (((((op >> 8) & 0xF) as u8) as u16) << 8) | (((((op >> 4) & 0xF) as u8) as u16) << 4)
            == op,
{
    assert(op & 0xF00F == mv ==> mv | (((((op >> 8) & 0xF) as u8) as u16) << 8) | (((((op >> 4)
        & 0xF) as u8) as u16) << 4) == op) by (bit_vector);
}

/// Reassembling the masked pattern with the `x` field alone gives back the
/// word, for rows whose whole low byte is fixed.
proof fn lemma_rebuild_x(op: u16, mv: u16)
    requires
        op & 0xF0FF == mv,
    ensures
        mv | (((((op >> 8) & 0xF) as u8) as u16) << 8) == op,
{
    assert(op & 0xF0FF == mv ==> mv | (((((op >> 8) & 0xF) as u8) as u16) << 8) == op)
        by (bit_vector);
}

/// Decoding an opcode word and re-encoding the extracted fields reproduces
/// the original word, for every opcode family the table knows; and every
/// decoded instruction has its fields in range.
pub proof fn lemma_decode_encode(op: u16)
    ensures
        spec_decode(op) matches Some(i) ==> spec_encode(i) == op && wf_instr(i),
{
    lemma_fields_bounded(op);
    if op == 0x00E0 || op == 0x00EE {
    } else if op & 0xF000 == 0x1000 {
        lemma_rebuild_nnn(op, 0x1000);
    } else if op & 0xF000 == 0x2000 {
        lemma_rebuild_nnn(op, 0x2000);
    } else if op & 0xF000 == 0x3000 {
        lemma_rebuild_xnn(op, 0x3000);
    } else if op & 0xF000 == 0x4000 {
        lemma_rebuild_xnn(op, 0x4000);
    } else if op & 0xF00F == 0x5000 {
        lemma_rebuild_xy0(op, 0x5000);
    } else if op & 0xF000 == 0x6000 {
        lemma_rebuild_xnn(op, 0x6000);
    } else if op & 0xF000 == 0x7000 {
        lemma_rebuild_xnn(op, 0x7000);
    } else if op & 0xF00F == 0x8000 {
        lemma_rebuild_xy0(op, 0x8000);
    } else if op & 0xF00F == 0x8001 {
        lemma_rebuild_xy0(op, 0x8001);
    } else if op & 0xF00F == 0x8002 {
        lemma_rebuild_xy0(op, 0x8002);
    } else if op & 0xF00F == 0x8003 {
        lemma_rebuild_xy0(op, 0x8003);
    } else if op & 0xF00F == 0x8004 {
        lemma_rebuild_xy0(op, 0x8004);
    } else if op & 0xF00F == 0x8005 {
        lemma_rebuild_xy0(op, 0x8005);
    } else if op & 0xF00F == 0x8006 {
        lemma_rebuild_xy0(op, 0x8006);
    } else if op & 0xF00F == 0x8007 {
        lemma_rebuild_xy0(op, 0x8007);
    } else if op & 0xF00F == 0x800E {
        lemma_rebuild_xy0(op, 0x800E);
    } else if op & 0xF00F == 0x9000 {
        lemma_rebuild_xy0(op, 0x9000);
    } else if op & 0xF000 == 0xA000 {
        lemma_rebuild_nnn(op, 0xA000);
    } else if op & 0xF000 == 0xB000 {
        lemma_rebuild_nnn(op, 0xB000);
    } else if op & 0xF000 == 0xC000 {
        lemma_rebuild_xnn(op, 0xC000);
    } else if op & 0xF000 == 0xD000 {
        lemma_rebuild_xyn(op, 0xD000);
    } else if op & 0xF0FF == 0xE09E {
        lemma_rebuild_x(op, 0xE09E);
    } else if op & 0xF0FF == 0xE0A1 {
        lemma_rebuild_x(op, 0xE0A1);
    } else if op & 0xF0FF == 0xF007 {
        lemma_rebuild_x(op, 0xF007);
    } else if op & 0xF0FF == 0xF00A {
        lemma_rebuild_x(op, 0xF00A);
    } else if op & 0xF0FF == 0xF015 {
        lemma_rebuild_x(op, 0xF015);
    } else if op & 0xF0FF == 0xF018 {
        lemma_rebuild_x(op, 0xF018);
    } else if op & 0xF0FF == 0xF01E {
        lemma_rebuild_x(op, 0xF01E);
    } else if op & 0xF0FF == 0xF029 {
        lemma_rebuild_x(op, 0xF029);
    } else if op & 0xF0FF == 0xF033 {
        lemma_rebuild_x(op, 0xF033);
    } else if op & 0xF0FF == 0xF055 {
        lemma_rebuild_x(op, 0xF055);
    } else if op & 0xF0FF == 0xF065 {
        lemma_rebuild_x(op, 0xF065);
    }
}

/// Decode an opcode word into an instruction, or nothing when no row of the
/// decode table matches it.
pub fn decode(op: u16) -> (r: Option<Instr>)
    ensures
        r == spec_decode(op),
        r matches Some(i) ==> wf_instr(i),
{
    proof {
        lemma_decode_encode(op);
    }
    let x: u8 = ((op >> 8) & 0xF) as u8;
    let y: u8 = ((op >> 4) & 0xF) as u8;
    let n: u8 = (op & 0xF) as u8;
    let nn: u8 = (op & 0xFF) as u8;
    let nnn: u16 = op & 0xFFF;
    if op == 0x00E0 {
        Some(Instr::ClearScreen)
    } else if op == 0x00EE {
        Some(Instr::Return)
    } else if op & 0xF000 == 0x1000 {
        Some(Instr::Jump { nnn })
    } else if op & 0xF000 == 0x2000 {
        Some(Instr::Call { nnn })
    } else if op & 0xF000 == 0x3000 {
        Some(Instr::SkipEqImm { x, nn })
    } else if op & 0xF000 == 0x4000 {
        Some(Instr::SkipNeImm { x, nn })
    } else if op & 0xF00F == 0x5000 {
        Some(Instr::SkipEqReg { x, y })
    } else if op & 0xF000 == 0x6000 {
        Some(Instr::SetImm { x, nn })
    } else if op & 0xF000 == 0x7000 {
        Some(Instr::AddImm { x, nn })
    } else if op & 0xF00F == 0x8000 {
        Some(Instr::MovReg { x, y })
    } else if op & 0xF00F == 0x8001 {
        Some(Instr::OrReg { x, y })
    } else if op & 0xF00F == 0x8002 {
        Some(Instr::AndReg { x, y })
    } else if op & 0xF00F == 0x8003 {
        Some(Instr::XorReg { x, y })
    } else if op & 0xF00F == 0x8004 {
        Some(Instr::AddReg { x, y })
    } else if op & 0xF00F == 0x8005 {
        Some(Instr::SubReg { x, y })
    } else if op & 0xF00F == 0x8006 {
        Some(Instr::ShrReg { x, y })
    } else if op & 0xF00F == 0x8007 {
        Some(Instr::SubnReg { x, y })
    } else if op & 0xF00F == 0x800E {
        Some(Instr::ShlReg { x, y })
    } else if op & 0xF00F == 0x9000 {
        Some(Instr::SkipNeReg { x, y })
    } else if op & 0xF000 == 0xA000 {
        Some(Instr::SetIndex { nnn })
    } else if op & 0xF000 == 0xB000 {
        Some(Instr::JumpV0 { nnn })
    } else if op & 0xF000 == 0xC000 {
        Some(Instr::RandMask { x, nn })
    } else if op & 0xF000 == 0xD000 {
        Some(Instr::Draw { x, y, n })
    } else if op & 0xF0FF == 0xE09E {
        Some(Instr::SkipKeyPressed { x })
    } else if op & 0xF0FF == 0xE0A1 {
        Some(Instr::SkipKeyNotPressed { x })
    } else if op & 0xF0FF == 0xF007 {
        Some(Instr::ReadDelay { x })
    } else if op & 0xF0FF == 0xF00A {
        Some(Instr::WaitKey { x })
    } else if op & 0xF0FF == 0xF015 {
        Some(Instr::SetDelay { x })
    } else if op & 0xF0FF == 0xF018 {
        Some(Instr::SetSound { x })
    } else if op & 0xF0FF == 0xF01E {
        Some(Instr::AddIndex { x })
    } else if op & 0xF0FF == 0xF029 {
        Some(Instr::FontAddr { x })
    } else if op & 0xF0FF == 0xF033 {
        Some(Instr::StoreBcd { x })
    } else if op & 0xF0FF == 0xF055 {
        Some(Instr::StoreRegs { x })
    } else if op & 0xF0FF == 0xF065 {
        Some(Instr::LoadRegs { x })
    } else {
        None
    }
}

/// Assemble an instruction's fields back into its opcode word.
pub fn encode(i: Instr) -> (r: u16)
    ensures
        r == spec_encode(i),
{
    match i {
        Instr::ClearScreen => 0x00E0,
        Instr::Return => 0x00EE,
        Instr::Jump { nnn } => 0x1000 | nnn,
        Instr::Call { nnn } => 0x2000 | nnn,
        Instr::SkipEqImm { x, nn } => 0x3000 | ((x as u16) << 8) | (nn as u16),
        Instr::SkipNeImm { x, nn } => 0x4000 | ((x as u16) << 8) | (nn as u16),
        Instr::SkipEqReg { x, y } => 0x5000 | ((x as u16) << 8) | ((y as u16) << 4),
        Instr::SetImm { x, nn } => 0x6000 | ((x as u16) << 8) | (nn as u16),
        Instr::AddImm { x, nn } => 0x7000 | ((x as u16) << 8) | (nn as u16),
        Instr::MovReg { x, y } => 0x8000 | ((x as u16) << 8) | ((y as u16) << 4),
        Instr::OrReg { x, y } => 0x8001 | ((x as u16) << 8) | ((y as u16) << 4),
        Instr::AndReg { x, y } => 0x8002 | ((x as u16) << 8) | ((y as u16) << 4),
        Instr::XorReg { x, y } => 0x8003 | ((x as u16) << 8) | ((y as u16) << 4),
        Instr::AddReg { x, y } => 0x8004 | ((x as u16) << 8) | ((y as u16) << 4),
        Instr::SubReg { x, y } => 0x8005 | ((x as u16) << 8) | ((y as u16) << 4),
        Instr::ShrReg { x, y } => 0x8006 | ((x as u16) << 8) | ((y as u16) << 4),
        Instr::SubnReg { x, y } => 0x8007 | ((x as u16) << 8) | ((y as u16) << 4),
        Instr::ShlReg { x, y } => 0x800E | ((x as u16) << 8) | ((y as u16) << 4),
        Instr::SkipNeReg { x, y } => 0x9000 | ((x as u16) << 8) | ((y as u16) << 4),
        Instr::SetIndex { nnn } => 0xA000 | nnn,
        Instr::JumpV0 { nnn } => 0xB000 | nnn,
        Instr::RandMask { x, nn } => 0xC000 | ((x as u16) << 8) | (nn as u16),
        Instr::Draw { x, y, n } => 0xD000 | ((x as u16) << 8) | ((y as u16) << 4) | (n as u16),
        Instr::SkipKeyPressed { x } => 0xE09E | ((x as u16) << 8),
        Instr::SkipKeyNotPressed { x } => 0xE0A1 | ((x as u16) << 8),
        Instr::ReadDelay { x } => 0xF007 | ((x as u16) << 8),
        Instr::WaitKey { x } => 0xF00A | ((x as u16) << 8),
        Instr::SetDelay { x } => 0xF015 | ((x as u16) << 8),
        Instr::SetSound { x } => 0xF018 | ((x as u16) << 8),
        Instr::AddIndex { x } => 0xF01E | ((x as u16) << 8),
        Instr::FontAddr { x } => 0xF029 | ((x as u16) << 8),
        Instr::StoreBcd { x } => 0xF033 | ((x as u16) << 8),
        Instr::StoreRegs { x } => 0xF055 | ((x as u16) << 8),
        Instr::LoadRegs { x } => 0xF065 | ((x as u16) << 8),
    }
}

} // verus!
