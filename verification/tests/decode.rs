use chip8_core::instr::{decode, encode};
use chip8_core::Instr;

/// Every opcode family round-trips: decoding and re-encoding the extracted
/// fields reproduces the original word.
#[test]
fn decode_encode_round_trip_all_families() {
    let samples: Vec<u16> = vec![
        0x00E0, 0x00EE, 0x1ABC, 0x2345, 0x3A55, 0x4B66, 0x5120, 0x6789, 0x7ABC, 0x8AB0, 0x8121,
        0x8232, 0x8343, 0x8454, 0x8565, 0x8676, 0x8787, 0x898E, 0x9340, 0xA999, 0xBFFF, 0xC0FF,
        0xD12F, 0xE19E, 0xE2A1, 0xF107, 0xF20A, 0xF315, 0xF418, 0xF51E, 0xF629, 0xF733, 0xF855,
        0xF965,
    ];
    for op in samples {
        let ins = decode(op).expect("sample opcode must decode");
        assert_eq!(encode(ins), op);
    }
}

#[test]
fn decode_extracts_fields() {
    assert_eq!(decode(0x8014), Some(Instr::AddReg { x: 0, y: 1 }));
    assert_eq!(decode(0x6005), Some(Instr::SetImm { x: 0, nn: 0x05 }));
    assert_eq!(decode(0x1ABC), Some(Instr::Jump { nnn: 0xABC }));
    assert_eq!(decode(0xD12F), Some(Instr::Draw { x: 1, y: 2, n: 0xF }));
    assert_eq!(decode(0xE79E), Some(Instr::SkipKeyPressed { x: 7 }));
    assert_eq!(decode(0xFA65), Some(Instr::LoadRegs { x: 0xA }));
    assert_eq!(decode(0x00E0), Some(Instr::ClearScreen));
    assert_eq!(decode(0x00EE), Some(Instr::Return));
}

#[test]
fn decode_rejects_unknown_patterns() {
    for op in [0x0000u16, 0x00E1, 0x0123, 0x5121, 0x8018, 0x8009, 0x9341, 0xE100, 0xE19F, 0xF000,
        0xF10B, 0xF166]
    {
        assert_eq!(decode(op), None, "opcode {op:#06X} must not decode");
    }
}

#[test]
fn encode_assembles_fields() {
    assert_eq!(encode(Instr::SetImm { x: 3, nn: 0xAB }), 0x63AB);
    assert_eq!(encode(Instr::Call { nnn: 0x123 }), 0x2123);
    assert_eq!(encode(Instr::ShlReg { x: 9, y: 8 }), 0x898E);
    assert_eq!(encode(Instr::StoreBcd { x: 2 }), 0xF233);
}
