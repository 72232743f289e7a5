//! The timing program's own encoding against the reference PIO assembler.

use i2s_wav::mic::{encode_instr, i2s_program, PioI2sMicProgram, PioInstr, PioOp};
use pio::{
    InSource, Instruction, InstructionOperands, JmpCondition, MovDestination, MovOperation,
    MovSource, SetDestination, SideSet,
};

/// Encode one instruction with the reference assembler: a 2-bit,
/// non-optional side set, no delay.
fn reference_encode(i: &PioInstr) -> u16 {
    let operands = match i.op {
        PioOp::SetX(v) => InstructionOperands::SET { destination: SetDestination::X, data: v },
        PioOp::SetY(v) => InstructionOperands::SET { destination: SetDestination::Y, data: v },
        PioOp::InPins(n) => InstructionOperands::IN { source: InSource::PINS, bit_count: n },
        PioOp::JmpXDec(t) => InstructionOperands::JMP {
            condition: JmpCondition::XDecNonZero,
            address: t,
        },
        PioOp::JmpYDec(t) => InstructionOperands::JMP {
            condition: JmpCondition::YDecNonZero,
            address: t,
        },
        PioOp::JmpAlways(t) => InstructionOperands::JMP {
            condition: JmpCondition::Always,
            address: t,
        },
        PioOp::Nop => InstructionOperands::MOV {
            destination: MovDestination::Y,
            op: MovOperation::None,
            source: MovSource::Y,
        },
    };
    Instruction { operands, delay: 0, side_set: Some(i.side) }.encode(SideSet::new(false, 2, false))
}

#[test]
fn encoding_matches_reference_assembler() {
    for ins in i2s_program().iter() {
        assert_eq!(
            encode_instr(*ins),
            reference_encode(ins),
            "encoding mismatch for {:?}",
            ins
        );
    }
}

#[test]
fn compiled_program_is_the_encoded_sequence() {
    let program = PioI2sMicProgram::new();
    let instrs = i2s_program();
    assert_eq!(program.code().len(), 14);
    for (word, ins) in program.code().iter().zip(instrs.iter()) {
        assert_eq!(*word, reference_encode(ins));
    }
}

#[test]
fn program_shape() {
    let instrs = i2s_program();
    assert_eq!(instrs.len(), 14);
    // 24 capture cycles per channel: the loop counter is set to 23.
    assert_eq!(instrs[1].op, PioOp::SetX(23));
    assert_eq!(instrs[7].op, PioOp::SetX(23));
    // 8 dummy cycles per channel: the loop counter is set to 7.
    assert_eq!(instrs[4].op, PioOp::SetY(7));
    assert_eq!(instrs[10].op, PioOp::SetY(7));
    // One bit shifted in per capture cycle.
    assert_eq!(instrs[2].op, PioOp::InPins(1));
    assert_eq!(instrs[8].op, PioOp::InPins(1));
    // Channel select (side bit 1) low over the left section, high over the
    // right, and the bit clock (side bit 0) raised on capture and dummy
    // cycles.
    for k in 1..7 {
        assert_eq!(instrs[k].side >> 1, 0, "left section at {}", k);
    }
    for k in 7..13 {
        assert_eq!(instrs[k].side >> 1, 1, "right section at {}", k);
    }
    assert_eq!(instrs[2].side & 1, 1);
    assert_eq!(instrs[5].side & 1, 1);
    assert_eq!(instrs[8].side & 1, 1);
    assert_eq!(instrs[11].side & 1, 1);
    // The sequence loops forever: the last instruction jumps back to the
    // start of the left channel.
    assert_eq!(instrs[13].op, PioOp::JmpAlways(1));

    let program = PioI2sMicProgram::new();
    assert!(program.fits_in(32));
    assert!(!program.fits_in(13));
}
