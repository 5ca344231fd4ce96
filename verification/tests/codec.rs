//! The immediate wire format and the instruction decoder.
use art_of_vm::encoding::{decode_immed, encode_immed};
use art_of_vm::instr::{decode_instr, decode_program, Instruction, Opcode};
use art_of_vm::value::{Immediate, VmError};

fn round_trip(v: Immediate) {
    let bytes = encode_immed(v);
    let n = bytes.len();
    let (decoded, next) = decode_immed(&bytes, 0).expect("a full encoding decodes");
    assert_eq!(decoded, v);
    assert_eq!(next, n);
}

#[test]
fn every_variant_round_trips() {
    round_trip(Immediate::Absent);
    round_trip(Immediate::U8(0));
    round_trip(Immediate::U8(255));
    round_trip(Immediate::I8(-128));
    round_trip(Immediate::I8(127));
    round_trip(Immediate::U16(0xBEEF));
    round_trip(Immediate::I16(-2));
    round_trip(Immediate::U32(0xDEAD_BEEF));
    round_trip(Immediate::I32(-100_000));
    round_trip(Immediate::U64(0xFEED_FACE_CAFE_F00D));
    round_trip(Immediate::I64(i64::MIN));
    round_trip(Immediate::F32(1.5f32.to_bits()));
    round_trip(Immediate::F64((-0.25f64).to_bits()));
}

#[test]
fn encodings_use_the_tag_table() {
    assert_eq!(encode_immed(Immediate::U8(7)), vec![0, 7]);
    assert_eq!(encode_immed(Immediate::I8(-1)), vec![1, 0xFF]);
    assert_eq!(encode_immed(Immediate::U16(0x0102)), vec![2, 2, 1]);
    assert_eq!(encode_immed(Immediate::I16(-2)), vec![3, 0xFE, 0xFF]);
    assert_eq!(encode_immed(Immediate::U32(0x04030201)), vec![4, 1, 2, 3, 4]);
    assert_eq!(
        encode_immed(Immediate::U64(0x0807060504030201)),
        vec![6, 1, 2, 3, 4, 5, 6, 7, 8]
    );
    assert_eq!(encode_immed(Immediate::Absent), vec![255]);
    let f = 1.5f32.to_bits().to_le_bytes();
    assert_eq!(
        encode_immed(Immediate::F32(1.5f32.to_bits())),
        vec![8, f[0], f[1], f[2], f[3]]
    );
}

#[test]
fn unknown_tag_decodes_to_absent_and_consumes_no_payload() {
    // Tag 10 is just past the table; 255 is the absent marker itself.
    let bytes = vec![10u8, 42, 43];
    let (v, next) = decode_immed(&bytes, 0).unwrap();
    assert_eq!(v, Immediate::Absent);
    assert_eq!(next, 1);
    let bytes = vec![255u8, 9];
    let (v, next) = decode_immed(&bytes, 0).unwrap();
    assert_eq!(v, Immediate::Absent);
    assert_eq!(next, 1);
}

#[test]
fn truncated_payload_is_a_decode_error() {
    assert_eq!(decode_immed(&vec![4u8, 1, 2], 0), Err(VmError::TruncatedCode));
    assert_eq!(decode_immed(&vec![0u8], 0), Err(VmError::TruncatedCode));
    assert_eq!(decode_immed(&vec![], 0), Err(VmError::TruncatedCode));
}

#[test]
fn unknown_opcode_decodes_to_nop() {
    let bytes = vec![200u8, 1];
    let (ins, next) = decode_instr(&bytes, 0).unwrap();
    assert_eq!(ins, Instruction::NOP);
    assert_eq!(next, 1);
    assert_eq!(bytes[next], Opcode::HLT.code());
}

#[test]
fn instructions_decode_with_their_operands() {
    let bytes = vec![6u8, 3, 5, 0xFE, 0xFF, 0xFF, 0xFF];
    let (ins, next) = decode_instr(&bytes, 0).unwrap();
    assert_eq!(ins, Instruction::LDI(3, Immediate::I32(-2)));
    assert_eq!(next, 7);
    let bytes = vec![13u8, 4, 9];
    assert_eq!(decode_instr(&bytes, 0), Ok((Instruction::CMP(4, 9), 3)));
    let bytes = vec![2u8];
    assert_eq!(decode_instr(&bytes, 0), Err(VmError::TruncatedCode));
}

#[test]
fn a_stream_decodes_front_to_back() {
    let bytes = vec![0u8, 3, 0, 65, 23, 0, 1];
    let program = decode_program(&bytes).unwrap();
    assert_eq!(
        program,
        vec![
            Instruction::NOP,
            Instruction::PUSH(Immediate::U8(65)),
            Instruction::HSTORE(0),
            Instruction::HLT,
        ]
    );
}
