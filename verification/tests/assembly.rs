//! The assembler: translation, labels, patching, float slots, the envelope.
use art_of_vm::assembler::{patch_float_payload, AsmError, Assembler};
use art_of_vm::envelope::{open_program, seal_program};
use art_of_vm::instr::{decode_program, Instruction};
use art_of_vm::value::Immediate;
use art_of_vm::vm::{Outcome, VirtualMachine};

const FUEL: usize = 1_000_000;

fn assemble(src: &str) -> Result<Vec<u8>, AsmError> {
    let mut text = String::from(src);
    text.push('\0');
    let mut assembler = Assembler::new(text);
    assembler.assemble()
}

fn run(vm: &mut VirtualMachine) -> Outcome {
    loop {
        match vm.exec(FUEL) {
            Outcome::OutOfSteps => continue,
            other => return other,
        }
    }
}

#[test]
fn assembled_streams_end_with_hlt() {
    for src in ["_", "hlt", "$ u8$1", "@ R3 i32$-7", "", "   "] {
        if let Ok(bytes) = assemble(src) {
            assert!(!bytes.is_empty());
            assert_eq!(*bytes.last().unwrap(), 1);
        }
    }
    assert_eq!(*assemble("_").unwrap().last().unwrap(), 1);
}

#[test]
fn simple_instructions_assemble_to_their_bytes() {
    assert_eq!(assemble("_").unwrap(), vec![0, 1]);
    assert_eq!(assemble("hlt").unwrap(), vec![1, 1]);
    assert_eq!(assemble("int 0").unwrap(), vec![2, 0, 1]);
    assert_eq!(assemble("$ u8$7").unwrap(), vec![3, 0, 7, 1]);
    assert_eq!(assemble("$ -i8$5").unwrap(), vec![3, 1, 0xFB, 1]);
    assert_eq!(assemble("$ u32$65").unwrap(), vec![3, 4, 65, 0, 0, 0, 1]);
    assert_eq!(assemble("% R2").unwrap(), vec![5, 2, 1]);
    assert_eq!(assemble(": R4 R5").unwrap(), vec![7, 4, 5, 1]);
    assert_eq!(assemble("+ R0 R1").unwrap(), vec![14, 0, 1, 1]);
    assert_eq!(assemble("strR R8").unwrap(), vec![24, 8, 1]);
    assert_eq!(assemble("//R 9").unwrap(), vec![8, 9, 1]);
}

#[test]
fn integer_arithmetic_scenario() {
    let code = assemble("@ R0 i32$2  @ R1 i32$3  + R0 R1  % R2  hlt").unwrap();
    let mut vm = VirtualMachine::new(code, 16);
    assert_eq!(run(&mut vm), Outcome::Done);
    assert_eq!(vm.register(2), Some(Immediate::I32(5)));
    assert_eq!(vm.stack_len(), 0);
}

#[test]
fn branch_on_equal_scenario() {
    let code = assemble("@ R0 u8$1  @ R1 u8$1  = R0 R1  /= done  @ R2 u8$99  .done  hlt")
        .unwrap();
    assert_eq!(
        code,
        vec![6, 0, 0, 1, 6, 1, 0, 1, 13, 0, 1, 9, 17, 6, 2, 0, 99, 1, 1]
    );
    let mut vm = VirtualMachine::new(code, 16);
    assert_eq!(run(&mut vm), Outcome::Done);
    assert_eq!(vm.register(2), Some(Immediate::U8(0)));
}

#[test]
fn backward_labels_resolve_too() {
    let code = assemble(".top  _  // top").unwrap();
    // The label sits at offset 0... which a jump cannot name: the program
    // still assembles; running it faults on the zero target.
    assert_eq!(code, vec![0, 8, 0, 1]);
    let mut vm = VirtualMachine::new(code, 4);
    assert_eq!(
        run(&mut vm),
        Outcome::Fatal(art_of_vm::value::VmError::JumpToZero)
    );
}

#[test]
fn oversized_programs_truncate_label_addresses() {
    let mut src = String::from("// end ");
    for _ in 0..300 {
        src.push_str("_ ");
    }
    src.push_str(".end");
    let code = assemble(&src).unwrap();
    // The label's offset is 302; its single address byte keeps 302 mod 256.
    assert_eq!(code.len(), 303);
    assert_eq!(code[1], (302 % 256) as u8);
}

#[test]
fn every_opcode_form_survives_a_dry_run() {
    let src = "_ hlt int 0 $ u8$7 $$ R1 % R2 @ R3 i16$-5 : R4 R5 //R 9 /=R 10 /!R 11 \
               />R 12 /<R 13 = R6 R7 + R0 R1 - R2 R3 * R4 R5 / R6 R7 & R0 R1 | R2 R3 \
               ^ R4 R5 > R1 u8$2 < R2 u8$3 str 21 strR R8 ld 22 ldR R9";
    let code = assemble(src).unwrap();
    let program = decode_program(&code).unwrap();
    assert_eq!(
        program,
        vec![
            Instruction::NOP,
            Instruction::HLT,
            Instruction::INT(0),
            Instruction::PUSH(Immediate::U8(7)),
            Instruction::PUSHR(1),
            Instruction::POP(2),
            Instruction::LDI(3, Immediate::I16(-5)),
            Instruction::CPY(4, 5),
            Instruction::JMP(9),
            Instruction::JE(10),
            Instruction::JNE(11),
            Instruction::JG(12),
            Instruction::JL(13),
            Instruction::CMP(6, 7),
            Instruction::ADD(0, 1),
            Instruction::SUB(2, 3),
            Instruction::MUL(4, 5),
            Instruction::DIV(6, 7),
            Instruction::AND(0, 1),
            Instruction::OR(2, 3),
            Instruction::XOR(4, 5),
            Instruction::SHR(1, Immediate::U8(2)),
            Instruction::SHL(2, Immediate::U8(3)),
            Instruction::HSTORE(21),
            Instruction::HSTORER(8),
            Instruction::HLOAD(22),
            Instruction::HLOADR(9),
            Instruction::HLT,
        ]
    );
}

#[test]
fn parse_errors_are_fatal() {
    assert_eq!(
        assemble("frobnicate"),
        Err(AsmError::UnknownOpcode("frobnicate".chars().collect()))
    );
    assert_eq!(assemble("% 5"), Err(AsmError::ExpectedRegister));
    assert_eq!(assemble("int x"), Err(AsmError::ExpectedAddress));
    assert_eq!(assemble("$ R1"), Err(AsmError::ExpectedImmediate));
    assert_eq!(assemble("$ -u8$5"), Err(AsmError::ExpectedImmediate));
    assert_eq!(assemble("$ u8$300"), Err(AsmError::BadImmediate));
    assert_eq!(assemble("$ i8$200"), Err(AsmError::BadImmediate));
    assert_eq!(
        assemble("// nowhere"),
        Err(AsmError::UnknownLabel("nowhere".chars().collect()))
    );
}

#[test]
fn missing_operands_are_fatal() {
    assert_eq!(assemble("%"), Err(AsmError::ExpectedRegister));
    assert_eq!(assemble("$"), Err(AsmError::ExpectedImmediate));
    assert_eq!(assemble("@ R1"), Err(AsmError::ExpectedImmediate));
}

#[test]
fn float_literals_leave_slots_for_the_host() {
    let mut text = String::from("$ f32$1.5  @ R1 f64$0.25  hlt");
    text.push('\0');
    let mut assembler = Assembler::new(text);
    let mut code = assembler.assemble().unwrap();
    // Tag bytes are in place, payloads zeroed.
    assert_eq!(code[0], 3);
    assert_eq!(code[1], 8);
    assert_eq!(&code[2..6], &[0, 0, 0, 0]);
    assert_eq!(code[6], 6);
    assert_eq!(code[7], 1);
    assert_eq!(code[8], 9);
    assert_eq!(&code[9..17], &[0u8; 8]);
    let slots = assembler.float_slots().clone();
    assert_eq!(slots.len(), 2);
    assert_eq!(slots[0].offset, 2);
    assert!(!slots[0].wide);
    assert!(!slots[0].neg);
    let text0: String = slots[0].text.iter().collect();
    assert_eq!(text0, "1.5");
    assert_eq!(slots[1].offset, 9);
    assert!(slots[1].wide);
    // The host parses the texts and patches the bits in.
    assert!(patch_float_payload(
        &mut code,
        &slots[0],
        1.5f32.to_bits() as u64
    ));
    assert!(patch_float_payload(&mut code, &slots[1], 0.25f64.to_bits()));
    assert_eq!(&code[2..6], &1.5f32.to_bits().to_le_bytes());
    assert_eq!(&code[9..17], &0.25f64.to_bits().to_le_bytes());
    // The patched program pushes the float and loads the register.
    let mut vm = VirtualMachine::new(code, 8);
    assert_eq!(run(&mut vm), Outcome::Done);
    assert_eq!(vm.stack_slot(0), Some(Immediate::F32(1.5f32.to_bits())));
    assert_eq!(vm.register(1), Some(Immediate::F64(0.25f64.to_bits())));
}

#[test]
fn float_slots_shift_with_label_patches() {
    // A symbolic jump before a float literal: the patch pass inserts the
    // address byte and the slot moves with its payload.
    let mut text = String::from("// over  $ f32$2.0  .over  hlt");
    text.push('\0');
    let mut assembler = Assembler::new(text);
    let code = assembler.assemble().unwrap();
    // JMP(8), address 8, PUSH(3), tag 8, four zero bytes, HLT, trailing HLT.
    assert_eq!(code, vec![8, 8, 3, 8, 0, 0, 0, 0, 1, 1]);
    let slots = assembler.float_slots();
    assert_eq!(slots.len(), 1);
    assert_eq!(slots[0].offset, 4);
}

#[test]
fn negative_float_literals_carry_their_sign() {
    // The leading minus stays apart from the magnitude text.
    let mut text = String::from("$ -f32$3.25 hlt");
    text.push('\0');
    let mut assembler = Assembler::new(text);
    let mut code = assembler.assemble().unwrap();
    let slots = assembler.float_slots().clone();
    assert!(slots[0].neg);
    let magnitude: String = slots[0].text.iter().collect();
    let value: f32 = magnitude.parse().unwrap();
    let signed = if slots[0].neg { -value } else { value };
    assert!(patch_float_payload(
        &mut code,
        &slots[0],
        signed.to_bits() as u64
    ));
    let mut vm = VirtualMachine::new(code, 4);
    assert_eq!(run(&mut vm), Outcome::Done);
    assert_eq!(vm.stack_slot(0), Some(Immediate::F32((-3.25f32).to_bits())));
}

#[test]
fn the_envelope_round_trips() {
    let code = assemble("$ u8$7 hlt").unwrap();
    let sealed = seal_program(&code).expect("sealing a small stream succeeds");
    assert_eq!(sealed.len(), 8 + code.len());
    assert_eq!(&sealed[0..8], &(code.len() as u64).to_le_bytes());
    assert_eq!(&sealed[8..], &code[..]);
    let opened = open_program(&sealed).expect("a sealed stream opens");
    assert_eq!(opened, code);
}

#[test]
fn a_short_or_lying_envelope_is_refused() {
    assert_eq!(open_program(&vec![1, 2, 3]), None);
    // A length prefix larger than the remaining bytes.
    let mut buf = 10u64.to_le_bytes().to_vec();
    buf.extend([1, 2, 3]);
    assert_eq!(open_program(&buf), None);
    // Trailing garbage after the declared bytes is ignored.
    let mut buf = 1u64.to_le_bytes().to_vec();
    buf.extend([42, 9, 9]);
    assert_eq!(open_program(&buf), Some(vec![42]));
}

#[test]
fn hello_a_scenario() {
    let code = assemble("$ u32$0  $ u32$65  str 0 str 1  $ u32$0  int 0  hlt").unwrap();
    let mut vm = VirtualMachine::new(code, 16);
    match run(&mut vm) {
        Outcome::Host(art_of_vm::vm::HostCall::Write(scalars)) => {
            let text: String = scalars
                .iter()
                .map(|&c| char::from_u32(c).unwrap())
                .collect();
            assert_eq!(text, "A");
        }
        other => panic!("expected the write call, got {other:?}"),
    }
    assert!(vm.resume(art_of_vm::vm::HostReply::WriteDone));
    assert_eq!(run(&mut vm), Outcome::Done);
}

#[test]
fn allocate_and_write_scenario() {
    // Allocate a two-cell buffer, write U32(65) then U32(0) into it, and
    // hand the buffer to WRITE.
    let src = "$ u32$0  $ u32$65  $ u8$2  int 1  % R1  strR R1  @ R2 u64$1  strR R2  \
               $$ R1  int 0  hlt";
    let code = assemble(src).unwrap();
    let mut vm = VirtualMachine::new(code, 16);
    match run(&mut vm) {
        Outcome::Host(art_of_vm::vm::HostCall::Write(scalars)) => {
            assert_eq!(scalars, vec![65]);
        }
        other => panic!("expected the write call, got {other:?}"),
    }
    assert!(vm.resume(art_of_vm::vm::HostReply::WriteDone));
    assert_eq!(run(&mut vm), Outcome::Done);
}

#[test]
fn panic_scenario() {
    // Build the string "E" and invoke INT 4; the host then writes the
    // banner to standard error and ends the process with status one.
    let code = assemble("$ u32$0  $ u32$69  str 0 str 1  $ u32$0  int 4  hlt").unwrap();
    let mut vm = VirtualMachine::new(code, 16);
    match run(&mut vm) {
        Outcome::Host(art_of_vm::vm::HostCall::Panic(msg)) => {
            let text: String = msg.iter().map(|&c| char::from_u32(c).unwrap()).collect();
            assert_eq!(text, "E");
        }
        other => panic!("expected the panic call, got {other:?}"),
    }
}

#[test]
fn several_symbolic_jumps_patch_in_order() {
    let code = assemble("// a  // b  .a _ .b hlt").unwrap();
    // Each inserted address byte shifts the bytes behind it; the recorded
    // offsets already account for every placeholder.
    assert_eq!(code, vec![8, 4, 8, 5, 0, 1, 1]);
    let mut vm = VirtualMachine::new(code, 4);
    assert_eq!(run(&mut vm), Outcome::Done);
}

#[test]
fn the_last_declaration_of_a_label_wins() {
    let code = assemble(".x _ .x // x").unwrap();
    assert_eq!(code, vec![0, 8, 1, 1]);
}

#[test]
fn operands_outside_their_ranges_are_refused() {
    // The register file has sixteen slots; R15 is the last real one.
    assert_eq!(assemble("% R15").unwrap(), vec![5, 15, 1]);
    assert_eq!(assemble("% R16"), Err(AsmError::ExpectedRegister));
    assert_eq!(assemble("% R99"), Err(AsmError::ExpectedRegister));
    assert_eq!(assemble(": R0 R260"), Err(AsmError::ExpectedRegister));
    // Raw addresses and interrupt numbers fill a single byte.
    assert_eq!(assemble("str 255").unwrap(), vec![23, 255, 1]);
    assert_eq!(assemble("str 256"), Err(AsmError::ExpectedAddress));
    assert_eq!(assemble("int 300"), Err(AsmError::ExpectedAddress));
    assert_eq!(assemble("//R 999"), Err(AsmError::ExpectedAddress));
}
