//! The interpreter: stepping, arithmetic, the heap, interrupts, faults.
use art_of_vm::value::{ArithOp, Immediate, VmError};
use art_of_vm::vm::{HostCall, HostReply, Outcome, VirtualMachine};

const FUEL: usize = 1_000_000;

fn run(vm: &mut VirtualMachine) -> Outcome {
    loop {
        match vm.exec(FUEL) {
            Outcome::OutOfSteps => continue,
            other => return other,
        }
    }
}

#[test]
fn latch_is_down_after_exec_returns() {
    // A program that halts...
    let mut vm = VirtualMachine::new(vec![1], 8);
    assert_eq!(run(&mut vm), Outcome::Done);
    assert!(!vm.is_running());
    // ...one that walks off the end of its code...
    let mut vm = VirtualMachine::new(vec![0], 8);
    assert_eq!(run(&mut vm), Outcome::Done);
    assert!(!vm.is_running());
    // ...and one that faults.
    let mut vm = VirtualMachine::new(vec![5, 0], 8);
    assert_eq!(run(&mut vm), Outcome::Fatal(VmError::EmptyStack));
    assert!(!vm.is_running());
}

#[test]
fn reentry_is_a_no_op_once_done() {
    let mut vm = VirtualMachine::new(vec![3, 0, 7, 1, 0], 8);
    assert_eq!(run(&mut vm), Outcome::Done);
    let depth = vm.stack_len();
    assert_eq!(run(&mut vm), Outcome::Done);
    assert_eq!(vm.stack_len(), depth);
}

#[test]
fn the_register_file_has_sixteen_slots() {
    let vm = VirtualMachine::new(vec![], 8);
    for r in 0..16 {
        assert_eq!(vm.register(r), Some(Immediate::U8(0)));
    }
    assert_eq!(vm.register(16), None);
    assert_eq!(vm.register(255), None);
}

#[test]
fn push_then_pop_moves_the_value_and_restores_the_stack() {
    // PUSH U16(0x1234); POP R5; HLT
    let mut vm = VirtualMachine::new(vec![3, 2, 0x34, 0x12, 5, 5, 1], 8);
    assert_eq!(run(&mut vm), Outcome::Done);
    assert_eq!(vm.register(5), Some(Immediate::U16(0x1234)));
    assert_eq!(vm.stack_len(), 0);
}

#[test]
fn ldi_then_hstorer_writes_through_the_register() {
    // LDI R2, U8(3); PUSH I32(-9); HSTORER R2; HLT
    let mut vm = VirtualMachine::new(
        vec![6, 2, 0, 3, 3, 5, 0xF7, 0xFF, 0xFF, 0xFF, 24, 2, 1],
        8,
    );
    assert_eq!(run(&mut vm), Outcome::Done);
    assert_eq!(vm.heap_cell(3), Some(Immediate::I32(-9)));
    assert_eq!(vm.stack_len(), 0);
}

fn arith_program(op: u8, a: Immediate, b: Immediate) -> VirtualMachine {
    let mut code = vec![6, 0];
    code.extend(art_of_vm::encoding::encode_immed(a));
    code.push(6);
    code.push(1);
    code.extend(art_of_vm::encoding::encode_immed(b));
    code.extend([op, 0, 1, 1]);
    VirtualMachine::new(code, 8)
}

fn top_after(vm: &mut VirtualMachine) -> Immediate {
    assert_eq!(run(vm), Outcome::Done);
    let depth = vm.stack_len();
    vm.stack_slot(depth - 1).unwrap()
}

#[test]
fn same_variant_arithmetic_wraps() {
    assert_eq!(
        top_after(&mut arith_program(14, Immediate::U8(200), Immediate::U8(100))),
        Immediate::U8(44)
    );
    assert_eq!(
        top_after(&mut arith_program(15, Immediate::U8(3), Immediate::U8(5))),
        Immediate::U8(254)
    );
    assert_eq!(
        top_after(&mut arith_program(16, Immediate::I16(-300), Immediate::I16(4))),
        Immediate::I16(-1200)
    );
    assert_eq!(
        top_after(&mut arith_program(17, Immediate::I32(-7), Immediate::I32(2))),
        Immediate::I32(-3)
    );
    assert_eq!(
        top_after(&mut arith_program(14, Immediate::U64(u64::MAX), Immediate::U64(2))),
        Immediate::U64(1)
    );
}

#[test]
fn bitwise_and_shifts_work_per_variant() {
    assert_eq!(
        top_after(&mut arith_program(18, Immediate::U8(0b1100), Immediate::U8(0b1010))),
        Immediate::U8(0b1000)
    );
    assert_eq!(
        top_after(&mut arith_program(19, Immediate::U8(0b1100), Immediate::U8(0b1010))),
        Immediate::U8(0b1110)
    );
    assert_eq!(
        top_after(&mut arith_program(20, Immediate::I64(-1), Immediate::I64(1))),
        Immediate::I64(-2)
    );
    // SHR R0, U8(2) over U8(200); SHL R1, I8(1) over I8(-3).
    let mut vm = VirtualMachine::new(vec![6, 0, 0, 200, 21, 0, 0, 2, 1], 8);
    assert_eq!(top_after(&mut vm), Immediate::U8(50));
    let mut vm = VirtualMachine::new(vec![6, 0, 1, 0xFD, 22, 0, 1, 1, 1], 8);
    assert_eq!(top_after(&mut vm), Immediate::I8(-6));
}

#[test]
fn division_faults_are_reported() {
    let mut vm = arith_program(17, Immediate::U8(3), Immediate::U8(0));
    assert_eq!(run(&mut vm), Outcome::Fatal(VmError::DivByZero));
    let mut vm = arith_program(17, Immediate::I8(-128), Immediate::I8(-1));
    assert_eq!(run(&mut vm), Outcome::Fatal(VmError::DivOverflow));
}

#[test]
fn mixed_variants_fault() {
    let mut vm = arith_program(14, Immediate::U8(1), Immediate::U16(1));
    assert_eq!(run(&mut vm), Outcome::Fatal(VmError::TypeMismatch));
    // CMP across variants faults too.
    let mut vm = arith_program(13, Immediate::U8(1), Immediate::U16(1));
    assert_eq!(run(&mut vm), Outcome::Fatal(VmError::TypeMismatch));
}

#[test]
fn cmp_sets_flags_and_branches() {
    // LDI R0 U8(1); LDI R1 U8(1); CMP; JE 17; LDI R2 U8(99); HLT at 17.
    let code = vec![6, 0, 0, 1, 6, 1, 0, 1, 13, 0, 1, 9, 17, 6, 2, 0, 99, 1];
    let mut vm = VirtualMachine::new(code, 8);
    assert_eq!(run(&mut vm), Outcome::Done);
    assert_eq!(vm.register(2), Some(Immediate::U8(0)));
}

#[test]
fn float_totals_order_the_cmp_flags() {
    // CMP on F32 compares by the IEEE-754 total order of the payloads:
    // -1.0 < 0.5, so eq is false and gt is false, and JL (gt clear) branches.
    let mut code = vec![6, 0, 8];
    code.extend((-1.0f32).to_bits().to_le_bytes());
    code.extend([6, 1, 8]);
    code.extend(0.5f32.to_bits().to_le_bytes());
    code.extend([13, 0, 1]);
    code.extend([12, 23, 6, 2, 0, 99, 1]);
    // JL 23 skips the LDI of 99 into R2; the HLT sits at byte 23.
    let mut vm = VirtualMachine::new(code, 8);
    assert_eq!(run(&mut vm), Outcome::Done);
    assert_eq!(vm.register(2), Some(Immediate::U8(0)));
}

#[test]
fn jump_to_zero_is_a_fault() {
    let mut vm = VirtualMachine::new(vec![8, 0], 8);
    assert_eq!(run(&mut vm), Outcome::Fatal(VmError::JumpToZero));
    let mut vm = VirtualMachine::new(vec![8, 2, 1], 8);
    assert_eq!(run(&mut vm), Outcome::Done);
}

#[test]
fn register_and_heap_bounds_fault() {
    let mut vm = VirtualMachine::new(vec![3, 0, 1, 5, 20], 8);
    assert_eq!(run(&mut vm), Outcome::Fatal(VmError::RegisterOutOfBounds));
    let mut vm = VirtualMachine::new(vec![3, 0, 1, 23, 7], 4);
    assert_eq!(run(&mut vm), Outcome::Fatal(VmError::HeapOutOfBounds));
    let mut vm = VirtualMachine::new(vec![25, 9], 4);
    assert_eq!(run(&mut vm), Outcome::Fatal(VmError::HeapOutOfBounds));
}

#[test]
fn truncated_code_faults() {
    let mut vm = VirtualMachine::new(vec![3], 4);
    assert_eq!(run(&mut vm), Outcome::Fatal(VmError::TruncatedCode));
    let mut vm = VirtualMachine::new(vec![6, 0, 4, 1, 2], 4);
    assert_eq!(run(&mut vm), Outcome::Fatal(VmError::TruncatedCode));
}

#[test]
fn unknown_interrupts_fault() {
    let mut vm = VirtualMachine::new(vec![3, 0, 0, 2, 9], 4);
    assert_eq!(run(&mut vm), Outcome::Fatal(VmError::UnknownInterrupt));
}

#[test]
fn hello_a_writes_one_scalar() {
    // PUSH U32(0); PUSH U32(65); HSTORE 0; HSTORE 1; PUSH U32(0); INT 0; HLT
    let code = vec![
        3, 4, 0, 0, 0, 0, 3, 4, 65, 0, 0, 0, 23, 0, 23, 1, 3, 4, 0, 0, 0, 0, 2, 0, 1,
    ];
    let mut vm = VirtualMachine::new(code, 16);
    match run(&mut vm) {
        Outcome::Host(HostCall::Write(scalars)) => assert_eq!(scalars, vec![65]),
        other => panic!("expected the write call, got {other:?}"),
    }
    assert!(vm.resume(HostReply::WriteDone));
    assert_eq!(run(&mut vm), Outcome::Done);
}

#[test]
fn writing_an_invalid_scalar_faults() {
    // A surrogate value in the string is refused before anything is written.
    let mut code = vec![3, 4];
    code.extend(0xD800u32.to_le_bytes());
    code.extend([23, 0, 3, 4, 0, 0, 0, 0, 2, 0, 1]);
    let mut vm = VirtualMachine::new(code, 8);
    assert_eq!(run(&mut vm), Outcome::Fatal(VmError::InvalidScalar));
}

#[test]
fn heap_alloc_zeroes_the_first_streak() {
    // PUSH U8(2); INT 1; HLT — a fresh heap allocates at its start.
    let mut vm = VirtualMachine::new(vec![3, 0, 2, 2, 1, 1], 8);
    assert_eq!(run(&mut vm), Outcome::Done);
    assert_eq!(vm.stack_slot(0), Some(Immediate::U64(0)));
    assert_eq!(vm.heap_cell(0), Some(Immediate::U8(0)));
    assert_eq!(vm.heap_cell(1), Some(Immediate::U8(0)));
    assert_eq!(vm.heap_cell(2), Some(Immediate::Absent));
}

#[test]
fn heap_alloc_growth_overlaps_the_last_cell() {
    // Fill both cells of a two-cell heap, then ask for two more: the heap
    // grows and the returned address names the old last cell.
    let code = vec![
        3, 0, 9, 23, 0, 3, 0, 9, 23, 1, 3, 0, 2, 2, 1, 1,
    ];
    let mut vm = VirtualMachine::new(code, 2);
    assert_eq!(run(&mut vm), Outcome::Done);
    assert_eq!(vm.heap_len(), 4);
    assert_eq!(vm.stack_slot(0), Some(Immediate::U64(1)));
    assert_eq!(vm.heap_cell(2), Some(Immediate::U8(0)));
}

#[test]
fn heap_alloc_on_an_empty_heap_faults() {
    let mut vm = VirtualMachine::new(vec![3, 0, 1, 2, 1, 1], 0);
    assert_eq!(run(&mut vm), Outcome::Fatal(VmError::EmptyHeap));
}

#[test]
fn panic_interrupt_hands_out_the_message() {
    // Build the string "E" and invoke INT 4.
    let code = vec![
        3, 4, 0, 0, 0, 0, 3, 4, 69, 0, 0, 0, 23, 0, 23, 1, 3, 4, 0, 0, 0, 0, 2, 4, 1,
    ];
    let mut vm = VirtualMachine::new(code, 8);
    match run(&mut vm) {
        Outcome::Host(HostCall::Panic(msg)) => assert_eq!(msg, vec![69]),
        other => panic!("expected the panic call, got {other:?}"),
    }
    // A panic takes no reply.
    assert!(!vm.resume(HostReply::WriteDone));
}

#[test]
fn read_file_success_fills_a_buffer() {
    // Path "p", then INT 2; the host answers with two characters.
    let code = vec![
        3, 4, 0, 0, 0, 0, 3, 4, 112, 0, 0, 0, 23, 0, 23, 1, 3, 4, 0, 0, 0, 0, 2, 2, 1,
    ];
    let mut vm = VirtualMachine::new(code, 16);
    match run(&mut vm) {
        Outcome::Host(HostCall::ReadFile(path)) => assert_eq!(path, vec![112]),
        other => panic!("expected the read call, got {other:?}"),
    }
    assert!(vm.resume(HostReply::FileData(Some(vec![104, 105]))));
    assert_eq!(run(&mut vm), Outcome::Done);
    // Success marker on top, buffer address under it.
    let depth = vm.stack_len();
    assert_eq!(vm.stack_slot(depth - 1), Some(Immediate::U8(1)));
    let addr = match vm.stack_slot(depth - 2) {
        Some(Immediate::U64(a)) => a as usize,
        other => panic!("expected a buffer address, got {other:?}"),
    };
    assert_eq!(vm.heap_cell(addr), Some(Immediate::U32(104)));
    assert_eq!(vm.heap_cell(addr + 1), Some(Immediate::U32(105)));
    assert_eq!(vm.heap_cell(addr + 2), Some(Immediate::U32(0)));
}

#[test]
fn read_file_failure_pushes_two_zeroes() {
    let code = vec![
        3, 4, 0, 0, 0, 0, 3, 4, 112, 0, 0, 0, 23, 0, 23, 1, 3, 4, 0, 0, 0, 0, 2, 2, 1,
    ];
    let mut vm = VirtualMachine::new(code, 16);
    match run(&mut vm) {
        Outcome::Host(HostCall::ReadFile(_)) => {},
        other => panic!("expected the read call, got {other:?}"),
    }
    assert!(vm.resume(HostReply::FileData(None)));
    assert_eq!(run(&mut vm), Outcome::Done);
    let depth = vm.stack_len();
    assert_eq!(vm.stack_slot(depth - 1), Some(Immediate::U8(0)));
    assert_eq!(vm.stack_slot(depth - 2), Some(Immediate::U64(0)));
}

#[test]
fn write_file_reports_the_host_verdict() {
    // Path "q" at 0, data "A" at 2; push path addr then data addr; INT 3.
    let code = vec![
        3, 4, 113, 0, 0, 0, 23, 0, 3, 4, 0, 0, 0, 0, 23, 1, 3, 4, 65, 0, 0, 0, 23, 2, 3, 4, 0,
        0, 0, 0, 23, 3, 3, 4, 0, 0, 0, 0, 3, 4, 2, 0, 0, 0, 2, 3, 1,
    ];
    let mut vm = VirtualMachine::new(code, 16);
    match run(&mut vm) {
        Outcome::Host(HostCall::WriteFile { path, data }) => {
            assert_eq!(path, vec![113]);
            assert_eq!(data, vec![65]);
        },
        other => panic!("expected the write-file call, got {other:?}"),
    }
    assert!(vm.resume(HostReply::FileWritten(true)));
    assert_eq!(run(&mut vm), Outcome::Done);
    let depth = vm.stack_len();
    assert_eq!(vm.stack_slot(depth - 1), Some(Immediate::U8(1)));
}

#[test]
fn float_arithmetic_goes_through_the_host() {
    // LDI R0 F32(2.0); LDI R1 F32(0.5); ADD; HLT
    let mut code = vec![6, 0, 8];
    code.extend(2.0f32.to_bits().to_le_bytes());
    code.extend([6, 1, 8]);
    code.extend(0.5f32.to_bits().to_le_bytes());
    code.extend([14, 0, 1, 1]);
    let mut vm = VirtualMachine::new(code, 8);
    let (lhs, rhs) = match run(&mut vm) {
        Outcome::Host(HostCall::FloatBin { op, wide, lhs, rhs }) => {
            assert_eq!(op, ArithOp::Add);
            assert!(!wide);
            (lhs, rhs)
        },
        other => panic!("expected the float call, got {other:?}"),
    };
    let sum = f32::from_bits(lhs as u32) + f32::from_bits(rhs as u32);
    assert!(vm.resume(HostReply::FloatResult(sum.to_bits() as u64)));
    assert_eq!(run(&mut vm), Outcome::Done);
    assert_eq!(vm.stack_slot(0), Some(Immediate::F32(2.5f32.to_bits())));
}

#[test]
fn a_mismatched_reply_is_refused() {
    let mut vm = VirtualMachine::new(vec![1], 4);
    assert!(!vm.resume(HostReply::WriteDone));
    assert_eq!(run(&mut vm), Outcome::Done);
    assert!(!vm.resume(HostReply::FileWritten(true)));
}

#[test]
fn the_step_budget_is_honoured() {
    // Three NOPs and a HLT: two steps of budget leave the program going.
    let mut vm = VirtualMachine::new(vec![0, 0, 0, 1], 4);
    assert_eq!(vm.exec(2), Outcome::OutOfSteps);
    assert!(vm.is_running());
    assert_eq!(vm.exec(100), Outcome::Done);
    assert!(!vm.is_running());
}
