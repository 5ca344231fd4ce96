//! Instruction forms, their opcode bytes, and the decoder that reads one
//! instruction out of the byte stream.
use vstd::prelude::*;

use crate::encoding::spec_decode_immed;
use crate::encoding::decode_immed;
use crate::value::{Immediate, VmError};
use crate::{Address, Register};

verus! {

/// The opcode of each instruction form, in bytecode order: `code` gives the
/// byte the assembler emits for it.
#[derive(Clone, Copy, PartialEq, Eq, Structural, Debug)]
pub enum Opcode {
    NOP,
    HLT,
    INT,
    PUSH,
    PUSHR,
    POP,
    LDI,
    CPY,
    JMP,
    JE,
    JNE,
    JG,
    JL,
    CMP,
    ADD,
    SUB,
    MUL,
    DIV,
    AND,
    OR,
    XOR,
    SHR,
    SHL,
    HSTORE,
    HSTORER,
    HLOAD,
    HLOADR,
}

impl Opcode {
    /// The byte value of this opcode on the wire.
    pub open spec fn spec_code(self) -> u8 {
        match self {
            Opcode::NOP => 0,
            Opcode::HLT => 1,
            Opcode::INT => 2,
            Opcode::PUSH => 3,
            Opcode::PUSHR => 4,
            Opcode::POP => 5,
            Opcode::LDI => 6,
            Opcode::CPY => 7,
            Opcode::JMP => 8,
            Opcode::JE => 9,
            Opcode::JNE => 10,
            Opcode::JG => 11,
            Opcode::JL => 12,
            Opcode::CMP => 13,
            Opcode::ADD => 14,
            Opcode::SUB => 15,
            Opcode::MUL => 16,
            Opcode::DIV => 17,
            Opcode::AND => 18,
            Opcode::OR => 19,
            Opcode::XOR => 20,
            Opcode::SHR => 21,
            Opcode::SHL => 22,
            Opcode::HSTORE => 23,
            Opcode::HSTORER => 24,
            Opcode::HLOAD => 25,
            Opcode::HLOADR => 26,
        }
    }

    /// Emits the byte value of this opcode.
    pub fn code(self) -> (r: u8)
        ensures
            r == self.spec_code(),
    {
        match self {
            Opcode::NOP => 0,
            Opcode::HLT => 1,
            Opcode::INT => 2,
            Opcode::PUSH => 3,
            Opcode::PUSHR => 4,
            Opcode::POP => 5,
            Opcode::LDI => 6,
            Opcode::CPY => 7,
            Opcode::JMP => 8,
            Opcode::JE => 9,
            Opcode::JNE => 10,
            Opcode::JG => 11,
            Opcode::JL => 12,
            Opcode::CMP => 13,
            Opcode::ADD => 14,
            Opcode::SUB => 15,
            Opcode::MUL => 16,
            Opcode::DIV => 17,
            Opcode::AND => 18,
            Opcode::OR => 19,
            Opcode::XOR => 20,
            Opcode::SHR => 21,
            Opcode::SHL => 22,
            Opcode::HSTORE => 23,
            Opcode::HSTORER => 24,
            Opcode::HLOAD => 25,
            Opcode::HLOADR => 26,
        }
    }
}

/// One decoded instruction, carrying its operands as plain values.
#[derive(Clone, Copy, PartialEq, Eq, Structural, Debug)]
pub enum Instruction {
    /// Does nothing.
    NOP,
    /// Ends program execution.
    HLT,
    /// Calls the numbered host service.
    INT(Address),
    /// Pushes the immediate onto the value stack.
    PUSH(Immediate),
    /// Pushes the named register's value onto the stack.
    PUSHR(Register),
    /// Pops the top of stack into the named register.
    POP(Register),
    /// Loads the immediate into the named register.
    LDI(Register, Immediate),
    /// Copies the first register's value into the second.
    CPY(Register, Register),
    /// Jumps to the address.
    JMP(Address),
    /// Jumps when the equality flag is set.
    JE(Address),
    /// Jumps when the equality flag is clear.
    JNE(Address),
    /// Jumps when the greater-than flag is set.
    JG(Address),
    /// Jumps when the greater-than flag is clear, which includes equality.
    JL(Address),
    /// Compares two registers and sets both flags.
    CMP(Register, Register),
    /// Adds two registers and pushes the sum.
    ADD(Register, Register),
    /// Subtracts the second register from the first and pushes the difference.
    SUB(Register, Register),
    /// Multiplies two registers and pushes the product.
    MUL(Register, Register),
    /// Divides the first register by the second and pushes the quotient.
    DIV(Register, Register),
    /// Bitwise-ands two registers and pushes the result.
    AND(Register, Register),
    /// Bitwise-ors two registers and pushes the result.
    OR(Register, Register),
    /// Bitwise-xors two registers and pushes the result.
    XOR(Register, Register),
    /// Shifts the register right by the immediate and pushes the result.
    SHR(Register, Immediate),
    /// Shifts the register left by the immediate and pushes the result.
    SHL(Register, Immediate),
    /// Stores the popped top of stack into the heap cell at the address.
    HSTORE(Address),
    /// Stores the popped top of stack into the heap cell the register names.
    HSTORER(Register),
    /// Pushes the heap cell at the address onto the stack.
    HLOAD(Address),
    /// Pushes the heap cell the register names onto the stack.
    HLOADR(Register),
}

/// Reads the instruction whose opcode byte sits at `pc`. Returns it together
/// with the index of the next instruction. An opcode byte outside the table
/// reads as NOP and consumes only itself; an operand running past the end of
/// memory is a decode failure, as is a `pc` already past the end.
pub open spec fn spec_decode_instr(mem: Seq<u8>, pc: int) -> Option<(Instruction, int)> {
    if !(0 <= pc < mem.len()) {
        None
    } else {
        let op = mem[pc];
        if op == 0 {
            Some((Instruction::NOP, pc + 1))
        } else if op == 1 {
            Some((Instruction::HLT, pc + 1))
        } else if op == 2 {
            if pc + 2 <= mem.len() {
                Some((Instruction::INT(mem[pc + 1] as Address), pc + 2))
            } else {
                None
            }
        } else if op == 3 {
            match spec_decode_immed(mem, pc + 1) {
                Some((v, n)) => Some((Instruction::PUSH(v), n)),
                None => None,
            }
        } else if op == 4 {
            if pc + 2 <= mem.len() {
                Some((Instruction::PUSHR(mem[pc + 1] as Register), pc + 2))
            } else {
                None
            }
        } else if op == 5 {
            if pc + 2 <= mem.len() {
                Some((Instruction::POP(mem[pc + 1] as Register), pc + 2))
            } else {
                None
            }
        } else if op == 6 {
            if pc + 2 <= mem.len() {
                match spec_decode_immed(mem, pc + 2) {
                    Some((v, n)) => Some((Instruction::LDI(mem[pc + 1] as Register, v), n)),
                    None => None,
                }
            } else {
                None
            }
        } else if op == 7 {
            if pc + 3 <= mem.len() {
                Some(
                    (Instruction::CPY(mem[pc + 1] as Register, mem[pc + 2] as Register), pc + 3),
                )
            } else {
                None
            }
        } else if op == 8 {
            if pc + 2 <= mem.len() {
                Some((Instruction::JMP(mem[pc + 1] as Address), pc + 2))
            } else {
                None
            }
        } else if op == 9 {
            if pc + 2 <= mem.len() {
                Some((Instruction::JE(mem[pc + 1] as Address), pc + 2))
            } else {
                None
            }
        } else if op == 10 {
            if pc + 2 <= mem.len() {
                Some((Instruction::JNE(mem[pc + 1] as Address), pc + 2))
            } else {
                None
            }
        } else if op == 11 {
            if pc + 2 <= mem.len() {
                Some((Instruction::JG(mem[pc + 1] as Address), pc + 2))
            } else {
                None
            }
        } else if op == 12 {
            if pc + 2 <= mem.len() {
                Some((Instruction::JL(mem[pc + 1] as Address), pc + 2))
            } else {
                None
            }
        } else if op == 13 {
            if pc + 3 <= mem.len() {
                Some(
                    (Instruction::CMP(mem[pc + 1] as Register, mem[pc + 2] as Register), pc + 3),
                )
            } else {
                None
            }
        } else if op == 14 {
            if pc + 3 <= mem.len() {
                Some(
                    (Instruction::ADD(mem[pc + 1] as Register, mem[pc + 2] as Register), pc + 3),
                )
            } else {
                None
            }
        } else if op == 15 {
            if pc + 3 <= mem.len() {
                Some(
                    (Instruction::SUB(mem[pc + 1] as Register, mem[pc + 2] as Register), pc + 3),
                )
            } else {
                None
            }
        } else if op == 16 {
            if pc + 3 <= mem.len() {
                Some(
                    (Instruction::MUL(mem[pc + 1] as Register, mem[pc + 2] as Register), pc + 3),
                )
            } else {
                None
            }
        } else if op == 17 {
            if pc + 3 <= mem.len() {
                Some(
                    (Instruction::DIV(mem[pc + 1] as Register, mem[pc + 2] as Register), pc + 3),
                )
            } else {
                None
            }
        } else if op == 18 {
            if pc + 3 <= mem.len() {
                Some(
                    (Instruction::AND(mem[pc + 1] as Register, mem[pc + 2] as Register), pc + 3),
                )
            } else {
                None
            }
        } else if op == 19 {
            if pc + 3 <= mem.len() {
                Some((Instruction::OR(mem[pc + 1] as Register, mem[pc + 2] as Register), pc + 3))
            } else {
                None
            }
        } else if op == 20 {
            if pc + 3 <= mem.len() {
                Some(
                    (Instruction::XOR(mem[pc + 1] as Register, mem[pc + 2] as Register), pc + 3),
                )
            } else {
                None
            }
        } else if op == 21 {
            if pc + 2 <= mem.len() {
                match spec_decode_immed(mem, pc + 2) {
                    Some((v, n)) => Some((Instruction::SHR(mem[pc + 1] as Register, v), n)),
                    None => None,
                }
            } else {
                None
            }
        } else if op == 22 {
            if pc + 2 <= mem.len() {
                match spec_decode_immed(mem, pc + 2) {
                    Some((v, n)) => Some((Instruction::SHL(mem[pc + 1] as Register, v), n)),
                    None => None,
                }
            } else {
                None
            }
        } else if op == 23 {
            if pc + 2 <= mem.len() {
                Some((Instruction::HSTORE(mem[pc + 1] as Address), pc + 2))
            } else {
                None
            }
        } else if op == 24 {
            if pc + 2 <= mem.len() {
                Some((Instruction::HSTORER(mem[pc + 1] as Register), pc + 2))
            } else {
                None
            }
        } else if op == 25 {
            if pc + 2 <= mem.len() {
                Some((Instruction::HLOAD(mem[pc + 1] as Address), pc + 2))
            } else {
                None
            }
        } else if op == 26 {
            if pc + 2 <= mem.len() {
                Some((Instruction::HLOADR(mem[pc + 1] as Register), pc + 2))
            } else {
                None
            }
        } else {
            Some((Instruction::NOP, pc + 1))
        }
    }
}

/// Decodes the instruction at `pc`, returning it with the index of the next
/// instruction.
pub fn decode_instr(mem: &Vec<u8>, pc: usize) -> (r: Result<(Instruction, usize), VmError>)
    ensures
        match spec_decode_instr(mem@, pc as int) {
            Some((ins, n)) => r == Ok::<(Instruction, usize), VmError>((ins, n as usize)),
            None => r == Err::<(Instruction, usize), VmError>(VmError::TruncatedCode),
        },
{
    if pc >= mem.len() {
        return Err(VmError::TruncatedCode);
    }
    let op = mem[pc];
    let remaining = mem.len() - (pc + 1);
    match op {
        0 => Ok((Instruction::NOP, pc + 1)),
        1 => Ok((Instruction::HLT, pc + 1)),
        2 => {
            if remaining >= 1 {
                Ok((Instruction::INT(mem[pc + 1] as Address), pc + 2))
            } else {
                Err(VmError::TruncatedCode)
            }
        },
        3 => {
            match decode_immed(mem, pc + 1) {
                Ok((v, n)) => Ok((Instruction::PUSH(v), n)),
                Err(e) => Err(e),
            }
        },
        4 => {
            if remaining >= 1 {
                Ok((Instruction::PUSHR(mem[pc + 1] as Register), pc + 2))
            } else {
                Err(VmError::TruncatedCode)
            }
        },
        5 => {
            if remaining >= 1 {
                Ok((Instruction::POP(mem[pc + 1] as Register), pc + 2))
            } else {
                Err(VmError::TruncatedCode)
            }
        },
        6 => {
            if remaining >= 1 {
                match decode_immed(mem, pc + 2) {
                    Ok((v, n)) => Ok((Instruction::LDI(mem[pc + 1] as Register, v), n)),
                    Err(e) => Err(e),
                }
            } else {
                Err(VmError::TruncatedCode)
            }
        },
        7 => {
            if remaining >= 2 {
                Ok((Instruction::CPY(mem[pc + 1] as Register, mem[pc + 2] as Register), pc + 3))
            } else {
                Err(VmError::TruncatedCode)
            }
        },
        8 => {
            if remaining >= 1 {
                Ok((Instruction::JMP(mem[pc + 1] as Address), pc + 2))
            } else {
                Err(VmError::TruncatedCode)
            }
        },
        9 => {
            if remaining >= 1 {
                Ok((Instruction::JE(mem[pc + 1] as Address), pc + 2))
            } else {
                Err(VmError::TruncatedCode)
            }
        },
        10 => {
            if remaining >= 1 {
                Ok((Instruction::JNE(mem[pc + 1] as Address), pc + 2))
            } else {
                Err(VmError::TruncatedCode)
            }
        },
        11 => {
            if remaining >= 1 {
                Ok((Instruction::JG(mem[pc + 1] as Address), pc + 2))
            } else {
                Err(VmError::TruncatedCode)
            }
        },
        12 => {
            if remaining >= 1 {
                Ok((Instruction::JL(mem[pc + 1] as Address), pc + 2))
            } else {
                Err(VmError::TruncatedCode)
            }
        },
        13 => {
            if remaining >= 2 {
                Ok((Instruction::CMP(mem[pc + 1] as Register, mem[pc + 2] as Register), pc + 3))
            } else {
                Err(VmError::TruncatedCode)
            }
        },
        14 => {
            if remaining >= 2 {
                Ok((Instruction::ADD(mem[pc + 1] as Register, mem[pc + 2] as Register), pc + 3))
            } else {
                Err(VmError::TruncatedCode)
            }
        },
        15 => {
            if remaining >= 2 {
                Ok((Instruction::SUB(mem[pc + 1] as Register, mem[pc + 2] as Register), pc + 3))
            } else {
                Err(VmError::TruncatedCode)
            }
        },
        16 => {
            if remaining >= 2 {
                Ok((Instruction::MUL(mem[pc + 1] as Register, mem[pc + 2] as Register), pc + 3))
            } else {
                Err(VmError::TruncatedCode)
            }
        },
        17 => {
            if remaining >= 2 {
                Ok((Instruction::DIV(mem[pc + 1] as Register, mem[pc + 2] as Register), pc + 3))
            } else {
                Err(VmError::TruncatedCode)
            }
        },
        18 => {
            if remaining >= 2 {
                Ok((Instruction::AND(mem[pc + 1] as Register, mem[pc + 2] as Register), pc + 3))
            } else {
                Err(VmError::TruncatedCode)
            }
        },
        19 => {
            if remaining >= 2 {
                Ok((Instruction::OR(mem[pc + 1] as Register, mem[pc + 2] as Register), pc + 3))
            } else {
                Err(VmError::TruncatedCode)
            }
        },
        20 => {
            if remaining >= 2 {
                Ok((Instruction::XOR(mem[pc + 1] as Register, mem[pc + 2] as Register), pc + 3))
            } else {
                Err(VmError::TruncatedCode)
            }
        },
        21 => {
            if remaining >= 1 {
                match decode_immed(mem, pc + 2) {
                    Ok((v, n)) => Ok((Instruction::SHR(mem[pc + 1] as Register, v), n)),
                    Err(e) => Err(e),
                }
            } else {
                Err(VmError::TruncatedCode)
            }
        },
        22 => {
            if remaining >= 1 {
                match decode_immed(mem, pc + 2) {
                    Ok((v, n)) => Ok((Instruction::SHL(mem[pc + 1] as Register, v), n)),
                    Err(e) => Err(e),
                }
            } else {
                Err(VmError::TruncatedCode)
            }
        },
        23 => {
            if remaining >= 1 {
                Ok((Instruction::HSTORE(mem[pc + 1] as Address), pc + 2))
            } else {
                Err(VmError::TruncatedCode)
            }
        },
        24 => {
            if remaining >= 1 {
                Ok((Instruction::HSTORER(mem[pc + 1] as Register), pc + 2))
            } else {
                Err(VmError::TruncatedCode)
            }
        },
        25 => {
            if remaining >= 1 {
                Ok((Instruction::HLOAD(mem[pc + 1] as Address), pc + 2))
            } else {
                Err(VmError::TruncatedCode)
            }
        },
        26 => {
            if remaining >= 1 {
                Ok((Instruction::HLOADR(mem[pc + 1] as Register), pc + 2))
            } else {
                Err(VmError::TruncatedCode)
            }
        },
        _ => Ok((Instruction::NOP, pc + 1)),
    }
}

/// PUSH decodes back from the bytes emitted for it — the opcode byte and
/// the immediate's encoding — wherever it stands in the stream, whatever
/// follows, and for every immediate, canonical or not.
pub proof fn lemma_push_round_trip(pre: Seq<u8>, v: Immediate, rest: Seq<u8>)
    ensures
        ({
            let enc = crate::encoding::spec_encode_immed(v);
            spec_decode_instr(pre + (seq![3u8] + enc) + rest, pre.len() as int) == Some(
                (Instruction::PUSH(v), (pre.len() + 1 + enc.len()) as int),
            )
        }),
{
    let enc = crate::encoding::spec_encode_immed(v);
    let mem = pre + (seq![3u8] + enc) + rest;
    assert(mem =~= (pre.push(3u8)) + enc + rest);
    crate::encoding::lemma_immed_round_trip_at(v, pre.push(3u8), rest);
    assert(mem[pre.len() as int] == 3u8);
}

/// LDI and the two shifts decode back from the bytes emitted for them — the
/// opcode byte, the register byte, and the immediate's encoding — wherever
/// they stand, whatever follows, and for every register byte and immediate.
pub proof fn lemma_reg_imm_round_trip(pre: Seq<u8>, code: u8, r: u8, v: Immediate, rest: Seq<u8>)
    requires
        code == 6 || code == 21 || code == 22,
    ensures
        ({
            let enc = crate::encoding::spec_encode_immed(v);
            let ins = if code == 6 {
                Instruction::LDI(r as Register, v)
            } else if code == 21 {
                Instruction::SHR(r as Register, v)
            } else {
                Instruction::SHL(r as Register, v)
            };
            spec_decode_instr(pre + (seq![code, r] + enc) + rest, pre.len() as int) == Some(
                (ins, (pre.len() + 2 + enc.len()) as int),
            )
        }),
{
    let enc = crate::encoding::spec_encode_immed(v);
    let mem = pre + (seq![code, r] + enc) + rest;
    assert(mem =~= (pre.push(code).push(r)) + enc + rest);
    crate::encoding::lemma_immed_round_trip_at(v, pre.push(code).push(r), rest);
    assert(mem[pre.len() as int] == code);
    assert(mem[pre.len() as int + 1] == r);
}

/// An opcode byte outside the table decodes to NOP and consumes only itself.
pub proof fn lemma_unknown_opcode_is_nop(mem: Seq<u8>, pc: int)
    requires
        0 <= pc < mem.len(),
        mem[pc] > 26,
    ensures
        spec_decode_instr(mem, pc) == Some((Instruction::NOP, pc + 1)),
{
}


/// Decoding an immediate consumes its tag and payload and stays inside
/// memory.
pub proof fn lemma_decode_immed_advances(mem: Seq<u8>, i: int)
    requires
        spec_decode_immed(mem, i) is Some,
    ensures
        i < spec_decode_immed(mem, i).unwrap().1 <= mem.len(),
{
}

/// Decoding an instruction consumes at least its opcode byte and stays
/// inside memory.
pub proof fn lemma_decode_instr_advances(mem: Seq<u8>, pc: int)
    requires
        spec_decode_instr(mem, pc) is Some,
    ensures
        pc < spec_decode_instr(mem, pc).unwrap().1 <= mem.len(),
{
    if 0 <= pc < mem.len() {
        let op = mem[pc];
        if op == 3 {
            lemma_decode_immed_advances(mem, pc + 1);
        } else if op == 6 || op == 21 || op == 22 {
            lemma_decode_immed_advances(mem, pc + 2);
        }
    }
}

/// The instruction sequence a byte stream decodes to, read front to back: a
/// dry run that executes nothing. The advance guard never fires — each
/// instruction consumes at least its opcode byte — and only keeps the
/// recursion well founded.
pub open spec fn spec_decode_program(mem: Seq<u8>, pc: nat) -> Result<Seq<Instruction>, VmError>
    decreases mem.len() - pc,
{
    if pc >= mem.len() {
        Ok(Seq::empty())
    } else {
        match spec_decode_instr(mem, pc as int) {
            None => Err(VmError::TruncatedCode),
            Some((ins, n)) => {
                if pc < n <= mem.len() {
                    match spec_decode_program(mem, n as nat) {
                        Ok(rest) => Ok(seq![ins] + rest),
                        Err(e) => Err(e),
                    }
                } else {
                    Err(VmError::TruncatedCode)
                }
            },
        }
    }
}

/// Decodes a whole byte stream into the instruction sequence it holds.
pub fn decode_program(mem: &Vec<u8>) -> (r: Result<Vec<Instruction>, VmError>)
    ensures
        match spec_decode_program(mem@, 0) {
            Ok(list) => r matches Ok(v) && v@ == list,
            Err(e) => r == Err::<Vec<Instruction>, VmError>(e),
        },
{
    let mut acc: Vec<Instruction> = Vec::new();
    let mut pc: usize = 0;
    loop
        invariant
            pc <= mem@.len(),
            match spec_decode_program(mem@, pc as nat) {
                Ok(rest) => spec_decode_program(mem@, 0) == Ok::<Seq<Instruction>, VmError>(
                    acc@ + rest,
                ),
                Err(e) => spec_decode_program(mem@, 0) == Err::<Seq<Instruction>, VmError>(e),
            },
        decreases mem@.len() - pc,
    {
        if pc >= mem.len() {
            proof {
                assert(acc@ + Seq::<Instruction>::empty() =~= acc@);
            }
            return Ok(acc);
        }
        match decode_instr(mem, pc) {
            Err(e) => {
                return Err(e);
            },
            Ok((ins, n)) => {
                proof {
                    lemma_decode_instr_advances(mem@, pc as int);
                    match spec_decode_program(mem@, n as nat) {
                        Ok(rest) => {
                            assert(acc@ + (seq![ins] + rest) =~= acc@.push(ins) + rest);
                        },
                        Err(_) => {},
                    }
                }
                acc.push(ins);
                pc = n;
            },
        }
    }
}

} // verus!
