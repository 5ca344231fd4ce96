//! The interpreter: a fetch-decode-execute machine over a byte stream, with
//! a value stack, a sixteen-slot register file, a heap of tagged cells and
//! two comparison flags. Work only the host can do — writing to streams,
//! touching files, ending the process, combining floats — is handed out as a
//! `HostCall`; the caller performs it and answers through `resume`.
use vstd::prelude::*;

use crate::instr::{spec_decode_instr, decode_instr, Instruction};
use crate::value::{
    arith, bitop, compare, shift, spec_arith, spec_bitop, spec_gt, spec_shift, ArithOp, ArithOut,
    BitOp, Immediate, ShiftOp, VmError,
};
use crate::{Address, Register};

verus! {

/// A piece of work only the host can perform. The machine pauses on one of
/// these; the host acts and answers with the matching `HostReply`.
#[derive(Clone, PartialEq, Eq, Debug)]
pub enum HostCall {
    /// Write the string, given as Unicode scalar values, to standard output.
    Write(Vec<u32>),
    /// Read the whole file at the path, given as scalar values, as text.
    ReadFile(Vec<u32>),
    /// Create or truncate the file at `path` and write `data` to it.
    WriteFile { path: Vec<u32>, data: Vec<u32> },
    /// Write the panic banner and the message to standard error and end the
    /// process with status one. The machine accepts no reply to this call.
    Panic(Vec<u32>),
    /// Combine the two float bit patterns with the arithmetic operation;
    /// `wide` picks the 64-bit format over the 32-bit one.
    FloatBin { op: ArithOp, wide: bool, lhs: u64, rhs: u64 },
}

/// The mathematical shape of a host call.
pub enum HostCallView {
    Write(Seq<u32>),
    ReadFile(Seq<u32>),
    WriteFile { path: Seq<u32>, data: Seq<u32> },
    Panic(Seq<u32>),
    FloatBin { op: ArithOp, wide: bool, lhs: u64, rhs: u64 },
}

impl View for HostCall {
    type V = HostCallView;

    open spec fn view(&self) -> HostCallView {
        match self {
            HostCall::Write(s) => HostCallView::Write(s@),
            HostCall::ReadFile(s) => HostCallView::ReadFile(s@),
            HostCall::WriteFile { path, data } => HostCallView::WriteFile {
                path: path@,
                data: data@,
            },
            HostCall::Panic(s) => HostCallView::Panic(s@),
            HostCall::FloatBin { op, wide, lhs, rhs } => HostCallView::FloatBin {
                op: *op,
                wide: *wide,
                lhs: *lhs,
                rhs: *rhs,
            },
        }
    }
}

/// The host's answer to the pending call.
#[derive(Clone, PartialEq, Eq, Debug)]
pub enum HostReply {
    /// The output was written.
    WriteDone,
    /// The file's text as scalar values, or nothing if reading failed.
    FileData(Option<Vec<u32>>),
    /// Whether writing the file succeeded.
    FileWritten(bool),
    /// The bit pattern of the float the host computed.
    FloatResult(u64),
}

/// The mathematical shape of a host reply.
pub enum HostReplyView {
    WriteDone,
    FileData(Option<Seq<u32>>),
    FileWritten(bool),
    FloatResult(u64),
}

impl View for HostReply {
    type V = HostReplyView;

    open spec fn view(&self) -> HostReplyView {
        match self {
            HostReply::WriteDone => HostReplyView::WriteDone,
            HostReply::FileData(opt) => HostReplyView::FileData(
                match opt {
                    Some(v) => Some(v@),
                    None => None,
                },
            ),
            HostReply::FileWritten(ok) => HostReplyView::FileWritten(*ok),
            HostReply::FloatResult(bits) => HostReplyView::FloatResult(*bits),
        }
    }
}

/// What one call of `exec` came back with.
#[derive(Clone, PartialEq, Eq, Debug)]
pub enum Outcome {
    /// The program halted or ran off the end of instruction memory.
    Done,
    /// A fault ended the program.
    Fatal(VmError),
    /// The machine waits for the host to perform this call and `resume`.
    Host(HostCall),
    /// The step budget ran out with the program still going; call `exec`
    /// again to continue.
    OutOfSteps,
}

/// The machine's whole state, as the contracts speak of it.
#[verifier::ext_equal]
pub struct VmView {
    /// Index of the next instruction in `mem`.
    pub pc: nat,
    /// Instruction memory, immutable after construction.
    pub mem: Seq<u8>,
    /// The heap of tagged cells.
    pub heap: Seq<Immediate>,
    /// The value stack, its top at the end.
    pub stack: Seq<Immediate>,
    /// The sixteen-slot register file.
    pub regs: Seq<Immediate>,
    /// The equality flag, set only by CMP.
    pub eq_flag: bool,
    /// The greater-than flag, set only by CMP.
    pub gt_flag: bool,
    /// The execution latch: set by `exec`, cleared when the program ends.
    pub exe: bool,
    /// Whether `exec` has ever been entered.
    pub started: bool,
    /// The host call the machine waits on, if any.
    pub pending: Option<HostCallView>,
    /// The fault that ended the program, if any.
    pub fault: Option<VmError>,
}

impl VmView {
    /// Structural soundness: the register file keeps its sixteen slots, a
    /// faulted machine no longer runs, a waiting machine still does, and a
    /// machine never entered is at rest.
    pub open spec fn wf(self) -> bool {
        &&& self.regs.len() == 16
        &&& (self.fault is Some ==> !self.exe)
        &&& (self.pending is Some ==> self.exe)
        &&& (!self.started ==> !self.exe && self.pending is None && self.fault is None)
    }

    /// The same state, stopped by the given fault. A fault never applies the
    /// faulting instruction's effects: the state is as it stood before it.
    pub open spec fn with_fault(self, e: VmError) -> VmView {
        VmView { exe: false, fault: Some(e), ..self }
    }

    /// The machine can take another step: it runs, waits on no host call and
    /// has not faulted.
    pub open spec fn runnable(self) -> bool {
        self.exe && self.pending is None && self.fault is None
    }
}

/// The register+stack machine. Construct it over a byte stream with `new`,
/// then drive it with `exec` and `resume`.
pub struct VirtualMachine {
    instr_ptr: usize,
    instr_mem: Vec<u8>,
    virt_mem: Vec<Immediate>,
    stack: Vec<Immediate>,
    reg: Vec<Immediate>,
    flag_eq: bool,
    flag_gt: bool,
    is_exe: bool,
    started: bool,
    pending: Option<HostCall>,
    fault: Option<VmError>,
}

impl View for VirtualMachine {
    type V = VmView;

    closed spec fn view(&self) -> VmView {
        VmView {
            pc: self.instr_ptr as nat,
            mem: self.instr_mem@,
            heap: self.virt_mem@,
            stack: self.stack@,
            regs: self.reg@,
            eq_flag: self.flag_eq,
            gt_flag: self.flag_gt,
            exe: self.is_exe,
            started: self.started,
            pending: match &self.pending {
                Some(h) => Some(h@),
                None => None,
            },
            fault: self.fault,
        }
    }
}

/// True of a value the bytecode may use as a Unicode scalar: everything below
/// the surrogate range, and everything from its end up to the last code point.
pub open spec fn spec_valid_scalar(c: u32) -> bool {
    c < 0xD800 || (0xE000 <= c && c <= 0x10FFFF)
}

/// Walks heap cells from `i`, collecting `U32` payloads until a cell equal to
/// `U32(0)`. A cell of any other variant is a type fault, a payload that is
/// no Unicode scalar value an encoding fault, and running off the heap a
/// bounds fault.
pub open spec fn spec_read_heap_string(heap: Seq<Immediate>, i: nat) -> Result<Seq<u32>, VmError>
    decreases heap.len() - i,
{
    if i >= heap.len() {
        Err(VmError::HeapOutOfBounds)
    } else {
        match heap[i as int] {
            Immediate::U32(c) => if c == 0 {
                Ok(Seq::empty())
            } else if spec_valid_scalar(c) {
                match spec_read_heap_string(heap, i + 1) {
                    Ok(rest) => Ok(seq![c] + rest),
                    Err(e) => Err(e),
                }
            } else {
                Err(VmError::InvalidScalar)
            },
            _ => Err(VmError::TypeMismatch),
        }
    }
}

/// Reads the NUL-terminated scalar string starting at heap cell `start`.
pub fn read_heap_string(heap: &Vec<Immediate>, start: usize) -> (r: Result<Vec<u32>, VmError>)
    ensures
        match spec_read_heap_string(heap@, start as nat) {
            Ok(s) => r matches Ok(v) && v@ == s,
            Err(e) => r == Err::<Vec<u32>, VmError>(e),
        },
{
    let mut acc: Vec<u32> = Vec::new();
    let mut i = start;
    loop
        invariant
            start <= i,
            match spec_read_heap_string(heap@, i as nat) {
                Ok(rest) => spec_read_heap_string(heap@, start as nat) == Ok::<Seq<u32>, VmError>(
                    acc@ + rest,
                ),
                Err(e) => spec_read_heap_string(heap@, start as nat) == Err::<Seq<u32>, VmError>(
                    e,
                ),
            },
        decreases heap@.len() - i,
    {
        if i >= heap.len() {
            return Err(VmError::HeapOutOfBounds);
        }
        match heap[i] {
            Immediate::U32(c) => {
                if c == 0 {
                    proof {
                        assert(acc@ + Seq::<u32>::empty() =~= acc@);
                    }
                    return Ok(acc);
                } else if c < 0xD800 || (0xE000 <= c && c <= 0x10FFFF) {
                    proof {
                        match spec_read_heap_string(heap@, (i + 1) as nat) {
                            Ok(rest) => {
                                assert(acc@ + (seq![c] + rest) =~= acc@.push(c) + rest);
                            },
                            Err(_) => {},
                        }
                    }
                    acc.push(c);
                    i = i + 1;
                } else {
                    return Err(VmError::InvalidScalar);
                }
            },
            _ => {
                return Err(VmError::TypeMismatch);
            },
        }
    }
}

/// The allocator's scan: walks the heap from `i` carrying the length `run` of
/// the streak of absent cells ending just before `i`, and yields the address
/// the scan settles on — one past the streak's start for an empty request,
/// the streak's start otherwise — or nothing when no streak of `n` absent
/// cells exists.
pub open spec fn spec_alloc_scan(heap: Seq<Immediate>, i: nat, run: nat, n: nat) -> Option<nat>
    decreases heap.len() - i,
{
    if i >= heap.len() {
        None
    } else if heap[i as int] is Absent {
        if run + 1 >= n {
            Some((i + 1 - n) as nat)
        } else {
            spec_alloc_scan(heap, i + 1, run + 1, n)
        }
    } else {
        spec_alloc_scan(heap, i + 1, 0, n)
    }
}

/// Wherever the allocator's scan settles, the requested cells fit: the
/// address it returns leaves room for `n` cells inside the heap.
pub proof fn lemma_alloc_scan_bounds(heap: Seq<Immediate>, i: nat, run: nat, n: nat)
    requires
        run <= i,
    ensures
        match spec_alloc_scan(heap, i, run, n) {
            Some(p) => p + n <= heap.len(),
            None => true,
        },
    decreases heap.len() - i,
{
    if i >= heap.len() {
    } else if heap[i as int] is Absent {
        if run + 1 >= n {
        } else {
            lemma_alloc_scan_bounds(heap, i + 1, run + 1, n);
        }
    } else {
        lemma_alloc_scan_bounds(heap, i + 1, 0, n);
    }
}

/// The heap with cells `p .. p + n` overwritten by `U8(0)`.
pub open spec fn spec_zeroed(heap: Seq<Immediate>, p: nat, n: nat) -> Seq<Immediate> {
    Seq::new(heap.len(), |j: int| if p <= j < p + n { Immediate::U8(0u8) } else { heap[j] })
}

/// `n` zeroed cells, as appended by the allocator's growth path.
pub open spec fn spec_zero_cells(n: nat) -> Seq<Immediate> {
    Seq::new(n, |j: int| Immediate::U8(0u8))
}

/// The allocator: finds the first streak of `n` absent cells, zeroes it and
/// returns its address; failing that, appends `n` zeroed cells and returns
/// one less than the old length, overlapping the last pre-existing cell —
/// the growth path's historic accounting, which programs that store the
/// returned pointer rely on. Growing an empty heap has no last cell and
/// faults.
pub open spec fn spec_heap_alloc(heap: Seq<Immediate>, n: nat) -> Result<
    (Seq<Immediate>, nat),
    VmError,
> {
    match spec_alloc_scan(heap, 0, 0, n) {
        Some(p) => Ok((spec_zeroed(heap, p, n), p)),
        None => if heap.len() == 0 {
            Err(VmError::EmptyHeap)
        } else {
            Ok((heap + spec_zero_cells(n), (heap.len() - 1) as nat))
        },
    }
}

/// Runs the allocator's scan over the heap, returning the address it settles
/// on, which always leaves room for `n` cells up to the heap's end.
fn find_streak(heap: &Vec<Immediate>, n: usize) -> (found: Option<usize>)
    ensures
        match spec_alloc_scan(heap@, 0, 0, n as nat) {
            Some(p) => found matches Some(q) && q == p && p + n <= heap@.len(),
            None => found is None,
        },
{
    let mut i: usize = 0;
    let mut run: usize = 0;
    while i < heap.len()
        invariant
            i <= heap@.len(),
            run <= i,
            spec_alloc_scan(heap@, 0, 0, n as nat) == spec_alloc_scan(
                heap@,
                i as nat,
                run as nat,
                n as nat,
            ),
        decreases heap@.len() - i,
    {
        let absent = match heap[i] {
            Immediate::Absent => true,
            _ => false,
        };
        if absent {
            run = run + 1;
            if run >= n {
                return Some(i + 1 - n);
            }
            i = i + 1;
        } else {
            run = 0;
            i = i + 1;
        }
    }
    None
}

/// Serves the allocation interrupt on the heap: `n` cells, first fit, with
/// growth at the end as fallback.
pub fn heap_alloc(heap: &mut Vec<Immediate>, n: usize) -> (r: Result<usize, VmError>)
    ensures
        match spec_heap_alloc(old(heap)@, n as nat) {
            Ok((h2, p)) => r == Ok::<usize, VmError>(p as usize) && final(heap)@ == h2,
            Err(e) => r == Err::<usize, VmError>(e) && final(heap)@ == old(heap)@,
        },
{
    let ghost orig = heap@;
    let found = find_streak(heap, n);
    match found {
        Some(p) => {
            let heap_words = heap.len();
            proof {
                assert(p + n <= heap_words);
            }
            let end = p + n;
            let mut j = p;
            while j < end
                invariant
                    end == p + n,
                    p + n <= heap@.len(),
                    p <= j <= p + n,
                    heap@.len() == orig.len(),
                    forall|k: int|
                        0 <= k < heap@.len() ==> heap@[k] == (if p <= k < j {
                            Immediate::U8(0u8)
                        } else {
                            orig[k]
                        }),
                decreases p + n - j,
            {
                heap.set(j, Immediate::U8(0));
                j = j + 1;
            }
            proof {
                assert(heap@ =~= spec_zeroed(orig, p as nat, n as nat));
            }
            Ok(p)
        },
        None => {
            if heap.len() == 0 {
                return Err(VmError::EmptyHeap);
            }
            let p = heap.len() - 1;
            let mut added: usize = 0;
            while added < n
                invariant
                    added <= n,
                    heap@ == orig + spec_zero_cells(added as nat),
                decreases n - added,
            {
                heap.push(Immediate::U8(0));
                added = added + 1;
                proof {
                    assert(heap@ =~= orig + spec_zero_cells(added as nat));
                }
            }
            Ok(p)
        },
    }
}

/// The effect of an arithmetic instruction on state `s`: push the value, or
/// pause on the host's float unit, or fault. `next` is the address of the
/// following instruction.
pub open spec fn spec_arith_instr(
    s: VmView,
    next: nat,
    op: ArithOp,
    a: Register,
    b: Register,
) -> VmView {
    if a >= 16 || b >= 16 {
        s.with_fault(VmError::RegisterOutOfBounds)
    } else {
        match spec_arith(op, s.regs[a as int], s.regs[b as int]) {
            Ok(ArithOut::Value(v)) => VmView { pc: next, stack: s.stack.push(v), ..s },
            Ok(ArithOut::FloatPending { wide, lhs, rhs }) => VmView {
                pc: next,
                pending: Some(HostCallView::FloatBin { op, wide, lhs, rhs }),
                ..s
            },
            Err(e) => s.with_fault(e),
        }
    }
}

/// The effect of a bitwise instruction on state `s`.
pub open spec fn spec_bit_instr(
    s: VmView,
    next: nat,
    op: BitOp,
    a: Register,
    b: Register,
) -> VmView {
    if a >= 16 || b >= 16 {
        s.with_fault(VmError::RegisterOutOfBounds)
    } else {
        match spec_bitop(op, s.regs[a as int], s.regs[b as int]) {
            Ok(v) => VmView { pc: next, stack: s.stack.push(v), ..s },
            Err(e) => s.with_fault(e),
        }
    }
}

/// The effect of a shift instruction on state `s`: the register is shifted
/// by the inline immediate and the result pushed.
pub open spec fn spec_shift_instr(
    s: VmView,
    next: nat,
    op: ShiftOp,
    r: Register,
    imm: Immediate,
) -> VmView {
    if r >= 16 {
        s.with_fault(VmError::RegisterOutOfBounds)
    } else {
        match spec_shift(op, s.regs[r as int], imm) {
            Ok(v) => VmView { pc: next, stack: s.stack.push(v), ..s },
            Err(e) => s.with_fault(e),
        }
    }
}

/// A taken jump: the byte names the target outright, and the address-zero
/// gap of the pre-decrement convention is a fault.
pub open spec fn spec_jump(s: VmView, a: Address) -> VmView {
    if a == 0 {
        s.with_fault(VmError::JumpToZero)
    } else {
        VmView { pc: a as nat, ..s }
    }
}

/// The effect of `INT i` on state `s`. Arguments an interrupt has already
/// popped stay popped when it faults.
#[verifier::opaque]
pub open spec fn spec_interrupt(s: VmView, i: Address, next: nat) -> VmView {
    if i > 4 {
        s.with_fault(VmError::UnknownInterrupt)
    } else if s.stack.len() == 0 {
        s.with_fault(VmError::EmptyStack)
    } else {
        let top = s.stack.last();
        let s1 = VmView { stack: s.stack.drop_last(), ..s };
        if !top.is_address_kind() {
            s1.with_fault(VmError::TypeMismatch)
        } else {
            let addr = top.spec_address();
            if i == 0 {
                match spec_read_heap_string(s.heap, addr) {
                    Ok(msg) => VmView {
                        pc: next,
                        pending: Some(HostCallView::Write(msg)),
                        ..s1
                    },
                    Err(e) => s1.with_fault(e),
                }
            } else if i == 1 {
                if addr > usize::MAX {
                    s1.with_fault(VmError::HeapOutOfBounds)
                } else {
                    match spec_heap_alloc(s.heap, addr) {
                        Ok((h2, p)) => VmView {
                            pc: next,
                            heap: h2,
                            stack: s1.stack.push(Immediate::U64(p as u64)),
                            ..s1
                        },
                        Err(e) => s1.with_fault(e),
                    }
                }
            } else if i == 2 {
                match spec_read_heap_string(s.heap, addr) {
                    Ok(path) => VmView {
                        pc: next,
                        pending: Some(HostCallView::ReadFile(path)),
                        ..s1
                    },
                    Err(e) => s1.with_fault(e),
                }
            } else if i == 3 {
                match spec_read_heap_string(s.heap, addr) {
                    Ok(data) => if s1.stack.len() == 0 {
                        s1.with_fault(VmError::EmptyStack)
                    } else {
                        let top2 = s1.stack.last();
                        let s2 = VmView { stack: s1.stack.drop_last(), ..s1 };
                        if !top2.is_address_kind() {
                            s2.with_fault(VmError::TypeMismatch)
                        } else {
                            match spec_read_heap_string(s.heap, top2.spec_address()) {
                                Ok(path) => VmView {
                                    pc: next,
                                    pending: Some(HostCallView::WriteFile { path, data }),
                                    ..s2
                                },
                                Err(e) => s2.with_fault(e),
                            }
                        }
                    },
                    Err(e) => s1.with_fault(e),
                }
            } else {
                match spec_read_heap_string(s.heap, addr) {
                    Ok(msg) => VmView {
                        pc: next,
                        pending: Some(HostCallView::Panic(msg)),
                        ..s1
                    },
                    Err(e) => s1.with_fault(e),
                }
            }
        }
    }
}

/// The effect of one decoded instruction on state `s`, with `next` the
/// address of the following instruction. A fault stops the machine with the
/// program counter still on the faulting instruction; stack arguments the
/// instruction popped before faulting stay popped.
#[verifier::opaque]
pub open spec fn spec_execute(s: VmView, ins: Instruction, next: nat) -> VmView {
    match ins {
        Instruction::NOP => VmView { pc: next, ..s },
        Instruction::HLT => VmView { pc: next, exe: false, ..s },
        Instruction::INT(i) => spec_interrupt(s, i, next),
        Instruction::PUSH(v) => VmView { pc: next, stack: s.stack.push(v), ..s },
        Instruction::PUSHR(r) => if r >= 16 {
            s.with_fault(VmError::RegisterOutOfBounds)
        } else {
            VmView { pc: next, stack: s.stack.push(s.regs[r as int]), ..s }
        },
        Instruction::POP(r) => if s.stack.len() == 0 {
            s.with_fault(VmError::EmptyStack)
        } else {
            let top = s.stack.last();
            let s1 = VmView { stack: s.stack.drop_last(), ..s };
            if r >= 16 {
                s1.with_fault(VmError::RegisterOutOfBounds)
            } else {
                VmView { pc: next, regs: s1.regs.update(r as int, top), ..s1 }
            }
        },
        Instruction::LDI(r, v) => if r >= 16 {
            s.with_fault(VmError::RegisterOutOfBounds)
        } else {
            VmView { pc: next, regs: s.regs.update(r as int, v), ..s }
        },
        Instruction::CPY(a, b) => if a >= 16 || b >= 16 {
            s.with_fault(VmError::RegisterOutOfBounds)
        } else {
            VmView { pc: next, regs: s.regs.update(b as int, s.regs[a as int]), ..s }
        },
        Instruction::JMP(a) => spec_jump(s, a),
        Instruction::JE(a) => if s.eq_flag {
            spec_jump(s, a)
        } else {
            VmView { pc: next, ..s }
        },
        Instruction::JNE(a) => if !s.eq_flag {
            spec_jump(s, a)
        } else {
            VmView { pc: next, ..s }
        },
        Instruction::JG(a) => if s.gt_flag {
            spec_jump(s, a)
        } else {
            VmView { pc: next, ..s }
        },
        Instruction::JL(a) => if !s.gt_flag {
            spec_jump(s, a)
        } else {
            VmView { pc: next, ..s }
        },
        Instruction::CMP(a, b) => if a >= 16 || b >= 16 {
            s.with_fault(VmError::RegisterOutOfBounds)
        } else {
            let va = s.regs[a as int];
            let vb = s.regs[b as int];
            if !va.same_variant(vb) {
                s.with_fault(VmError::TypeMismatch)
            } else {
                VmView { pc: next, eq_flag: va == vb, gt_flag: spec_gt(va, vb), ..s }
            }
        },
        Instruction::ADD(a, b) => spec_arith_instr(s, next, ArithOp::Add, a, b),
        Instruction::SUB(a, b) => spec_arith_instr(s, next, ArithOp::Sub, a, b),
        Instruction::MUL(a, b) => spec_arith_instr(s, next, ArithOp::Mul, a, b),
        Instruction::DIV(a, b) => spec_arith_instr(s, next, ArithOp::Div, a, b),
        Instruction::AND(a, b) => spec_bit_instr(s, next, BitOp::And, a, b),
        Instruction::OR(a, b) => spec_bit_instr(s, next, BitOp::Or, a, b),
        Instruction::XOR(a, b) => spec_bit_instr(s, next, BitOp::Xor, a, b),
        Instruction::SHR(r, imm) => spec_shift_instr(s, next, ShiftOp::Shr, r, imm),
        Instruction::SHL(r, imm) => spec_shift_instr(s, next, ShiftOp::Shl, r, imm),
        Instruction::HSTORE(addr) => if s.stack.len() == 0 {
            s.with_fault(VmError::EmptyStack)
        } else {
            let top = s.stack.last();
            let s1 = VmView { stack: s.stack.drop_last(), ..s };
            if addr >= s.heap.len() {
                s1.with_fault(VmError::HeapOutOfBounds)
            } else {
                VmView { pc: next, heap: s1.heap.update(addr as int, top), ..s1 }
            }
        },
        Instruction::HSTORER(r) => if s.stack.len() == 0 {
            s.with_fault(VmError::EmptyStack)
        } else {
            let top = s.stack.last();
            let s1 = VmView { stack: s.stack.drop_last(), ..s };
            if r >= 16 {
                s1.with_fault(VmError::RegisterOutOfBounds)
            } else if !s1.regs[r as int].is_address_kind() {
                s1.with_fault(VmError::TypeMismatch)
            } else {
                let addr = s1.regs[r as int].spec_address();
                if addr >= s1.heap.len() {
                    s1.with_fault(VmError::HeapOutOfBounds)
                } else {
                    VmView { pc: next, heap: s1.heap.update(addr as int, top), ..s1 }
                }
            }
        },
        Instruction::HLOAD(addr) => if addr >= s.heap.len() {
            s.with_fault(VmError::HeapOutOfBounds)
        } else {
            VmView { pc: next, stack: s.stack.push(s.heap[addr as int]), ..s }
        },
        Instruction::HLOADR(r) => if r >= 16 {
            s.with_fault(VmError::RegisterOutOfBounds)
        } else if !s.regs[r as int].is_address_kind() {
            s.with_fault(VmError::TypeMismatch)
        } else {
            let addr = s.regs[r as int].spec_address();
            if addr >= s.heap.len() {
                s.with_fault(VmError::HeapOutOfBounds)
            } else {
                VmView { pc: next, stack: s.stack.push(s.heap[addr as int]), ..s }
            }
        },
    }
}

/// One step of the machine: stop quietly at the end of instruction memory,
/// else decode and execute the instruction under the program counter.
pub open spec fn spec_step(s: VmView) -> VmView {
    if s.pc >= s.mem.len() {
        VmView { exe: false, ..s }
    } else {
        match spec_decode_instr(s.mem, s.pc as int) {
            None => s.with_fault(VmError::TruncatedCode),
            Some((ins, n)) => spec_execute(s, ins, n as nat),
        }
    }
}

/// Entering `exec` for the first time marks the machine started and raises
/// the execution latch; later entries change nothing.
pub open spec fn spec_launch(s: VmView) -> VmView {
    if !s.started {
        VmView { started: true, exe: true, ..s }
    } else {
        s
    }
}

/// `n` steps of the machine from `s`; a stopped machine stays as it is.
pub open spec fn spec_run(s: VmView, n: nat) -> VmView
    decreases n,
{
    if n == 0 {
        s
    } else {
        let prev = spec_run(s, (n - 1) as nat);
        if prev.runnable() {
            spec_step(prev)
        } else {
            prev
        }
    }
}

/// An arithmetic instruction leaves the machine well formed and keeps its
/// `started` mark.
#[verifier::spinoff_prover]
pub proof fn lemma_arith_instr_wf(s: VmView, next: nat, op: ArithOp, a: Register, b: Register)
    requires
        s.wf(),
        s.runnable(),
    ensures
        spec_arith_instr(s, next, op, a, b).wf(),
        spec_arith_instr(s, next, op, a, b).started == s.started,
{
}

/// A bitwise instruction leaves the machine well formed and keeps its
/// `started` mark.
#[verifier::spinoff_prover]
pub proof fn lemma_bit_instr_wf(s: VmView, next: nat, op: BitOp, a: Register, b: Register)
    requires
        s.wf(),
        s.runnable(),
    ensures
        spec_bit_instr(s, next, op, a, b).wf(),
        spec_bit_instr(s, next, op, a, b).started == s.started,
{
}

/// A shift instruction leaves the machine well formed and keeps its
/// `started` mark.
#[verifier::spinoff_prover]
pub proof fn lemma_shift_instr_wf(s: VmView, next: nat, op: ShiftOp, r: Register, imm: Immediate)
    requires
        s.wf(),
        s.runnable(),
    ensures
        spec_shift_instr(s, next, op, r, imm).wf(),
        spec_shift_instr(s, next, op, r, imm).started == s.started,
{
}

/// An interrupt leaves the machine well formed and keeps its `started` mark.
#[verifier::rlimit(100)]
#[verifier::spinoff_prover]
pub proof fn lemma_interrupt_preserves_wf(s: VmView, i: Address, next: nat)
    requires
        s.wf(),
        s.runnable(),
    ensures
        spec_interrupt(s, i, next).wf(),
        spec_interrupt(s, i, next).started == s.started,
{
    reveal(spec_interrupt);
}

/// One instruction leaves the machine well formed and keeps its `started`
/// mark.
#[verifier::rlimit(100)]
#[verifier::spinoff_prover]
pub proof fn lemma_execute_preserves_wf(s: VmView, ins: Instruction, next: nat)
    requires
        s.wf(),
        s.runnable(),
    ensures
        spec_execute(s, ins, next).wf(),
        spec_execute(s, ins, next).started == s.started,
{
    reveal(spec_execute);
    match ins {
        Instruction::INT(i) => {
            lemma_interrupt_preserves_wf(s, i, next);
        },
        Instruction::ADD(a, b) => {
            lemma_arith_instr_wf(s, next, ArithOp::Add, a, b);
        },
        Instruction::SUB(a, b) => {
            lemma_arith_instr_wf(s, next, ArithOp::Sub, a, b);
        },
        Instruction::MUL(a, b) => {
            lemma_arith_instr_wf(s, next, ArithOp::Mul, a, b);
        },
        Instruction::DIV(a, b) => {
            lemma_arith_instr_wf(s, next, ArithOp::Div, a, b);
        },
        Instruction::AND(a, b) => {
            lemma_bit_instr_wf(s, next, BitOp::And, a, b);
        },
        Instruction::OR(a, b) => {
            lemma_bit_instr_wf(s, next, BitOp::Or, a, b);
        },
        Instruction::XOR(a, b) => {
            lemma_bit_instr_wf(s, next, BitOp::Xor, a, b);
        },
        Instruction::SHR(r, imm) => {
            lemma_shift_instr_wf(s, next, ShiftOp::Shr, r, imm);
        },
        Instruction::SHL(r, imm) => {
            lemma_shift_instr_wf(s, next, ShiftOp::Shl, r, imm);
        },
        _ => {},
    }
}

/// The register file keeps exactly its sixteen slots through every step the
/// machine can take.
pub proof fn lemma_register_file_fixed(s: VmView)
    requires
        s.wf(),
        s.runnable(),
    ensures
        spec_step(s).regs.len() == 16,
{
    lemma_step_preserves_wf(s);
}

/// One step leaves the machine well formed and keeps its `started` mark.
pub proof fn lemma_step_preserves_wf(s: VmView)
    requires
        s.wf(),
        s.runnable(),
    ensures
        spec_step(s).wf(),
        spec_step(s).started == s.started,
{
    if s.pc >= s.mem.len() {
    } else {
        match spec_decode_instr(s.mem, s.pc as int) {
            None => {},
            Some((ins, n)) => {
                lemma_execute_preserves_wf(s, ins, n as nat);
            },
        }
    }
}

/// A PUSH of an immediate followed at once by a POP into register `r` loads
/// exactly that immediate into `r` and leaves the stack's depth and contents
/// as they were.
pub proof fn lemma_push_then_pop(s: VmView, imm: Immediate, r: Register, n1: nat, n2: nat)
    requires
        s.wf(),
        s.runnable(),
        r < 16,
        spec_decode_instr(s.mem, s.pc as int) == Some((Instruction::PUSH(imm), n1 as int)),
        spec_decode_instr(s.mem, n1 as int) == Some((Instruction::POP(r), n2 as int)),
    ensures
        spec_step(spec_step(s)).regs == s.regs.update(r as int, imm),
        spec_step(spec_step(s)).regs[r as int] == imm,
        spec_step(spec_step(s)).stack == s.stack,
        spec_step(spec_step(s)).heap == s.heap,
        spec_step(spec_step(s)).pc == n2,
        spec_step(spec_step(s)).runnable(),
{
    reveal(spec_execute);
    let s1 = spec_step(s);
    assert(s1.stack == s.stack.push(imm));
    assert(s.stack.push(imm).len() > 0);
    assert(s.stack.push(imm).last() == imm);
    assert(s.stack.push(imm).drop_last() =~= s.stack);
}

/// After LDI loads an address-kind immediate into register `r`, a PUSH of
/// `v` followed by HSTORER through `r` writes `v` into the heap cell that
/// the immediate names, and leaves the stack as it was.
#[verifier::rlimit(100)]
#[verifier::spinoff_prover]
pub proof fn lemma_ldi_push_hstorer(
    s: VmView,
    r: Register,
    imm: Immediate,
    v: Immediate,
    n1: nat,
    n2: nat,
    n3: nat,
)
    requires
        s.wf(),
        s.runnable(),
        r < 16,
        imm.is_address_kind(),
        imm.spec_address() < s.heap.len(),
        spec_decode_instr(s.mem, s.pc as int) == Some((Instruction::LDI(r, imm), n1 as int)),
        spec_decode_instr(s.mem, n1 as int) == Some((Instruction::PUSH(v), n2 as int)),
        spec_decode_instr(s.mem, n2 as int) == Some((Instruction::HSTORER(r), n3 as int)),
    ensures
        spec_run(s, 3).heap == s.heap.update(imm.spec_address() as int, v),
        spec_run(s, 3).stack == s.stack,
        spec_run(s, 3).regs == s.regs.update(r as int, imm),
        spec_run(s, 3).pc == n3,
        spec_run(s, 3).runnable(),
{
    reveal(spec_execute);
    let s1 = spec_step(s);
    assert(s1.regs == s.regs.update(r as int, imm));
    assert(s1.regs[r as int] == imm);
    let s2 = spec_step(s1);
    assert(s2.stack == s.stack.push(v));
    let s3 = spec_step(s2);
    assert(s.stack.push(v).drop_last() =~= s.stack);
    assert(s1.runnable());
    assert(s2.runnable());
    assert(spec_run(s, 0) == s);
    assert(spec_run(s, 1) == s1);
    assert(spec_run(s, 2) == s2);
    assert(spec_run(s, 3) == s3);
}

/// The pre-decrement convention shuts address zero out: a JMP whose byte
/// holds zero faults, and one whose byte holds anything else lands exactly
/// there — so no taken jump ever puts the program counter on zero.
pub proof fn lemma_jump_zero_unreachable(s: VmView, a: Address, n1: nat)
    requires
        s.wf(),
        s.runnable(),
        spec_decode_instr(s.mem, s.pc as int) == Some((Instruction::JMP(a), n1 as int)),
    ensures
        a == 0 ==> spec_step(s).fault == Some(VmError::JumpToZero),
        a != 0 ==> spec_step(s).fault is None && spec_step(s).pc == a && spec_step(s).pc != 0,
{
    reveal(spec_execute);
}

/// The heap with the scalar string written at `p`: the characters in order,
/// then the `U32(0)` terminator one past them.
pub open spec fn spec_write_string(h: Seq<Immediate>, p: nat, chars: Seq<u32>) -> Seq<
    Immediate,
> {
    Seq::new(
        h.len(),
        |j: int|
            if p <= j < p + chars.len() {
                Immediate::U32(chars[j - p])
            } else if j == p + chars.len() {
                Immediate::U32(0u32)
            } else {
                h[j]
            },
    )
}

/// What answering a file read with the file's characters does: allocate a
/// buffer of their count, copy them in as `U32` cells, terminate with
/// `U32(0)`, and push the buffer's address under a success marker. The
/// terminator lands one cell past the allocation, so a buffer ending flush
/// with the heap's last cell is a bounds fault.
pub open spec fn spec_finish_read(s: VmView, chars: Seq<u32>) -> VmView {
    let n = chars.len();
    match spec_heap_alloc(s.heap, n) {
        Err(e) => VmView { pending: None, ..s }.with_fault(e),
        Ok((h1, p)) => if p + n >= h1.len() {
            VmView { pending: None, heap: h1, ..s }.with_fault(VmError::HeapOutOfBounds)
        } else {
            VmView {
                pending: None,
                heap: spec_write_string(h1, p, chars),
                stack: s.stack.push(Immediate::U64(p as u64)).push(Immediate::U8(1u8)),
                ..s
            }
        },
    }
}

/// The machine's reaction to a host reply: the matching answer to the
/// pending call applies its effect and clears the call; anything else —
/// including any answer to a panic, which takes none — is refused untouched.
pub open spec fn spec_resume(s: VmView, rep: HostReplyView) -> (VmView, bool) {
    match (s.pending, rep) {
        (Some(HostCallView::Write(_)), HostReplyView::WriteDone) => (
            VmView { pending: None, ..s },
            true,
        ),
        (Some(HostCallView::ReadFile(_)), HostReplyView::FileData(opt)) => match opt {
            None => (
                VmView {
                    pending: None,
                    stack: s.stack.push(Immediate::U64(0u64)).push(Immediate::U8(0u8)),
                    ..s
                },
                true,
            ),
            Some(chars) => (spec_finish_read(s, chars), true),
        },
        (Some(HostCallView::WriteFile { .. }), HostReplyView::FileWritten(ok)) => (
            VmView {
                pending: None,
                stack: s.stack.push(Immediate::U8(if ok {
                    1u8
                } else {
                    0u8
                })),
                ..s
            },
            true,
        ),
        (Some(HostCallView::FloatBin { wide, .. }), HostReplyView::FloatResult(bits)) => (
            VmView {
                pending: None,
                stack: s.stack.push(
                    if wide {
                        Immediate::F64(bits)
                    } else {
                        Immediate::F32(bits as u32)
                    },
                ),
                ..s
            },
            true,
        ),
        _ => (s, false),
    }
}

/// Writes the scalar string into existing heap cells at `p`, terminator
/// included.
fn write_scalar_string(heap: &mut Vec<Immediate>, p: usize, chars: &Vec<u32>)
    requires
        p + chars@.len() < old(heap)@.len(),
    ensures
        final(heap)@ == spec_write_string(old(heap)@, p as nat, chars@),
{
    let ghost orig = heap@;
    let _heap_words = heap.len();
    let n = chars.len();
    let mut k: usize = 0;
    while k < n
        invariant
            n == chars@.len(),
            k <= n,
            p + n < orig.len(),
            orig.len() <= usize::MAX,
            heap@.len() == orig.len(),
            forall|j: int|
                0 <= j < heap@.len() ==> heap@[j] == (if p <= j < p + k {
                    Immediate::U32(chars@[j - p])
                } else {
                    orig[j]
                }),
        decreases n - k,
    {
        heap.set(p + k, Immediate::U32(chars[k]));
        k = k + 1;
    }
    heap.set(p + n, Immediate::U32(0));
    proof {
        assert(heap@ =~= spec_write_string(orig, p as nat, chars@));
    }
}

/// Copies a vector of scalar values.
fn dup_scalars(v: &Vec<u32>) -> (r: Vec<u32>)
    ensures
        r@ == v@,
{
    let mut r: Vec<u32> = Vec::new();
    let mut i: usize = 0;
    while i < v.len()
        invariant
            i <= v@.len(),
            r@ == v@.subrange(0, i as int),
        decreases v@.len() - i,
    {
        r.push(v[i]);
        i = i + 1;
        proof {
            assert(r@ =~= v@.subrange(0, i as int));
        }
    }
    proof {
        assert(r@ =~= v@);
    }
    r
}

/// Copies a host call so the machine can hand it out while keeping it
/// pending.
fn dup_host_call(h: &HostCall) -> (r: HostCall)
    ensures
        r@ == h@,
{
    match h {
        HostCall::Write(v) => HostCall::Write(dup_scalars(v)),
        HostCall::ReadFile(v) => HostCall::ReadFile(dup_scalars(v)),
        HostCall::WriteFile { path, data } => HostCall::WriteFile {
            path: dup_scalars(path),
            data: dup_scalars(data),
        },
        HostCall::Panic(v) => HostCall::Panic(dup_scalars(v)),
        HostCall::FloatBin { op, wide, lhs, rhs } => HostCall::FloatBin {
            op: *op,
            wide: *wide,
            lhs: *lhs,
            rhs: *rhs,
        },
    }
}

impl VirtualMachine {
    /// Builds a machine over the byte stream with a heap of `heap_max`
    /// absent cells, every register `U8(0)`, an empty stack, both flags
    /// clear, and the latch down.
    pub fn new(instr_mem: Vec<u8>, heap_max: usize) -> (vm: VirtualMachine)
        ensures
            vm@.wf(),
            vm@.pc == 0,
            vm@.mem == instr_mem@,
            vm@.heap == Seq::new(heap_max as nat, |j: int| Immediate::Absent),
            vm@.stack == Seq::<Immediate>::empty(),
            vm@.regs == Seq::new(16, |j: int| Immediate::U8(0u8)),
            !vm@.eq_flag,
            !vm@.gt_flag,
            !vm@.exe,
            !vm@.started,
            vm@.pending is None,
            vm@.fault is None,
    {
        let mut heap: Vec<Immediate> = Vec::new();
        let mut i: usize = 0;
        while i < heap_max
            invariant
                i <= heap_max,
                heap@ == Seq::new(i as nat, |j: int| Immediate::Absent),
            decreases heap_max - i,
        {
            heap.push(Immediate::Absent);
            i = i + 1;
            proof {
                assert(heap@ =~= Seq::new(i as nat, |j: int| Immediate::Absent));
            }
        }
        let mut reg: Vec<Immediate> = Vec::new();
        let mut k: usize = 0;
        while k < 16
            invariant
                k <= 16,
                reg@ == Seq::new(k as nat, |j: int| Immediate::U8(0u8)),
            decreases 16 - k,
        {
            reg.push(Immediate::U8(0));
            k = k + 1;
            proof {
                assert(reg@ =~= Seq::new(k as nat, |j: int| Immediate::U8(0u8)));
            }
        }
        VirtualMachine {
            instr_ptr: 0,
            instr_mem,
            virt_mem: heap,
            stack: Vec::new(),
            reg,
            flag_eq: false,
            flag_gt: false,
            is_exe: false,
            started: false,
            pending: None,
            fault: None,
        }
    }

    /// Stops the machine on a fault, leaving everything else as it stands.
    fn fail(&mut self, e: VmError)
        ensures
            final(self)@ == old(self)@.with_fault(e),
    {
        self.is_exe = false;
        self.fault = Some(e);
    }

    /// Takes a jump whose byte names the target outright.
    fn jump(&mut self, a: Address)
        ensures
            final(self)@ == spec_jump(old(self)@, a),
    {
        if a == 0 {
            self.fail(VmError::JumpToZero);
        } else {
            self.instr_ptr = a;
        }
    }

    /// Performs one arithmetic instruction.
    fn arith_instr(&mut self, op: ArithOp, a: Register, b: Register, next: usize)
        requires
            old(self)@.wf(),
        ensures
            final(self)@ == spec_arith_instr(old(self)@, next as nat, op, a, b),
    {
        if a >= 16 || b >= 16 {
            self.fail(VmError::RegisterOutOfBounds);
            return;
        }
        let va = self.reg[a];
        let vb = self.reg[b];
        match arith(op, va, vb) {
            Ok(ArithOut::Value(v)) => {
                self.stack.push(v);
                self.instr_ptr = next;
            },
            Ok(ArithOut::FloatPending { wide, lhs, rhs }) => {
                self.pending = Some(HostCall::FloatBin { op, wide, lhs, rhs });
                self.instr_ptr = next;
            },
            Err(e) => {
                self.fail(e);
            },
        }
    }

    /// Performs one bitwise instruction.
    fn bit_instr(&mut self, op: BitOp, a: Register, b: Register, next: usize)
        requires
            old(self)@.wf(),
        ensures
            final(self)@ == spec_bit_instr(old(self)@, next as nat, op, a, b),
    {
        if a >= 16 || b >= 16 {
            self.fail(VmError::RegisterOutOfBounds);
            return;
        }
        let va = self.reg[a];
        let vb = self.reg[b];
        match bitop(op, va, vb) {
            Ok(v) => {
                self.stack.push(v);
                self.instr_ptr = next;
            },
            Err(e) => {
                self.fail(e);
            },
        }
    }

    /// Performs one shift instruction.
    fn shift_instr(&mut self, op: ShiftOp, r: Register, imm: Immediate, next: usize)
        requires
            old(self)@.wf(),
        ensures
            final(self)@ == spec_shift_instr(old(self)@, next as nat, op, r, imm),
    {
        if r >= 16 {
            self.fail(VmError::RegisterOutOfBounds);
            return;
        }
        let va = self.reg[r];
        match shift(op, va, imm) {
            Ok(v) => {
                self.stack.push(v);
                self.instr_ptr = next;
            },
            Err(e) => {
                self.fail(e);
            },
        }
    }

    /// Serves `INT i`.
    fn interrupt(&mut self, i: Address, next: usize)
        requires
            old(self)@.wf(),
            old(self)@.runnable(),
        ensures
            final(self)@ == spec_interrupt(old(self)@, i, next as nat),
    {
        proof {
            reveal(spec_interrupt);
        }
        if i > 4 {
            self.fail(VmError::UnknownInterrupt);
            return;
        }
        let top = match self.stack.pop() {
            None => {
                self.fail(VmError::EmptyStack);
                return;
            },
            Some(t) => t,
        };
        let _heap_words = self.virt_mem.len();
        let addr = match top.address() {
            Err(e) => {
                self.fail(e);
                return;
            },
            Ok(a) => a,
        };
        if i == 0 {
            match read_heap_string(&self.virt_mem, addr) {
                Ok(msg) => {
                    self.pending = Some(HostCall::Write(msg));
                    self.instr_ptr = next;
                },
                Err(e) => {
                    self.fail(e);
                },
            }
        } else if i == 1 {
            proof {
                lemma_alloc_scan_bounds(self@.heap, 0, 0, addr as nat);
            }
            match heap_alloc(&mut self.virt_mem, addr) {
                Ok(p) => {
                    self.stack.push(Immediate::U64(p as u64));
                    self.instr_ptr = next;
                },
                Err(e) => {
                    self.fail(e);
                },
            }
        } else if i == 2 {
            match read_heap_string(&self.virt_mem, addr) {
                Ok(path) => {
                    self.pending = Some(HostCall::ReadFile(path));
                    self.instr_ptr = next;
                },
                Err(e) => {
                    self.fail(e);
                },
            }
        } else if i == 3 {
            match read_heap_string(&self.virt_mem, addr) {
                Err(e) => {
                    self.fail(e);
                },
                Ok(data) => {
                    let top2 = match self.stack.pop() {
                        None => {
                            self.fail(VmError::EmptyStack);
                            return;
                        },
                        Some(t) => t,
                    };
                    let addr2 = match top2.address() {
                        Err(e) => {
                            self.fail(e);
                            return;
                        },
                        Ok(a) => a,
                    };
                    match read_heap_string(&self.virt_mem, addr2) {
                        Err(e) => {
                            self.fail(e);
                        },
                        Ok(path) => {
                            self.pending = Some(HostCall::WriteFile { path, data });
                            self.instr_ptr = next;
                        },
                    }
                },
            }
        } else {
            match read_heap_string(&self.virt_mem, addr) {
                Ok(msg) => {
                    self.pending = Some(HostCall::Panic(msg));
                    self.instr_ptr = next;
                },
                Err(e) => {
                    self.fail(e);
                },
            }
        }
    }

    /// Applies one decoded instruction.
    #[verifier::rlimit(100)]
    fn execute(&mut self, ins: Instruction, next: usize)
        requires
            old(self)@.wf(),
            old(self)@.runnable(),
        ensures
            final(self)@ == spec_execute(old(self)@, ins, next as nat),
    {
        proof {
            reveal(spec_execute);
        }
        match ins {
            Instruction::NOP => {
                self.instr_ptr = next;
            },
            Instruction::HLT => {
                self.instr_ptr = next;
                self.is_exe = false;
            },
            Instruction::INT(i) => {
                self.interrupt(i, next);
            },
            Instruction::PUSH(v) => {
                self.stack.push(v);
                self.instr_ptr = next;
            },
            Instruction::PUSHR(r) => {
                if r >= 16 {
                    self.fail(VmError::RegisterOutOfBounds);
                    return;
                }
                let v = self.reg[r];
                self.stack.push(v);
                self.instr_ptr = next;
            },
            Instruction::POP(r) => {
                match self.stack.pop() {
                    None => {
                        self.fail(VmError::EmptyStack);
                    },
                    Some(top) => {
                        if r >= 16 {
                            self.fail(VmError::RegisterOutOfBounds);
                            return;
                        }
                        self.reg.set(r, top);
                        self.instr_ptr = next;
                    },
                }
            },
            Instruction::LDI(r, v) => {
                if r >= 16 {
                    self.fail(VmError::RegisterOutOfBounds);
                    return;
                }
                self.reg.set(r, v);
                self.instr_ptr = next;
            },
            Instruction::CPY(a, b) => {
                if a >= 16 || b >= 16 {
                    self.fail(VmError::RegisterOutOfBounds);
                    return;
                }
                let v = self.reg[a];
                self.reg.set(b, v);
                self.instr_ptr = next;
            },
            Instruction::JMP(a) => {
                self.jump(a);
            },
            Instruction::JE(a) => {
                if self.flag_eq {
                    self.jump(a);
                } else {
                    self.instr_ptr = next;
                }
            },
            Instruction::JNE(a) => {
                if !self.flag_eq {
                    self.jump(a);
                } else {
                    self.instr_ptr = next;
                }
            },
            Instruction::JG(a) => {
                if self.flag_gt {
                    self.jump(a);
                } else {
                    self.instr_ptr = next;
                }
            },
            Instruction::JL(a) => {
                if !self.flag_gt {
                    self.jump(a);
                } else {
                    self.instr_ptr = next;
                }
            },
            Instruction::CMP(a, b) => {
                if a >= 16 || b >= 16 {
                    self.fail(VmError::RegisterOutOfBounds);
                    return;
                }
                let va = self.reg[a];
                let vb = self.reg[b];
                match compare(va, vb) {
                    Ok((e, g)) => {
                        self.flag_eq = e;
                        self.flag_gt = g;
                        self.instr_ptr = next;
                    },
                    Err(e) => {
                        self.fail(e);
                    },
                }
            },
            Instruction::ADD(a, b) => {
                self.arith_instr(ArithOp::Add, a, b, next);
            },
            Instruction::SUB(a, b) => {
                self.arith_instr(ArithOp::Sub, a, b, next);
            },
            Instruction::MUL(a, b) => {
                self.arith_instr(ArithOp::Mul, a, b, next);
            },
            Instruction::DIV(a, b) => {
                self.arith_instr(ArithOp::Div, a, b, next);
            },
            Instruction::AND(a, b) => {
                self.bit_instr(BitOp::And, a, b, next);
            },
            Instruction::OR(a, b) => {
                self.bit_instr(BitOp::Or, a, b, next);
            },
            Instruction::XOR(a, b) => {
                self.bit_instr(BitOp::Xor, a, b, next);
            },
            Instruction::SHR(r, imm) => {
                self.shift_instr(ShiftOp::Shr, r, imm, next);
            },
            Instruction::SHL(r, imm) => {
                self.shift_instr(ShiftOp::Shl, r, imm, next);
            },
            Instruction::HSTORE(addr) => {
                match self.stack.pop() {
                    None => {
                        self.fail(VmError::EmptyStack);
                    },
                    Some(top) => {
                        if addr >= self.virt_mem.len() {
                            self.fail(VmError::HeapOutOfBounds);
                            return;
                        }
                        self.virt_mem.set(addr, top);
                        self.instr_ptr = next;
                    },
                }
            },
            Instruction::HSTORER(r) => {
                match self.stack.pop() {
                    None => {
                        self.fail(VmError::EmptyStack);
                    },
                    Some(top) => {
                        if r >= 16 {
                            self.fail(VmError::RegisterOutOfBounds);
                            return;
                        }
                        let _heap_words = self.virt_mem.len();
                        let rv = self.reg[r];
                        match rv.address() {
                            Err(e) => {
                                self.fail(e);
                            },
                            Ok(a) => {
                                if a >= self.virt_mem.len() {
                                    self.fail(VmError::HeapOutOfBounds);
                                    return;
                                }
                                self.virt_mem.set(a, top);
                                self.instr_ptr = next;
                            },
                        }
                    },
                }
            },
            Instruction::HLOAD(addr) => {
                if addr >= self.virt_mem.len() {
                    self.fail(VmError::HeapOutOfBounds);
                    return;
                }
                let v = self.virt_mem[addr];
                self.stack.push(v);
                self.instr_ptr = next;
            },
            Instruction::HLOADR(r) => {
                if r >= 16 {
                    self.fail(VmError::RegisterOutOfBounds);
                    return;
                }
                let _heap_words = self.virt_mem.len();
                let rv = self.reg[r];
                match rv.address() {
                    Err(e) => {
                        self.fail(e);
                    },
                    Ok(a) => {
                        if a >= self.virt_mem.len() {
                            self.fail(VmError::HeapOutOfBounds);
                            return;
                        }
                        let v = self.virt_mem[a];
                        self.stack.push(v);
                        self.instr_ptr = next;
                    },
                }
            },
        }
    }

    /// Fetches, decodes and executes the instruction under the program
    /// counter, or lowers the latch at the end of instruction memory.
    fn step_once(&mut self)
        requires
            old(self)@.wf(),
            old(self)@.runnable(),
        ensures
            final(self)@ == spec_step(old(self)@),
    {
        if self.instr_ptr >= self.instr_mem.len() {
            self.is_exe = false;
            return;
        }
        let decoded = decode_instr(&self.instr_mem, self.instr_ptr);
        match decoded {
            Err(e) => {
                self.fail(e);
            },
            Ok((ins, next)) => {
                self.execute(ins, next);
            },
        }
    }

    /// Runs the machine for at most `fuel` instructions. The first call
    /// raises the execution latch; once the program has ended, further calls
    /// are no-ops that repeat the verdict. The caller serves a `Host`
    /// outcome through `resume` and calls `exec` again; on `OutOfSteps` it
    /// simply calls again.
    #[verifier::rlimit(100)]
    #[verifier::loop_isolation(false)]
    pub fn exec(&mut self, fuel: usize) -> (r: Outcome)
        requires
            old(self)@.wf(),
        ensures
            final(self)@.wf(),
            final(self)@.started,
            exists|n: nat|
                #![auto]
                final(self)@ == spec_run(spec_launch(old(self)@), n) && (r
                    == Outcome::OutOfSteps ==> n >= fuel),
            match r {
                Outcome::Done => final(self)@.fault is None && final(self)@.pending is None
                    && !final(self)@.exe,
                Outcome::Fatal(e) => final(self)@.fault == Some(e) && !final(self)@.exe,
                Outcome::Host(hc) => final(self)@.fault is None && final(self)@.pending == Some(
                    hc@,
                ),
                Outcome::OutOfSteps => final(self)@.runnable(),
            },
    {
        let ghost launched = spec_launch(old(self)@);
        if !self.started {
            self.started = true;
            self.is_exe = true;
        }
        proof {
            assert(self@ =~= launched);
            assert(launched == spec_run(launched, 0));
        }
        let ghost mut n: nat = 0;
        let mut left = fuel;
        loop
            invariant
                self@.wf(),
                self@.started,
                self@ == spec_run(launched, n),
                n + left == fuel,
            decreases left,
        {
            match self.fault {
                Some(e) => {
                    return Outcome::Fatal(e);
                },
                None => {},
            }
            if !self.is_exe {
                return Outcome::Done;
            }
            let pended = match &self.pending {
                Some(hc) => Some(dup_host_call(hc)),
                None => None,
            };
            match pended {
                Some(hc) => {
                    return Outcome::Host(hc);
                },
                None => {},
            }
            if left == 0 {
                return Outcome::OutOfSteps;
            }
            left = left - 1;
            proof {
                lemma_step_preserves_wf(self@);
            }
            self.step_once();
            proof {
                n = n + 1;
                assert(self@ == spec_run(launched, n));
            }
        }
    }


    /// The value in register `r`, for the sixteen real slots.
    pub fn register(&self, r: Register) -> (v: Option<Immediate>)
        requires
            self@.wf(),
        ensures
            r < 16 ==> v == Some(self@.regs[r as int]),
            r >= 16 ==> v is None,
    {
        if r < 16 {
            Some(self.reg[r])
        } else {
            None
        }
    }

    /// The value in the heap cell at `a`, while it exists.
    pub fn heap_cell(&self, a: Address) -> (v: Option<Immediate>)
        ensures
            a < self@.heap.len() ==> v == Some(self@.heap[a as int]),
            a >= self@.heap.len() ==> v is None,
    {
        if a < self.virt_mem.len() {
            Some(self.virt_mem[a])
        } else {
            None
        }
    }

    /// The number of heap cells.
    pub fn heap_len(&self) -> (n: usize)
        ensures
            n == self@.heap.len(),
    {
        self.virt_mem.len()
    }

    /// The depth of the value stack.
    pub fn stack_len(&self) -> (n: usize)
        ensures
            n == self@.stack.len(),
    {
        self.stack.len()
    }

    /// The stack entry at depth `k`, the bottom being zero.
    pub fn stack_slot(&self, k: usize) -> (v: Option<Immediate>)
        ensures
            k < self@.stack.len() ==> v == Some(self@.stack[k as int]),
            k >= self@.stack.len() ==> v is None,
    {
        if k < self.stack.len() {
            Some(self.stack[k])
        } else {
            None
        }
    }

    /// The execution latch: raised by `exec`, lowered when the program ends.
    pub fn is_running(&self) -> (r: bool)
        ensures
            r == self@.exe,
    {
        self.is_exe
    }

    /// Answers the pending host call. The matching reply applies its effect
    /// and is accepted; any other reply leaves the machine untouched and
    /// returns false.
    #[verifier::rlimit(100)]
    pub fn resume(&mut self, reply: HostReply) -> (accepted: bool)
        requires
            old(self)@.wf(),
        ensures
            final(self)@.wf(),
            final(self)@ == spec_resume(old(self)@, reply@).0,
            accepted == spec_resume(old(self)@, reply@).1,
    {
        let kind: u8 = match &self.pending {
            None => 0,
            Some(HostCall::Write(_)) => 1,
            Some(HostCall::ReadFile(_)) => 2,
            Some(HostCall::WriteFile { .. }) => 3,
            Some(HostCall::Panic(_)) => 4,
            Some(HostCall::FloatBin { .. }) => 5,
        };
        match reply {
            HostReply::WriteDone => {
                if kind == 1 {
                    self.pending = None;
                    true
                } else {
                    false
                }
            },
            HostReply::FileData(opt) => {
                if kind != 2 {
                    return false;
                }
                match opt {
                    None => {
                        self.pending = None;
                        self.stack.push(Immediate::U64(0));
                        self.stack.push(Immediate::U8(0));
                        true
                    },
                    Some(chars) => {
                        let n = chars.len();
                        let _heap_words = self.virt_mem.len();
                        proof {
                            lemma_alloc_scan_bounds(self@.heap, 0, 0, n as nat);
                        }
                        match heap_alloc(&mut self.virt_mem, n) {
                            Err(e) => {
                                self.pending = None;
                                self.fail(e);
                            },
                            Ok(p) => {
                                let _grown_words = self.virt_mem.len();
                                let fits = match p.checked_add(n) {
                                    None => false,
                                    Some(end) => end < self.virt_mem.len(),
                                };
                                if !fits {
                                    self.pending = None;
                                    self.fail(VmError::HeapOutOfBounds);
                                } else {
                                    write_scalar_string(&mut self.virt_mem, p, &chars);
                                    self.stack.push(Immediate::U64(p as u64));
                                    self.stack.push(Immediate::U8(1));
                                    self.pending = None;
                                }
                            },
                        }
                        true
                    },
                }
            },
            HostReply::FileWritten(ok) => {
                if kind != 3 {
                    return false;
                }
                self.pending = None;
                self.stack.push(Immediate::U8(if ok {
                    1
                } else {
                    0
                }));
                true
            },
            HostReply::FloatResult(bits) => {
                if kind != 5 {
                    return false;
                }
                let wide = match &self.pending {
                    Some(HostCall::FloatBin { wide, .. }) => *wide,
                    _ => false,
                };
                self.pending = None;
                self.stack.push(
                    if wide {
                        Immediate::F64(bits)
                    } else {
                        Immediate::F32(#[verifier::truncate] (bits as u32))
                    },
                );
                true
            },
        }
    }
}

} // verus!
