//! The tagged value model: one `Immediate` per register slot, stack entry or
//! heap cell, and the same-variant comparison the machine's CMP relies on.
use vstd::prelude::*;

verus! {

/// A runtime fault of the machine. Every fault ends execution of the program;
/// none is recoverable from bytecode.
#[derive(Clone, Copy, PartialEq, Eq, Structural, Debug)]
pub enum VmError {
    /// An instruction or an immediate ran past the end of instruction memory.
    TruncatedCode,
    /// POP or HSTORE found the value stack empty, or an interrupt missed its argument.
    EmptyStack,
    /// Two operands of different variants met, or a variant outside the
    /// operation's domain was supplied.
    TypeMismatch,
    /// An address argument does not name an existing heap cell.
    HeapOutOfBounds,
    /// A register operand names a slot beyond the sixteen of the file.
    RegisterOutOfBounds,
    /// A jump named address zero, which the pre-decrement convention cannot reach.
    JumpToZero,
    /// Integer division by zero.
    DivByZero,
    /// Signed division overflow (the minimum value divided by minus one).
    DivOverflow,
    /// An interrupt number outside the supported range.
    UnknownInterrupt,
    /// A heap string holds a value that is not a Unicode scalar value.
    InvalidScalar,
    /// The allocator was asked to grow an empty heap, which has no last cell
    /// to return.
    EmptyHeap,
}

/// A tagged value. The two float variants carry the raw IEEE-754 bit pattern
/// of the number; the machine itself never interprets those bits as anything
/// but a payload, except to order them (see `spec_gt`) and to hand them to the
/// host for arithmetic.
#[derive(Clone, Copy, PartialEq, Eq, Structural, Debug)]
pub enum Immediate {
    /// The absent marker: a free heap cell, or the product of a malformed
    /// immediate encoding.
    Absent,
    U8(u8),
    I8(i8),
    U16(u16),
    I16(i16),
    U32(u32),
    I32(i32),
    U64(u64),
    I64(i64),
    /// A 32-bit float, stored as its bit pattern.
    F32(u32),
    /// A 64-bit float, stored as its bit pattern.
    F64(u64),
}

impl Immediate {
    /// True when the two values carry the same variant tag.
    pub open spec fn same_variant(self, other: Immediate) -> bool {
        match (self, other) {
            (Immediate::Absent, Immediate::Absent) => true,
            (Immediate::U8(_), Immediate::U8(_)) => true,
            (Immediate::I8(_), Immediate::I8(_)) => true,
            (Immediate::U16(_), Immediate::U16(_)) => true,
            (Immediate::I16(_), Immediate::I16(_)) => true,
            (Immediate::U32(_), Immediate::U32(_)) => true,
            (Immediate::I32(_), Immediate::I32(_)) => true,
            (Immediate::U64(_), Immediate::U64(_)) => true,
            (Immediate::I64(_), Immediate::I64(_)) => true,
            (Immediate::F32(_), Immediate::F32(_)) => true,
            (Immediate::F64(_), Immediate::F64(_)) => true,
            _ => false,
        }
    }

    /// True for the eight integer variants.
    pub open spec fn is_integer(self) -> bool {
        match self {
            Immediate::U8(_)
            | Immediate::I8(_)
            | Immediate::U16(_)
            | Immediate::I16(_)
            | Immediate::U32(_)
            | Immediate::I32(_)
            | Immediate::U64(_)
            | Immediate::I64(_) => true,
            _ => false,
        }
    }

    /// True for the variants accepted as heap addresses and interrupt arguments.
    pub open spec fn is_address_kind(self) -> bool {
        match self {
            Immediate::U8(_) | Immediate::U16(_) | Immediate::U32(_) | Immediate::U64(_) => true,
            _ => false,
        }
    }

    /// The numeric value of an address-kind immediate.
    pub open spec fn spec_address(self) -> nat {
        match self {
            Immediate::U8(v) => v as nat,
            Immediate::U16(v) => v as nat,
            Immediate::U32(v) => v as nat,
            Immediate::U64(v) => v as nat,
            _ => 0,
        }
    }

    /// Reads an address-kind immediate as a machine index; any other variant
    /// is a type fault.
    pub fn address(self) -> (r: Result<usize, VmError>)
        ensures
            self.is_address_kind() && self.spec_address() <= usize::MAX ==> r == Ok::<
                usize,
                VmError,
            >(self.spec_address() as usize),
            self.is_address_kind() && self.spec_address() > usize::MAX ==> r == Err::<
                usize,
                VmError,
            >(VmError::HeapOutOfBounds),
            !self.is_address_kind() ==> r == Err::<usize, VmError>(VmError::TypeMismatch),
    {
        match self {
            Immediate::U8(v) => Ok(v as usize),
            Immediate::U16(v) => Ok(v as usize),
            Immediate::U32(v) => Ok(v as usize),
            Immediate::U64(v) => {
                if v <= usize::MAX as u64 {
                    Ok(v as usize)
                } else {
                    Err(VmError::HeapOutOfBounds)
                }
            },
            _ => Err(VmError::TypeMismatch),
        }
    }
}

/// The sort key that realises the IEEE-754 total order on 32-bit patterns:
/// negative patterns are flipped end for end, positive ones are lifted above
/// them.
pub open spec fn spec_f32_order_key(bits: u32) -> u32 {
    if bits >= 0x8000_0000 {
        bits ^ 0xFFFF_FFFFu32
    } else {
        bits | 0x8000_0000
    }
}

/// The same total-order key for 64-bit patterns.
pub open spec fn spec_f64_order_key(bits: u64) -> u64 {
    if bits >= 0x8000_0000_0000_0000 {
        bits ^ 0xFFFF_FFFF_FFFF_FFFFu64
    } else {
        bits | 0x8000_0000_0000_0000
    }
}

/// Strict greater-than between two values of the same variant. Integer
/// variants compare numerically; float variants by the IEEE-754 total order
/// of their bit patterns; the absent marker is never greater than itself.
/// The value on a mixed-variant pair is immaterial: the machine faults before
/// consulting it.
pub open spec fn spec_gt(a: Immediate, b: Immediate) -> bool {
    match (a, b) {
        (Immediate::U8(x), Immediate::U8(y)) => x > y,
        (Immediate::I8(x), Immediate::I8(y)) => x > y,
        (Immediate::U16(x), Immediate::U16(y)) => x > y,
        (Immediate::I16(x), Immediate::I16(y)) => x > y,
        (Immediate::U32(x), Immediate::U32(y)) => x > y,
        (Immediate::I32(x), Immediate::I32(y)) => x > y,
        (Immediate::U64(x), Immediate::U64(y)) => x > y,
        (Immediate::I64(x), Immediate::I64(y)) => x > y,
        (Immediate::F32(x), Immediate::F32(y)) => spec_f32_order_key(x) > spec_f32_order_key(y),
        (Immediate::F64(x), Immediate::F64(y)) => spec_f64_order_key(x) > spec_f64_order_key(y),
        _ => false,
    }
}

/// Compares two values of the same variant, returning the pair of flags CMP
/// sets: equality, then strict order. A mixed-variant pair is a type fault.
pub fn compare(a: Immediate, b: Immediate) -> (r: Result<(bool, bool), VmError>)
    ensures
        a.same_variant(b) ==> r == Ok::<(bool, bool), VmError>((a == b, spec_gt(a, b))),
        !a.same_variant(b) ==> r == Err::<(bool, bool), VmError>(VmError::TypeMismatch),
{
    match (a, b) {
        (Immediate::Absent, Immediate::Absent) => Ok((true, false)),
        (Immediate::U8(x), Immediate::U8(y)) => Ok((x == y, x > y)),
        (Immediate::I8(x), Immediate::I8(y)) => Ok((x == y, x > y)),
        (Immediate::U16(x), Immediate::U16(y)) => Ok((x == y, x > y)),
        (Immediate::I16(x), Immediate::I16(y)) => Ok((x == y, x > y)),
        (Immediate::U32(x), Immediate::U32(y)) => Ok((x == y, x > y)),
        (Immediate::I32(x), Immediate::I32(y)) => Ok((x == y, x > y)),
        (Immediate::U64(x), Immediate::U64(y)) => Ok((x == y, x > y)),
        (Immediate::I64(x), Immediate::I64(y)) => Ok((x == y, x > y)),
        (Immediate::F32(x), Immediate::F32(y)) => Ok(
            (x == y, f32_order_key(x) > f32_order_key(y)),
        ),
        (Immediate::F64(x), Immediate::F64(y)) => Ok(
            (x == y, f64_order_key(x) > f64_order_key(y)),
        ),
        _ => Err(VmError::TypeMismatch),
    }
}

/// Computes the 32-bit total-order key.
fn f32_order_key(bits: u32) -> (r: u32)
    ensures
        r == spec_f32_order_key(bits),
{
    if bits >= 0x8000_0000 {
        bits ^ 0xFFFF_FFFFu32
    } else {
        bits | 0x8000_0000
    }
}

/// Computes the 64-bit total-order key.
fn f64_order_key(bits: u64) -> (r: u64)
    ensures
        r == spec_f64_order_key(bits),
{
    if bits >= 0x8000_0000_0000_0000 {
        bits ^ 0xFFFF_FFFF_FFFF_FFFFu64
    } else {
        bits | 0x8000_0000_0000_0000
    }
}

/// One of the four arithmetic instructions.
#[derive(Clone, Copy, PartialEq, Eq, Structural, Debug)]
pub enum ArithOp {
    Add,
    Sub,
    Mul,
    Div,
}

/// One of the three bitwise instructions.
#[derive(Clone, Copy, PartialEq, Eq, Structural, Debug)]
pub enum BitOp {
    And,
    Or,
    Xor,
}

/// One of the two shift instructions.
#[derive(Clone, Copy, PartialEq, Eq, Structural, Debug)]
pub enum ShiftOp {
    Shr,
    Shl,
}

/// What an arithmetic instruction produced: either a value ready to push, or
/// a pair of float bit patterns that only the host's float unit can combine.
#[derive(Clone, Copy, PartialEq, Eq, Structural, Debug)]
pub enum ArithOut {
    Value(Immediate),
    FloatPending { wide: bool, lhs: u64, rhs: u64 },
}

/// Same-variant arithmetic on 8-bit unsigned payloads: add, subtract and
/// multiply wrap; division truncates and faults on a zero divisor.
pub open spec fn spec_arith_u8(op: ArithOp, x: u8, y: u8) -> Result<u8, VmError> {
    match op {
        ArithOp::Add => Ok(x.wrapping_add(y)),
        ArithOp::Sub => Ok(x.wrapping_sub(y)),
        ArithOp::Mul => Ok(x.wrapping_mul(y)),
        ArithOp::Div => match x.checked_div(y) {
            Some(v) => Ok(v),
            None => Err(VmError::DivByZero),
        },
    }
}

/// As `spec_arith_u8`, for 16-bit unsigned payloads.
pub open spec fn spec_arith_u16(op: ArithOp, x: u16, y: u16) -> Result<u16, VmError> {
    match op {
        ArithOp::Add => Ok(x.wrapping_add(y)),
        ArithOp::Sub => Ok(x.wrapping_sub(y)),
        ArithOp::Mul => Ok(x.wrapping_mul(y)),
        ArithOp::Div => match x.checked_div(y) {
            Some(v) => Ok(v),
            None => Err(VmError::DivByZero),
        },
    }
}

/// As `spec_arith_u8`, for 32-bit unsigned payloads.
pub open spec fn spec_arith_u32(op: ArithOp, x: u32, y: u32) -> Result<u32, VmError> {
    match op {
        ArithOp::Add => Ok(x.wrapping_add(y)),
        ArithOp::Sub => Ok(x.wrapping_sub(y)),
        ArithOp::Mul => Ok(x.wrapping_mul(y)),
        ArithOp::Div => match x.checked_div(y) {
            Some(v) => Ok(v),
            None => Err(VmError::DivByZero),
        },
    }
}

/// As `spec_arith_u8`, for 64-bit unsigned payloads.
pub open spec fn spec_arith_u64(op: ArithOp, x: u64, y: u64) -> Result<u64, VmError> {
    match op {
        ArithOp::Add => Ok(x.wrapping_add(y)),
        ArithOp::Sub => Ok(x.wrapping_sub(y)),
        ArithOp::Mul => Ok(x.wrapping_mul(y)),
        ArithOp::Div => match x.checked_div(y) {
            Some(v) => Ok(v),
            None => Err(VmError::DivByZero),
        },
    }
}

/// Same-variant arithmetic on 8-bit signed payloads: add, subtract and
/// multiply wrap; division truncates toward zero and faults on a zero divisor
/// or on the one overflowing quotient.
pub open spec fn spec_arith_i8(op: ArithOp, x: i8, y: i8) -> Result<i8, VmError> {
    match op {
        ArithOp::Add => Ok(x.wrapping_add(y)),
        ArithOp::Sub => Ok(x.wrapping_sub(y)),
        ArithOp::Mul => Ok(x.wrapping_mul(y)),
        ArithOp::Div => if y == 0 {
            Err(VmError::DivByZero)
        } else {
            match x.checked_div(y) {
                Some(v) => Ok(v),
                None => Err(VmError::DivOverflow),
            }
        },
    }
}

/// As `spec_arith_i8`, for 16-bit signed payloads.
pub open spec fn spec_arith_i16(op: ArithOp, x: i16, y: i16) -> Result<i16, VmError> {
    match op {
        ArithOp::Add => Ok(x.wrapping_add(y)),
        ArithOp::Sub => Ok(x.wrapping_sub(y)),
        ArithOp::Mul => Ok(x.wrapping_mul(y)),
        ArithOp::Div => if y == 0 {
            Err(VmError::DivByZero)
        } else {
            match x.checked_div(y) {
                Some(v) => Ok(v),
                None => Err(VmError::DivOverflow),
            }
        },
    }
}

/// As `spec_arith_i8`, for 32-bit signed payloads.
pub open spec fn spec_arith_i32(op: ArithOp, x: i32, y: i32) -> Result<i32, VmError> {
    match op {
        ArithOp::Add => Ok(x.wrapping_add(y)),
        ArithOp::Sub => Ok(x.wrapping_sub(y)),
        ArithOp::Mul => Ok(x.wrapping_mul(y)),
        ArithOp::Div => if y == 0 {
            Err(VmError::DivByZero)
        } else {
            match x.checked_div(y) {
                Some(v) => Ok(v),
                None => Err(VmError::DivOverflow),
            }
        },
    }
}

/// As `spec_arith_i8`, for 64-bit signed payloads.
pub open spec fn spec_arith_i64(op: ArithOp, x: i64, y: i64) -> Result<i64, VmError> {
    match op {
        ArithOp::Add => Ok(x.wrapping_add(y)),
        ArithOp::Sub => Ok(x.wrapping_sub(y)),
        ArithOp::Mul => Ok(x.wrapping_mul(y)),
        ArithOp::Div => if y == 0 {
            Err(VmError::DivByZero)
        } else {
            match x.checked_div(y) {
                Some(v) => Ok(v),
                None => Err(VmError::DivOverflow),
            }
        },
    }
}

/// Arithmetic over two immediates. Integer pairs of one variant produce a
/// value of that variant; float pairs of one variant are handed on as bit
/// patterns for the host; every other pair is a type fault.
pub open spec fn spec_arith(op: ArithOp, a: Immediate, b: Immediate) -> Result<
    ArithOut,
    VmError,
> {
    match (a, b) {
        (Immediate::U8(x), Immediate::U8(y)) => match spec_arith_u8(op, x, y) {
            Ok(v) => Ok(ArithOut::Value(Immediate::U8(v))),
            Err(e) => Err(e),
        },
        (Immediate::I8(x), Immediate::I8(y)) => match spec_arith_i8(op, x, y) {
            Ok(v) => Ok(ArithOut::Value(Immediate::I8(v))),
            Err(e) => Err(e),
        },
        (Immediate::U16(x), Immediate::U16(y)) => match spec_arith_u16(op, x, y) {
            Ok(v) => Ok(ArithOut::Value(Immediate::U16(v))),
            Err(e) => Err(e),
        },
        (Immediate::I16(x), Immediate::I16(y)) => match spec_arith_i16(op, x, y) {
            Ok(v) => Ok(ArithOut::Value(Immediate::I16(v))),
            Err(e) => Err(e),
        },
        (Immediate::U32(x), Immediate::U32(y)) => match spec_arith_u32(op, x, y) {
            Ok(v) => Ok(ArithOut::Value(Immediate::U32(v))),
            Err(e) => Err(e),
        },
        (Immediate::I32(x), Immediate::I32(y)) => match spec_arith_i32(op, x, y) {
            Ok(v) => Ok(ArithOut::Value(Immediate::I32(v))),
            Err(e) => Err(e),
        },
        (Immediate::U64(x), Immediate::U64(y)) => match spec_arith_u64(op, x, y) {
            Ok(v) => Ok(ArithOut::Value(Immediate::U64(v))),
            Err(e) => Err(e),
        },
        (Immediate::I64(x), Immediate::I64(y)) => match spec_arith_i64(op, x, y) {
            Ok(v) => Ok(ArithOut::Value(Immediate::I64(v))),
            Err(e) => Err(e),
        },
        (Immediate::F32(x), Immediate::F32(y)) => Ok(
            ArithOut::FloatPending { wide: false, lhs: x as u64, rhs: y as u64 },
        ),
        (Immediate::F64(x), Immediate::F64(y)) => Ok(
            ArithOut::FloatPending { wide: true, lhs: x, rhs: y },
        ),
        _ => Err(VmError::TypeMismatch),
    }
}

/// Performs one arithmetic instruction on two register values.
pub fn arith(op: ArithOp, a: Immediate, b: Immediate) -> (r: Result<ArithOut, VmError>)
    ensures
        r == spec_arith(op, a, b),
{
    match (a, b) {
        (Immediate::U8(x), Immediate::U8(y)) => match arith_u8(op, x, y) {
            Ok(v) => Ok(ArithOut::Value(Immediate::U8(v))),
            Err(e) => Err(e),
        },
        (Immediate::I8(x), Immediate::I8(y)) => match arith_i8(op, x, y) {
            Ok(v) => Ok(ArithOut::Value(Immediate::I8(v))),
            Err(e) => Err(e),
        },
        (Immediate::U16(x), Immediate::U16(y)) => match arith_u16(op, x, y) {
            Ok(v) => Ok(ArithOut::Value(Immediate::U16(v))),
            Err(e) => Err(e),
        },
        (Immediate::I16(x), Immediate::I16(y)) => match arith_i16(op, x, y) {
            Ok(v) => Ok(ArithOut::Value(Immediate::I16(v))),
            Err(e) => Err(e),
        },
        (Immediate::U32(x), Immediate::U32(y)) => match arith_u32(op, x, y) {
            Ok(v) => Ok(ArithOut::Value(Immediate::U32(v))),
            Err(e) => Err(e),
        },
        (Immediate::I32(x), Immediate::I32(y)) => match arith_i32(op, x, y) {
            Ok(v) => Ok(ArithOut::Value(Immediate::I32(v))),
            Err(e) => Err(e),
        },
        (Immediate::U64(x), Immediate::U64(y)) => match arith_u64(op, x, y) {
            Ok(v) => Ok(ArithOut::Value(Immediate::U64(v))),
            Err(e) => Err(e),
        },
        (Immediate::I64(x), Immediate::I64(y)) => match arith_i64(op, x, y) {
            Ok(v) => Ok(ArithOut::Value(Immediate::I64(v))),
            Err(e) => Err(e),
        },
        (Immediate::F32(x), Immediate::F32(y)) => Ok(
            ArithOut::FloatPending { wide: false, lhs: x as u64, rhs: y as u64 },
        ),
        (Immediate::F64(x), Immediate::F64(y)) => Ok(
            ArithOut::FloatPending { wide: true, lhs: x, rhs: y },
        ),
        _ => Err(VmError::TypeMismatch),
    }
}

fn arith_u8(op: ArithOp, x: u8, y: u8) -> (r: Result<u8, VmError>)
    ensures
        r == spec_arith_u8(op, x, y),
{
    match op {
        ArithOp::Add => Ok(x.wrapping_add(y)),
        ArithOp::Sub => Ok(x.wrapping_sub(y)),
        ArithOp::Mul => Ok(x.wrapping_mul(y)),
        ArithOp::Div => match x.checked_div(y) {
            Some(v) => Ok(v),
            None => Err(VmError::DivByZero),
        },
    }
}

fn arith_u16(op: ArithOp, x: u16, y: u16) -> (r: Result<u16, VmError>)
    ensures
        r == spec_arith_u16(op, x, y),
{
    match op {
        ArithOp::Add => Ok(x.wrapping_add(y)),
        ArithOp::Sub => Ok(x.wrapping_sub(y)),
        ArithOp::Mul => Ok(x.wrapping_mul(y)),
        ArithOp::Div => match x.checked_div(y) {
            Some(v) => Ok(v),
            None => Err(VmError::DivByZero),
        },
    }
}

fn arith_u32(op: ArithOp, x: u32, y: u32) -> (r: Result<u32, VmError>)
    ensures
        r == spec_arith_u32(op, x, y),
{
    match op {
        ArithOp::Add => Ok(x.wrapping_add(y)),
        ArithOp::Sub => Ok(x.wrapping_sub(y)),
        ArithOp::Mul => Ok(x.wrapping_mul(y)),
        ArithOp::Div => match x.checked_div(y) {
            Some(v) => Ok(v),
            None => Err(VmError::DivByZero),
        },
    }
}

fn arith_u64(op: ArithOp, x: u64, y: u64) -> (r: Result<u64, VmError>)
    ensures
        r == spec_arith_u64(op, x, y),
{
    match op {
        ArithOp::Add => Ok(x.wrapping_add(y)),
        ArithOp::Sub => Ok(x.wrapping_sub(y)),
        ArithOp::Mul => Ok(x.wrapping_mul(y)),
        ArithOp::Div => match x.checked_div(y) {
            Some(v) => Ok(v),
            None => Err(VmError::DivByZero),
        },
    }
}

fn arith_i8(op: ArithOp, x: i8, y: i8) -> (r: Result<i8, VmError>)
    ensures
        r == spec_arith_i8(op, x, y),
{
    match op {
        ArithOp::Add => Ok(x.wrapping_add(y)),
        ArithOp::Sub => Ok(x.wrapping_sub(y)),
        ArithOp::Mul => Ok(x.wrapping_mul(y)),
        ArithOp::Div => if y == 0 {
            Err(VmError::DivByZero)
        } else {
            match x.checked_div(y) {
                Some(v) => Ok(v),
                None => Err(VmError::DivOverflow),
            }
        },
    }
}

fn arith_i16(op: ArithOp, x: i16, y: i16) -> (r: Result<i16, VmError>)
    ensures
        r == spec_arith_i16(op, x, y),
{
    match op {
        ArithOp::Add => Ok(x.wrapping_add(y)),
        ArithOp::Sub => Ok(x.wrapping_sub(y)),
        ArithOp::Mul => Ok(x.wrapping_mul(y)),
        ArithOp::Div => if y == 0 {
            Err(VmError::DivByZero)
        } else {
            match x.checked_div(y) {
                Some(v) => Ok(v),
                None => Err(VmError::DivOverflow),
            }
        },
    }
}

fn arith_i32(op: ArithOp, x: i32, y: i32) -> (r: Result<i32, VmError>)
    ensures
        r == spec_arith_i32(op, x, y),
{
    match op {
        ArithOp::Add => Ok(x.wrapping_add(y)),
        ArithOp::Sub => Ok(x.wrapping_sub(y)),
        ArithOp::Mul => Ok(x.wrapping_mul(y)),
        ArithOp::Div => if y == 0 {
            Err(VmError::DivByZero)
        } else {
            match x.checked_div(y) {
                Some(v) => Ok(v),
                None => Err(VmError::DivOverflow),
            }
        },
    }
}

/// Bitwise combination over two immediates: defined for integer pairs of one
/// variant only; floats, the absent marker and mixed pairs are type faults.
pub open spec fn spec_bitop(op: BitOp, a: Immediate, b: Immediate) -> Result<
    Immediate,
    VmError,
> {
    match (a, b) {
        (Immediate::U8(x), Immediate::U8(y)) => Ok(
            Immediate::U8(
                match op {
                    BitOp::And => x & y,
                    BitOp::Or => x | y,
                    BitOp::Xor => x ^ y,
                },
            ),
        ),
        (Immediate::I8(x), Immediate::I8(y)) => Ok(
            Immediate::I8(
                match op {
                    BitOp::And => x & y,
                    BitOp::Or => x | y,
                    BitOp::Xor => x ^ y,
                },
            ),
        ),
        (Immediate::U16(x), Immediate::U16(y)) => Ok(
            Immediate::U16(
                match op {
                    BitOp::And => x & y,
                    BitOp::Or => x | y,
                    BitOp::Xor => x ^ y,
                },
            ),
        ),
        (Immediate::I16(x), Immediate::I16(y)) => Ok(
            Immediate::I16(
                match op {
                    BitOp::And => x & y,
                    BitOp::Or => x | y,
                    BitOp::Xor => x ^ y,
                },
            ),
        ),
        (Immediate::U32(x), Immediate::U32(y)) => Ok(
            Immediate::U32(
                match op {
                    BitOp::And => x & y,
                    BitOp::Or => x | y,
                    BitOp::Xor => x ^ y,
                },
            ),
        ),
        (Immediate::I32(x), Immediate::I32(y)) => Ok(
            Immediate::I32(
                match op {
                    BitOp::And => x & y,
                    BitOp::Or => x | y,
                    BitOp::Xor => x ^ y,
                },
            ),
        ),
        (Immediate::U64(x), Immediate::U64(y)) => Ok(
            Immediate::U64(
                match op {
                    BitOp::And => x & y,
                    BitOp::Or => x | y,
                    BitOp::Xor => x ^ y,
                },
            ),
        ),
        (Immediate::I64(x), Immediate::I64(y)) => Ok(
            Immediate::I64(
                match op {
                    BitOp::And => x & y,
                    BitOp::Or => x | y,
                    BitOp::Xor => x ^ y,
                },
            ),
        ),
        _ => Err(VmError::TypeMismatch),
    }
}

/// Performs one bitwise instruction on two register values.
pub fn bitop(op: BitOp, a: Immediate, b: Immediate) -> (r: Result<Immediate, VmError>)
    ensures
        r == spec_bitop(op, a, b),
{
    match (a, b) {
        (Immediate::U8(x), Immediate::U8(y)) => Ok(
            Immediate::U8(
                match op {
                    BitOp::And => x & y,
                    BitOp::Or => x | y,
                    BitOp::Xor => x ^ y,
                },
            ),
        ),
        (Immediate::I8(x), Immediate::I8(y)) => Ok(
            Immediate::I8(
                match op {
                    BitOp::And => x & y,
                    BitOp::Or => x | y,
                    BitOp::Xor => x ^ y,
                },
            ),
        ),
        (Immediate::U16(x), Immediate::U16(y)) => Ok(
            Immediate::U16(
                match op {
                    BitOp::And => x & y,
                    BitOp::Or => x | y,
                    BitOp::Xor => x ^ y,
                },
            ),
        ),
        (Immediate::I16(x), Immediate::I16(y)) => Ok(
            Immediate::I16(
                match op {
                    BitOp::And => x & y,
                    BitOp::Or => x | y,
                    BitOp::Xor => x ^ y,
                },
            ),
        ),
        (Immediate::U32(x), Immediate::U32(y)) => Ok(
            Immediate::U32(
                match op {
                    BitOp::And => x & y,
                    BitOp::Or => x | y,
                    BitOp::Xor => x ^ y,
                },
            ),
        ),
        (Immediate::I32(x), Immediate::I32(y)) => Ok(
            Immediate::I32(
                match op {
                    BitOp::And => x & y,
                    BitOp::Or => x | y,
                    BitOp::Xor => x ^ y,
                },
            ),
        ),
        (Immediate::U64(x), Immediate::U64(y)) => Ok(
            Immediate::U64(
                match op {
                    BitOp::And => x & y,
                    BitOp::Or => x | y,
                    BitOp::Xor => x ^ y,
                },
            ),
        ),
        (Immediate::I64(x), Immediate::I64(y)) => Ok(
            Immediate::I64(
                match op {
                    BitOp::And => x & y,
                    BitOp::Or => x | y,
                    BitOp::Xor => x ^ y,
                },
            ),
        ),
        _ => Err(VmError::TypeMismatch),
    }
}

/// The shift distance named by an immediate: its payload's two's-complement
/// bit pattern, truncated to 32 bits. The shift itself reduces the distance
/// modulo the width of the shifted value, as the hardware would.
pub open spec fn spec_shift_amount(v: Immediate) -> u32 {
    match v {
        Immediate::U8(y) => y as u32,
        Immediate::I8(y) => y as u32,
        Immediate::U16(y) => y as u32,
        Immediate::I16(y) => y as u32,
        Immediate::U32(y) => y,
        Immediate::I32(y) => y as u32,
        Immediate::U64(y) => y as u32,
        Immediate::I64(y) => y as u32,
        _ => 0,
    }
}

/// A shift over two immediates of one integer variant: right shifts are
/// logical on unsigned payloads and arithmetic on signed ones; the distance
/// wraps modulo the payload width. Every other pair is a type fault.
pub open spec fn spec_shift(op: ShiftOp, a: Immediate, b: Immediate) -> Result<
    Immediate,
    VmError,
> {
    if !a.same_variant(b) || !a.is_integer() {
        Err(VmError::TypeMismatch)
    } else {
        let amt = spec_shift_amount(b);
        match a {
            Immediate::U8(x) => Ok(
                Immediate::U8(
                    match op {
                        ShiftOp::Shr => x.wrapping_shr(amt),
                        ShiftOp::Shl => x.wrapping_shl(amt),
                    },
                ),
            ),
            Immediate::I8(x) => Ok(
                Immediate::I8(
                    match op {
                        ShiftOp::Shr => x.wrapping_shr(amt),
                        ShiftOp::Shl => x.wrapping_shl(amt),
                    },
                ),
            ),
            Immediate::U16(x) => Ok(
                Immediate::U16(
                    match op {
                        ShiftOp::Shr => x.wrapping_shr(amt),
                        ShiftOp::Shl => x.wrapping_shl(amt),
                    },
                ),
            ),
            Immediate::I16(x) => Ok(
                Immediate::I16(
                    match op {
                        ShiftOp::Shr => x.wrapping_shr(amt),
                        ShiftOp::Shl => x.wrapping_shl(amt),
                    },
                ),
            ),
            Immediate::U32(x) => Ok(
                Immediate::U32(
                    match op {
                        ShiftOp::Shr => x.wrapping_shr(amt),
                        ShiftOp::Shl => x.wrapping_shl(amt),
                    },
                ),
            ),
            Immediate::I32(x) => Ok(
                Immediate::I32(
                    match op {
                        ShiftOp::Shr => x.wrapping_shr(amt),
                        ShiftOp::Shl => x.wrapping_shl(amt),
                    },
                ),
            ),
            Immediate::U64(x) => Ok(
                Immediate::U64(
                    match op {
                        ShiftOp::Shr => x.wrapping_shr(amt),
                        ShiftOp::Shl => x.wrapping_shl(amt),
                    },
                ),
            ),
            Immediate::I64(x) => Ok(
                Immediate::I64(
                    match op {
                        ShiftOp::Shr => x.wrapping_shr(amt),
                        ShiftOp::Shl => x.wrapping_shl(amt),
                    },
                ),
            ),
            _ => Err(VmError::TypeMismatch),
        }
    }
}

/// Performs one shift instruction: `a` is the shifted register value, `b` the
/// immediate naming the distance.
pub fn shift(op: ShiftOp, a: Immediate, b: Immediate) -> (r: Result<Immediate, VmError>)
    ensures
        r == spec_shift(op, a, b),
{
    match (a, b) {
        (Immediate::U8(x), Immediate::U8(y)) => {
            let amt: u32 = y as u32;
            Ok(
                Immediate::U8(
                    match op {
                        ShiftOp::Shr => x.wrapping_shr(amt),
                        ShiftOp::Shl => x.wrapping_shl(amt),
                    },
                ),
            )
        },
        (Immediate::I8(x), Immediate::I8(y)) => {
            let amt: u32 = #[verifier::truncate] (y as u32);
            Ok(
                Immediate::I8(
                    match op {
                        ShiftOp::Shr => x.wrapping_shr(amt),
                        ShiftOp::Shl => x.wrapping_shl(amt),
                    },
                ),
            )
        },
        (Immediate::U16(x), Immediate::U16(y)) => {
            let amt: u32 = y as u32;
            Ok(
                Immediate::U16(
                    match op {
                        ShiftOp::Shr => x.wrapping_shr(amt),
                        ShiftOp::Shl => x.wrapping_shl(amt),
                    },
                ),
            )
        },
        (Immediate::I16(x), Immediate::I16(y)) => {
            let amt: u32 = #[verifier::truncate] (y as u32);
            Ok(
                Immediate::I16(
                    match op {
                        ShiftOp::Shr => x.wrapping_shr(amt),
                        ShiftOp::Shl => x.wrapping_shl(amt),
                    },
                ),
            )
        },
        (Immediate::U32(x), Immediate::U32(y)) => Ok(
            Immediate::U32(
                match op {
                    ShiftOp::Shr => x.wrapping_shr(y),
                    ShiftOp::Shl => x.wrapping_shl(y),
                },
            ),
        ),
        (Immediate::I32(x), Immediate::I32(y)) => {
            let amt: u32 = #[verifier::truncate] (y as u32);
            Ok(
                Immediate::I32(
                    match op {
                        ShiftOp::Shr => x.wrapping_shr(amt),
                        ShiftOp::Shl => x.wrapping_shl(amt),
                    },
                ),
            )
        },
        (Immediate::U64(x), Immediate::U64(y)) => {
            let amt: u32 = #[verifier::truncate] (y as u32);
            Ok(
                Immediate::U64(
                    match op {
                        ShiftOp::Shr => x.wrapping_shr(amt),
                        ShiftOp::Shl => x.wrapping_shl(amt),
                    },
                ),
            )
        },
        (Immediate::I64(x), Immediate::I64(y)) => {
            let amt: u32 = #[verifier::truncate] (y as u32);
            Ok(
                Immediate::I64(
                    match op {
                        ShiftOp::Shr => x.wrapping_shr(amt),
                        ShiftOp::Shl => x.wrapping_shl(amt),
                    },
                ),
            )
        },
        _ => Err(VmError::TypeMismatch),
    }
}

fn arith_i64(op: ArithOp, x: i64, y: i64) -> (r: Result<i64, VmError>)
    ensures
        r == spec_arith_i64(op, x, y),
{
    match op {
        ArithOp::Add => Ok(x.wrapping_add(y)),
        ArithOp::Sub => Ok(x.wrapping_sub(y)),
        ArithOp::Mul => Ok(x.wrapping_mul(y)),
        ArithOp::Div => if y == 0 {
            Err(VmError::DivByZero)
        } else {
            match x.checked_div(y) {
                Some(v) => Ok(v),
                None => Err(VmError::DivOverflow),
            }
        },
    }
}

} // verus!
