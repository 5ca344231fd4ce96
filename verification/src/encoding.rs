//! The wire format of immediates: one variant tag byte followed by a
//! little-endian payload of zero to eight bytes.
use vstd::bytes::*;
use vstd::prelude::*;

use crate::value::{Immediate, VmError};

verus! {

/// The tag-and-payload encoding of one immediate. The absent marker encodes
/// as the single byte 255, which no real variant uses; each other variant
/// encodes as its tag byte followed by its payload in little-endian order.
pub open spec fn spec_encode_immed(v: Immediate) -> Seq<u8> {
    match v {
        Immediate::Absent => seq![255u8],
        Immediate::U8(x) => seq![0u8, x],
        Immediate::I8(x) => seq![1u8, x as u8],
        Immediate::U16(x) => seq![2u8] + spec_u16_to_le_bytes(x),
        Immediate::I16(x) => seq![3u8] + spec_u16_to_le_bytes(x as u16),
        Immediate::U32(x) => seq![4u8] + spec_u32_to_le_bytes(x),
        Immediate::I32(x) => seq![5u8] + spec_u32_to_le_bytes(x as u32),
        Immediate::U64(x) => seq![6u8] + spec_u64_to_le_bytes(x),
        Immediate::I64(x) => seq![7u8] + spec_u64_to_le_bytes(x as u64),
        Immediate::F32(bits) => seq![8u8] + spec_u32_to_le_bytes(bits),
        Immediate::F64(bits) => seq![9u8] + spec_u64_to_le_bytes(bits),
    }
}

/// Reads one encoded immediate whose tag byte sits at index `i`. Returns the
/// value and the index of the first byte after it. A tag outside the ten
/// known ones decodes to the absent marker and consumes no payload byte; a
/// payload running past the end of memory is a decode failure.
pub open spec fn spec_decode_immed(mem: Seq<u8>, i: int) -> Option<(Immediate, int)> {
    if !(0 <= i < mem.len()) {
        None
    } else {
        let tag = mem[i];
        if tag == 0 {
            if i + 2 <= mem.len() {
                Some((Immediate::U8(mem[i + 1]), i + 2))
            } else {
                None
            }
        } else if tag == 1 {
            if i + 2 <= mem.len() {
                Some((Immediate::I8(mem[i + 1] as i8), i + 2))
            } else {
                None
            }
        } else if tag == 2 {
            if i + 3 <= mem.len() {
                Some((Immediate::U16(spec_u16_from_le_bytes(mem.subrange(i + 1, i + 3))), i + 3))
            } else {
                None
            }
        } else if tag == 3 {
            if i + 3 <= mem.len() {
                Some(
                    (
                        Immediate::I16(spec_u16_from_le_bytes(mem.subrange(i + 1, i + 3)) as i16),
                        i + 3,
                    ),
                )
            } else {
                None
            }
        } else if tag == 4 {
            if i + 5 <= mem.len() {
                Some((Immediate::U32(spec_u32_from_le_bytes(mem.subrange(i + 1, i + 5))), i + 5))
            } else {
                None
            }
        } else if tag == 5 {
            if i + 5 <= mem.len() {
                Some(
                    (
                        Immediate::I32(spec_u32_from_le_bytes(mem.subrange(i + 1, i + 5)) as i32),
                        i + 5,
                    ),
                )
            } else {
                None
            }
        } else if tag == 6 {
            if i + 9 <= mem.len() {
                Some((Immediate::U64(spec_u64_from_le_bytes(mem.subrange(i + 1, i + 9))), i + 9))
            } else {
                None
            }
        } else if tag == 7 {
            if i + 9 <= mem.len() {
                Some(
                    (
                        Immediate::I64(spec_u64_from_le_bytes(mem.subrange(i + 1, i + 9)) as i64),
                        i + 9,
                    ),
                )
            } else {
                None
            }
        } else if tag == 8 {
            if i + 5 <= mem.len() {
                Some((Immediate::F32(spec_u32_from_le_bytes(mem.subrange(i + 1, i + 5))), i + 5))
            } else {
                None
            }
        } else if tag == 9 {
            if i + 9 <= mem.len() {
                Some((Immediate::F64(spec_u64_from_le_bytes(mem.subrange(i + 1, i + 9))), i + 9))
            } else {
                None
            }
        } else {
            Some((Immediate::Absent, i + 1))
        }
    }
}

/// Encodes one immediate into its tag-and-payload bytes.
pub fn encode_immed(v: Immediate) -> (r: Vec<u8>)
    ensures
        r@ == spec_encode_immed(v),
{
    let mut out: Vec<u8> = Vec::new();
    match v {
        Immediate::Absent => {
            out.push(255);
        },
        Immediate::U8(x) => {
            out.push(0);
            out.push(x);
        },
        Immediate::I8(x) => {
            out.push(1);
            out.push(#[verifier::truncate] (x as u8));
        },
        Immediate::U16(x) => {
            out.push(2);
            let mut payload = u16_to_le_bytes(x);
            out.append(&mut payload);
        },
        Immediate::I16(x) => {
            out.push(3);
            let mut payload = u16_to_le_bytes(#[verifier::truncate] (x as u16));
            out.append(&mut payload);
        },
        Immediate::U32(x) => {
            out.push(4);
            let mut payload = u32_to_le_bytes(x);
            out.append(&mut payload);
        },
        Immediate::I32(x) => {
            out.push(5);
            let mut payload = u32_to_le_bytes(#[verifier::truncate] (x as u32));
            out.append(&mut payload);
        },
        Immediate::U64(x) => {
            out.push(6);
            let mut payload = u64_to_le_bytes(x);
            out.append(&mut payload);
        },
        Immediate::I64(x) => {
            out.push(7);
            let mut payload = u64_to_le_bytes(#[verifier::truncate] (x as u64));
            out.append(&mut payload);
        },
        Immediate::F32(bits) => {
            out.push(8);
            let mut payload = u32_to_le_bytes(bits);
            out.append(&mut payload);
        },
        Immediate::F64(bits) => {
            out.push(9);
            let mut payload = u64_to_le_bytes(bits);
            out.append(&mut payload);
        },
    }
    proof {
        assert(out@ =~= spec_encode_immed(v));
    }
    out
}

/// Decodes one immediate whose tag byte sits at index `i` of instruction
/// memory.
pub fn decode_immed(mem: &Vec<u8>, i: usize) -> (r: Result<(Immediate, usize), VmError>)
    ensures
        match spec_decode_immed(mem@, i as int) {
            Some((v, n)) => r == Ok::<(Immediate, usize), VmError>((v, n as usize)),
            None => r == Err::<(Immediate, usize), VmError>(VmError::TruncatedCode),
        },
{
    if i >= mem.len() {
        return Err(VmError::TruncatedCode);
    }
    let tag = mem[i];
    let after_tag = i + 1;
    let remaining = mem.len() - after_tag;
    match tag {
        0 => {
            if remaining >= 1 {
                Ok((Immediate::U8(mem[after_tag]), after_tag + 1))
            } else {
                Err(VmError::TruncatedCode)
            }
        },
        1 => {
            if remaining >= 1 {
                Ok((Immediate::I8(#[verifier::truncate] (mem[after_tag] as i8)), after_tag + 1))
            } else {
                Err(VmError::TruncatedCode)
            }
        },
        2 => {
            if remaining >= 2 {
                let s = vstd::slice::slice_subrange(mem.as_slice(), after_tag, after_tag + 2);
                Ok((Immediate::U16(u16_from_le_bytes(s)), after_tag + 2))
            } else {
                Err(VmError::TruncatedCode)
            }
        },
        3 => {
            if remaining >= 2 {
                let s = vstd::slice::slice_subrange(mem.as_slice(), after_tag, after_tag + 2);
                let x = u16_from_le_bytes(s);
                Ok((Immediate::I16(#[verifier::truncate] (x as i16)), after_tag + 2))
            } else {
                Err(VmError::TruncatedCode)
            }
        },
        4 => {
            if remaining >= 4 {
                let s = vstd::slice::slice_subrange(mem.as_slice(), after_tag, after_tag + 4);
                Ok((Immediate::U32(u32_from_le_bytes(s)), after_tag + 4))
            } else {
                Err(VmError::TruncatedCode)
            }
        },
        5 => {
            if remaining >= 4 {
                let s = vstd::slice::slice_subrange(mem.as_slice(), after_tag, after_tag + 4);
                let x = u32_from_le_bytes(s);
                Ok((Immediate::I32(#[verifier::truncate] (x as i32)), after_tag + 4))
            } else {
                Err(VmError::TruncatedCode)
            }
        },
        6 => {
            if remaining >= 8 {
                let s = vstd::slice::slice_subrange(mem.as_slice(), after_tag, after_tag + 8);
                Ok((Immediate::U64(u64_from_le_bytes(s)), after_tag + 8))
            } else {
                Err(VmError::TruncatedCode)
            }
        },
        7 => {
            if remaining >= 8 {
                let s = vstd::slice::slice_subrange(mem.as_slice(), after_tag, after_tag + 8);
                let x = u64_from_le_bytes(s);
                Ok((Immediate::I64(#[verifier::truncate] (x as i64)), after_tag + 8))
            } else {
                Err(VmError::TruncatedCode)
            }
        },
        8 => {
            if remaining >= 4 {
                let s = vstd::slice::slice_subrange(mem.as_slice(), after_tag, after_tag + 4);
                Ok((Immediate::F32(u32_from_le_bytes(s)), after_tag + 4))
            } else {
                Err(VmError::TruncatedCode)
            }
        },
        9 => {
            if remaining >= 8 {
                let s = vstd::slice::slice_subrange(mem.as_slice(), after_tag, after_tag + 8);
                Ok((Immediate::F64(u64_from_le_bytes(s)), after_tag + 8))
            } else {
                Err(VmError::TruncatedCode)
            }
        },
        _ => Ok((Immediate::Absent, after_tag)),
    }
}

/// Every immediate survives the encode-then-decode round trip, wherever its
/// bytes sit in memory: decoding at the start of its encoding, whatever
/// stands before it and whatever follows, yields the value back and stops
/// exactly at the following bytes.
pub proof fn lemma_immed_round_trip_at(v: Immediate, pre: Seq<u8>, rest: Seq<u8>)
    ensures
        spec_decode_immed(pre + spec_encode_immed(v) + rest, pre.len() as int) == Some(
            (v, (pre.len() + spec_encode_immed(v).len()) as int),
        ),
{
    let enc = spec_encode_immed(v);
    let mem = pre + enc + rest;
    let i = pre.len() as int;
    lemma_auto_spec_u16_to_from_le_bytes();
    lemma_auto_spec_u32_to_from_le_bytes();
    lemma_auto_spec_u64_to_from_le_bytes();
    assert(mem[i] == enc[0]);
    match v {
        Immediate::Absent => {},
        Immediate::U8(x) => {
            assert(mem[i + 1] == enc[1]);
        },
        Immediate::I8(x) => {
            assert(mem[i + 1] == enc[1]);
            assert(((x as u8) as i8) == x) by (bit_vector);
        },
        Immediate::U16(x) => {
            assert(mem.subrange(i + 1, i + 3) =~= spec_u16_to_le_bytes(x));
        },
        Immediate::I16(x) => {
            assert(mem.subrange(i + 1, i + 3) =~= spec_u16_to_le_bytes(x as u16));
            assert(((x as u16) as i16) == x) by (bit_vector);
        },
        Immediate::U32(x) => {
            assert(mem.subrange(i + 1, i + 5) =~= spec_u32_to_le_bytes(x));
        },
        Immediate::I32(x) => {
            assert(mem.subrange(i + 1, i + 5) =~= spec_u32_to_le_bytes(x as u32));
            assert(((x as u32) as i32) == x) by (bit_vector);
        },
        Immediate::U64(x) => {
            assert(mem.subrange(i + 1, i + 9) =~= spec_u64_to_le_bytes(x));
        },
        Immediate::I64(x) => {
            assert(mem.subrange(i + 1, i + 9) =~= spec_u64_to_le_bytes(x as u64));
            assert(((x as u64) as i64) == x) by (bit_vector);
        },
        Immediate::F32(bits) => {
            assert(mem.subrange(i + 1, i + 5) =~= spec_u32_to_le_bytes(bits));
        },
        Immediate::F64(bits) => {
            assert(mem.subrange(i + 1, i + 9) =~= spec_u64_to_le_bytes(bits));
        },
    }
}

/// The round trip at the very start of memory.
pub proof fn lemma_immed_round_trip(v: Immediate, rest: Seq<u8>)
    ensures
        spec_decode_immed(spec_encode_immed(v) + rest, 0) == Some(
            (v, spec_encode_immed(v).len() as int),
        ),
{
    lemma_immed_round_trip_at(v, Seq::empty(), rest);
    assert(Seq::<u8>::empty() + spec_encode_immed(v) + rest =~= spec_encode_immed(v) + rest);
}

/// A tag byte outside the ten known ones yields the absent marker and leaves
/// the cursor on the byte right after the tag: no payload is consumed.
pub proof fn lemma_unknown_tag_consumes_nothing(mem: Seq<u8>, i: int)
    requires
        0 <= i < mem.len(),
        mem[i] > 9,
    ensures
        spec_decode_immed(mem, i) == Some((Immediate::Absent, i + 1)),
{
}

} // verus!
