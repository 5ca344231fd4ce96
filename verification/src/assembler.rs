//! The assembler: a single-pass translator from whitespace-delimited source
//! text to the byte stream the machine executes, with a deferred label-patch
//! pass. Float literals are carried as patch slots whose text the host's
//! float unit turns into bits; everything else is emitted outright.
use vstd::prelude::*;

use crate::encoding::spec_encode_immed;
use crate::encoding::encode_immed;
use crate::value::Immediate;

verus! {

/// A fault that ends assembly.
#[derive(Clone, PartialEq, Eq, Debug)]
pub enum AsmError {
    /// A token where an instruction was expected names no opcode.
    UnknownOpcode(Vec<char>),
    /// The operand after the opcode is not a register of the form `R<n>`
    /// with `n` in the file's range of sixteen slots.
    ExpectedRegister,
    /// The operand after the opcode is not a plain decimal address or
    /// interrupt number within the single byte it is emitted as.
    ExpectedAddress,
    /// The operand after the opcode has not the shape of an immediate
    /// literal.
    ExpectedImmediate,
    /// The immediate literal's magnitude does not parse in its kind's range.
    BadImmediate,
    /// A symbolic jump names a label that no declaration defines.
    UnknownLabel(Vec<char>),
}

/// The mathematical shape of an assembly fault.
pub enum AsmErrorView {
    UnknownOpcode(Seq<char>),
    ExpectedRegister,
    ExpectedAddress,
    ExpectedImmediate,
    BadImmediate,
    UnknownLabel(Seq<char>),
}

impl View for AsmError {
    type V = AsmErrorView;

    open spec fn view(&self) -> AsmErrorView {
        match self {
            AsmError::UnknownOpcode(t) => AsmErrorView::UnknownOpcode(t@),
            AsmError::ExpectedRegister => AsmErrorView::ExpectedRegister,
            AsmError::ExpectedAddress => AsmErrorView::ExpectedAddress,
            AsmError::ExpectedImmediate => AsmErrorView::ExpectedImmediate,
            AsmError::BadImmediate => AsmErrorView::BadImmediate,
            AsmError::UnknownLabel(t) => AsmErrorView::UnknownLabel(t@),
        }
    }
}

/// Where a float literal's payload bytes sit in the assembled stream, and
/// the literal they came from. The assembler leaves the payload zeroed; the
/// host parses `text`, negates the value if `neg`, and writes the bit
/// pattern back through `patch_float_payload`.
#[derive(Clone, PartialEq, Eq, Debug)]
pub struct FloatSlot {
    /// Index of the payload's first byte in the assembled stream.
    pub offset: usize,
    /// True for a 64-bit literal, false for a 32-bit one.
    pub wide: bool,
    /// True when the literal carried a leading minus.
    pub neg: bool,
    /// The magnitude text after the `$`.
    pub text: Vec<char>,
}

/// The mathematical shape of a float slot.
pub struct FloatSlotView {
    pub offset: nat,
    pub wide: bool,
    pub neg: bool,
    pub text: Seq<char>,
}

impl View for FloatSlot {
    type V = FloatSlotView;

    open spec fn view(&self) -> FloatSlotView {
        FloatSlotView { offset: self.offset as nat, wide: self.wide, neg: self.neg, text: self.text@ }
    }
}

/// The character under the cursor, with everything at or past the end of the
/// source reading as the NUL sentinel.
pub open spec fn at_char(src: Seq<char>, i: nat) -> char {
    if i < src.len() {
        src[i as int]
    } else {
        '\0'
    }
}

/// The four whitespace characters that separate tokens.
pub open spec fn spec_is_ws(c: char) -> bool {
    c == ' ' || c == '\t' || c == '\r' || c == '\n'
}

/// The index of the first character at or after `i` that ends a token: a
/// whitespace character or the NUL sentinel.
pub open spec fn token_end(src: Seq<char>, i: nat) -> nat
    decreases src.len() - i,
{
    if i >= src.len() {
        i
    } else if src[i as int] == '\0' || spec_is_ws(src[i as int]) {
        i
    } else {
        token_end(src, i + 1)
    }
}

/// The index of the first character at or after `i` that is not whitespace.
pub open spec fn skip_ws(src: Seq<char>, i: nat) -> nat
    decreases src.len() - i,
{
    if i >= src.len() {
        i
    } else if spec_is_ws(src[i as int]) {
        skip_ws(src, i + 1)
    } else {
        i
    }
}

/// The token that starts at `i`.
pub open spec fn spec_token(src: Seq<char>, i: nat) -> Seq<char> {
    src.subrange(i as int, token_end(src, i) as int)
}

/// The cursor after reading the token at `i` and the whitespace behind it.
pub open spec fn spec_after_token(src: Seq<char>, i: nat) -> nat {
    skip_ws(src, token_end(src, i))
}

/// The token scan stays inside the source and never moves backwards.
pub proof fn lemma_token_bounds(src: Seq<char>, i: nat)
    ensures
        i <= token_end(src, i),
        token_end(src, i) <= vstd::math::max(i as int, src.len() as int),
        token_end(src, i) <= spec_after_token(src, i),
        spec_after_token(src, i) <= vstd::math::max(i as int, src.len() as int),
        at_char(src, i) != '\0' && !spec_is_ws(at_char(src, i)) ==> token_end(src, i) >= i + 1,
    decreases src.len() - i,
{
    lemma_skip_ws_bounds(src, token_end(src, i));
    if i >= src.len() {
    } else if src[i as int] == '\0' || spec_is_ws(src[i as int]) {
    } else {
        lemma_token_bounds(src, i + 1);
    }
}

/// The whitespace scan stays inside the source and never moves backwards.
pub proof fn lemma_skip_ws_bounds(src: Seq<char>, i: nat)
    ensures
        i <= skip_ws(src, i),
        skip_ws(src, i) <= vstd::math::max(i as int, src.len() as int),
    decreases src.len() - i,
{
    if i >= src.len() {
    } else if spec_is_ws(src[i as int]) {
        lemma_skip_ws_bounds(src, i + 1);
    } else {
    }
}

/// A decimal digit.
pub open spec fn spec_is_digit(c: char) -> bool {
    '0' <= c && c <= '9'
}

/// The digits of `ds` from index `i` on, folded onto `acc`, refusing any
/// non-digit and any value above `max` — the reading a decimal integer
/// parser performs.
pub open spec fn spec_parse_digits(ds: Seq<char>, i: nat, acc: nat, max: nat) -> Option<nat>
    decreases ds.len() - i,
{
    if i >= ds.len() {
        Some(acc)
    } else if !spec_is_digit(ds[i as int]) {
        None
    } else {
        let a2 = acc * 10 + ((ds[i as int] as nat - 48) as nat);
        if a2 > max {
            None
        } else {
            spec_parse_digits(ds, i + 1, a2, max)
        }
    }
}

/// An unsigned decimal literal: an optional leading plus, then at least one
/// digit, no larger than `max`.
pub open spec fn spec_parse_unsigned(tok: Seq<char>, max: nat) -> Option<nat> {
    if tok.len() == 0 {
        None
    } else if tok[0] == '+' {
        if tok.len() == 1 {
            None
        } else {
            spec_parse_digits(tok, 1, 0, max)
        }
    } else {
        spec_parse_digits(tok, 0, 0, max)
    }
}

/// A signed decimal literal: an optional sign, then at least one digit,
/// within `min ..= max`.
pub open spec fn spec_parse_signed(tok: Seq<char>, min: int, max: int) -> Option<int> {
    if tok.len() == 0 {
        None
    } else if tok[0] == '-' {
        if tok.len() == 1 {
            None
        } else {
            match spec_parse_digits(tok, 1, 0, (-min) as nat) {
                Some(v) => Some(-(v as int)),
                None => None,
            }
        }
    } else if tok[0] == '+' {
        if tok.len() == 1 {
            None
        } else {
            match spec_parse_digits(tok, 1, 0, max as nat) {
                Some(v) => Some(v as int),
                None => None,
            }
        }
    } else {
        match spec_parse_digits(tok, 0, 0, max as nat) {
            Some(v) => Some(v as int),
            None => None,
        }
    }
}

/// A parsed immediate literal: an integer ready to encode, or a float whose
/// text awaits the host's float unit.
pub enum ImmTokenView {
    Int(Immediate),
    Float { wide: bool, neg: bool, text: Seq<char> },
}

/// A register operand: `R` followed by a decimal index naming one of the
/// sixteen slots. A larger index is no register at all — the file has no
/// such slot to name.
pub open spec fn spec_parse_reg(tok: Seq<char>) -> Option<nat> {
    if tok.len() < 2 || tok[0] != 'R' {
        None
    } else {
        spec_parse_unsigned(tok.subrange(1, tok.len() as int), 15)
    }
}

/// A raw address or interrupt-number operand: a plain decimal that fits the
/// single byte it is emitted as. A larger value is no address at all.
pub open spec fn spec_parse_addr(tok: Seq<char>) -> Option<nat> {
    spec_parse_unsigned(tok, 255)
}

/// The index of the first `$` in `s` at or after `i`.
pub open spec fn find_dollar(s: Seq<char>, i: nat) -> Option<nat>
    decreases s.len() - i,
{
    if i >= s.len() {
        None
    } else if s[i as int] == '$' {
        Some(i)
    } else {
        find_dollar(s, i + 1)
    }
}

/// The value of an immediate literal whose kind and magnitude text have been
/// separated: unsigned kinds refuse a leading minus upstream, signed kinds
/// negate when the literal carried one, and float kinds keep their text for
/// the host. A kind outside the ten is no immediate at all; a magnitude
/// outside its kind's range is one that fails to parse.
pub open spec fn spec_immed_of_kind(kind: Seq<char>, rest: Seq<char>, neg: bool) -> Result<
    ImmTokenView,
    AsmErrorView,
> {
    if kind == "u8"@ {
        match spec_parse_unsigned(rest, 255) {
            Some(v) => Ok(ImmTokenView::Int(Immediate::U8(v as u8))),
            None => Err(AsmErrorView::BadImmediate),
        }
    } else if kind == "u16"@ {
        match spec_parse_unsigned(rest, 0xFFFF) {
            Some(v) => Ok(ImmTokenView::Int(Immediate::U16(v as u16))),
            None => Err(AsmErrorView::BadImmediate),
        }
    } else if kind == "u32"@ {
        match spec_parse_unsigned(rest, 0xFFFF_FFFF) {
            Some(v) => Ok(ImmTokenView::Int(Immediate::U32(v as u32))),
            None => Err(AsmErrorView::BadImmediate),
        }
    } else if kind == "u64"@ {
        match spec_parse_unsigned(rest, 0xFFFF_FFFF_FFFF_FFFF) {
            Some(v) => Ok(ImmTokenView::Int(Immediate::U64(v as u64))),
            None => Err(AsmErrorView::BadImmediate),
        }
    } else if kind == "i8"@ {
        match spec_parse_signed(rest, -128, 127) {
            Some(v) => {
                let v2 = if neg {
                    -v
                } else {
                    v
                };
                if v2 < -128 || v2 > 127 {
                    Err(AsmErrorView::BadImmediate)
                } else {
                    Ok(ImmTokenView::Int(Immediate::I8(v2 as i8)))
                }
            },
            None => Err(AsmErrorView::BadImmediate),
        }
    } else if kind == "i16"@ {
        match spec_parse_signed(rest, -0x8000, 0x7FFF) {
            Some(v) => {
                let v2 = if neg {
                    -v
                } else {
                    v
                };
                if v2 < -0x8000 || v2 > 0x7FFF {
                    Err(AsmErrorView::BadImmediate)
                } else {
                    Ok(ImmTokenView::Int(Immediate::I16(v2 as i16)))
                }
            },
            None => Err(AsmErrorView::BadImmediate),
        }
    } else if kind == "i32"@ {
        match spec_parse_signed(rest, -0x8000_0000, 0x7FFF_FFFF) {
            Some(v) => {
                let v2 = if neg {
                    -v
                } else {
                    v
                };
                if v2 < -0x8000_0000 || v2 > 0x7FFF_FFFF {
                    Err(AsmErrorView::BadImmediate)
                } else {
                    Ok(ImmTokenView::Int(Immediate::I32(v2 as i32)))
                }
            },
            None => Err(AsmErrorView::BadImmediate),
        }
    } else if kind == "i64"@ {
        match spec_parse_signed(rest, -0x8000_0000_0000_0000, 0x7FFF_FFFF_FFFF_FFFF) {
            Some(v) => {
                let v2 = if neg {
                    -v
                } else {
                    v
                };
                if v2 < -0x8000_0000_0000_0000 || v2 > 0x7FFF_FFFF_FFFF_FFFF {
                    Err(AsmErrorView::BadImmediate)
                } else {
                    Ok(ImmTokenView::Int(Immediate::I64(v2 as i64)))
                }
            },
            None => Err(AsmErrorView::BadImmediate),
        }
    } else if kind == "f32"@ {
        if rest.len() == 0 {
            Err(AsmErrorView::BadImmediate)
        } else {
            Ok(ImmTokenView::Float { wide: false, neg, text: rest })
        }
    } else if kind == "f64"@ {
        if rest.len() == 0 {
            Err(AsmErrorView::BadImmediate)
        } else {
            Ok(ImmTokenView::Float { wide: true, neg, text: rest })
        }
    } else {
        Err(AsmErrorView::ExpectedImmediate)
    }
}

/// An immediate literal token: `[-]<kind>$<magnitude>`, at least four
/// characters, with the minus only on signed and float kinds.
pub open spec fn spec_parse_immed(tok: Seq<char>) -> Result<ImmTokenView, AsmErrorView> {
    if tok.len() < 4 {
        Err(AsmErrorView::ExpectedImmediate)
    } else {
        let neg = tok[0] == '-';
        let t0 = if neg {
            tok.subrange(1, tok.len() as int)
        } else {
            tok
        };
        let t = t0[0];
        if t != 'i' && t != 'u' && t != 'f' {
            Err(AsmErrorView::ExpectedImmediate)
        } else if t == 'u' && neg {
            Err(AsmErrorView::ExpectedImmediate)
        } else {
            match find_dollar(t0, 1) {
                None => Err(AsmErrorView::ExpectedImmediate),
                Some(d) => spec_immed_of_kind(
                    t0.subrange(0, d as int),
                    t0.subrange(d as int + 1, t0.len() as int),
                    neg,
                ),
            }
        }
    }
}

/// The assembler's whole state, as the contracts speak of it.
#[verifier::ext_equal]
pub struct AsmView {
    /// The source text, fixed at construction.
    pub src: Seq<char>,
    /// The cursor into the source.
    pub i: nat,
    /// The bytes emitted so far, placeholder address bytes not yet among
    /// them.
    pub out: Seq<u8>,
    /// Each label declaration seen, with the byte offset it names; a later
    /// declaration of the same name wins.
    pub labels: Seq<(Seq<char>, nat)>,
    /// The deferred address bytes: each symbolic jump's patch position and
    /// label name, in source order.
    pub patches: Seq<(nat, Seq<char>)>,
    /// The float literals awaiting the host's bits, in source order.
    pub slots: Seq<FloatSlotView>,
}

/// The width in bytes of a slot's payload.
pub open spec fn slot_width(s: FloatSlotView) -> nat {
    if s.wide {
        8
    } else {
        4
    }
}

impl AsmView {
    /// The byte offset of the next byte to be written, placeholder address
    /// bytes included: the emit cursor's accounting.
    pub open spec fn bit(self) -> nat {
        self.out.len() + self.patches.len()
    }

    /// Bookkeeping soundness: every recorded patch position points at or
    /// before the end the stream will have when its turn comes, and every
    /// float slot's payload lies inside the emitted bytes.
    pub open spec fn wf(self) -> bool {
        &&& self.i <= self.src.len()
        &&& (forall|k: int|
            0 <= k < self.patches.len() ==> 1 <= (#[trigger] self.patches[k]).0
                <= self.out.len() + k + 1)
        &&& (forall|k: int|
            0 <= k < self.slots.len() ==> (#[trigger] self.slots[k]).offset + slot_width(
                self.slots[k],
            ) <= self.out.len())
    }
}

/// `n` zeroed payload bytes.
pub open spec fn zero_bytes(n: nat) -> Seq<u8> {
    Seq::new(n, |j: int| 0u8)
}

/// The bytes an immediate literal contributes to the stream: the encoding of
/// an integer, or the float tag over a zeroed payload.
pub open spec fn spec_immed_bytes(imm: ImmTokenView) -> Seq<u8> {
    match imm {
        ImmTokenView::Int(v) => spec_encode_immed(v),
        ImmTokenView::Float { wide, .. } => if wide {
            seq![9u8] + zero_bytes(8)
        } else {
            seq![8u8] + zero_bytes(4)
        },
    }
}

/// The slots an immediate literal contributes, its payload starting at
/// `payload_pos`.
pub open spec fn spec_immed_slots(imm: ImmTokenView, payload_pos: nat) -> Seq<FloatSlotView> {
    match imm {
        ImmTokenView::Int(_) => Seq::empty(),
        ImmTokenView::Float { wide, neg, text } => seq![
            FloatSlotView { offset: payload_pos, wide, neg, text },
        ],
    }
}

/// An instruction of opcode byte `code` and no operands, the cursor already
/// past its token.
pub open spec fn step_no_arg(w: AsmView, code: u8) -> AsmView {
    AsmView { out: w.out.push(code), ..w }
}

/// An instruction of one register operand, the cursor on the operand.
pub open spec fn step_reg_arg(w: AsmView, code: u8) -> Result<AsmView, AsmErrorView> {
    let tok = spec_token(w.src, w.i);
    let j2 = spec_after_token(w.src, w.i);
    match spec_parse_reg(tok) {
        None => Err(AsmErrorView::ExpectedRegister),
        Some(r) => Ok(AsmView { i: j2, out: w.out.push(code).push(r as u8), ..w }),
    }
}

/// An instruction of one raw address (or interrupt number) operand.
pub open spec fn step_addr_arg(w: AsmView, code: u8) -> Result<AsmView, AsmErrorView> {
    let tok = spec_token(w.src, w.i);
    let j2 = spec_after_token(w.src, w.i);
    match spec_parse_addr(tok) {
        None => Err(AsmErrorView::ExpectedAddress),
        Some(a) => Ok(AsmView { i: j2, out: w.out.push(code).push(a as u8), ..w }),
    }
}

/// An instruction of two register operands.
pub open spec fn step_two_reg(w: AsmView, code: u8) -> Result<AsmView, AsmErrorView> {
    let tok1 = spec_token(w.src, w.i);
    let j2 = spec_after_token(w.src, w.i);
    match spec_parse_reg(tok1) {
        None => Err(AsmErrorView::ExpectedRegister),
        Some(a) => {
            let tok2 = spec_token(w.src, j2);
            let j3 = spec_after_token(w.src, j2);
            match spec_parse_reg(tok2) {
                None => Err(AsmErrorView::ExpectedRegister),
                Some(b) => Ok(
                    AsmView { i: j3, out: w.out.push(code).push(a as u8).push(b as u8), ..w },
                ),
            }
        },
    }
}

/// A symbolic jump: the opcode byte goes out now, the address byte is only
/// accounted for — recorded as a patch to insert once the label's position
/// is known.
pub open spec fn step_sym_jump(w: AsmView, code: u8) -> AsmView {
    let name = spec_token(w.src, w.i);
    let j2 = spec_after_token(w.src, w.i);
    AsmView {
        i: j2,
        out: w.out.push(code),
        patches: w.patches.push(((w.out.len() + w.patches.len() + 2) as nat, name)),
        ..w
    }
}

/// PUSH: the opcode byte, then the immediate's tag and payload.
pub open spec fn step_push_imm(w: AsmView) -> Result<AsmView, AsmErrorView> {
    let tok = spec_token(w.src, w.i);
    let j2 = spec_after_token(w.src, w.i);
    match spec_parse_immed(tok) {
        Err(e) => Err(e),
        Ok(imm) => Ok(
            AsmView {
                i: j2,
                out: w.out.push(3u8) + spec_immed_bytes(imm),
                slots: w.slots + spec_immed_slots(imm, w.out.len() + 2),
                ..w
            },
        ),
    }
}

/// LDI and the shifts: the opcode byte, a register byte, then the
/// immediate's tag and payload.
pub open spec fn step_reg_imm(w: AsmView, code: u8) -> Result<AsmView, AsmErrorView> {
    let tok1 = spec_token(w.src, w.i);
    let j2 = spec_after_token(w.src, w.i);
    match spec_parse_reg(tok1) {
        None => Err(AsmErrorView::ExpectedRegister),
        Some(r) => {
            let tok2 = spec_token(w.src, j2);
            let j3 = spec_after_token(w.src, j2);
            match spec_parse_immed(tok2) {
                Err(e) => Err(e),
                Ok(imm) => Ok(
                    AsmView {
                        i: j3,
                        out: w.out.push(code).push(r as u8) + spec_immed_bytes(imm),
                        slots: w.slots + spec_immed_slots(imm, w.out.len() + 3),
                        ..w
                    },
                ),
            }
        },
    }
}

/// One pass of the assembler's instruction loop: a label declaration records
/// the cursor's byte offset under the name; anything else must be an opcode
/// token followed by its operands.
#[verifier::opaque]
pub open spec fn spec_asm_step(v: AsmView) -> Result<AsmView, AsmErrorView> {
    if at_char(v.src, v.i) == '.' {
        let j = (v.i + 1) as nat;
        let name = spec_token(v.src, j);
        let j2 = spec_after_token(v.src, j);
        Ok(AsmView { i: j2, labels: v.labels.push((name, v.bit())), ..v })
    } else {
        let tok = spec_token(v.src, v.i);
        let w = AsmView { i: spec_after_token(v.src, v.i), ..v };
        if tok == "_"@ {
            Ok(step_no_arg(w, 0))
        } else if tok == "hlt"@ {
            Ok(step_no_arg(w, 1))
        } else if tok == "int"@ {
            step_addr_arg(w, 2)
        } else if tok == "$"@ {
            step_push_imm(w)
        } else if tok == "$$"@ {
            step_reg_arg(w, 4)
        } else if tok == "%"@ {
            step_reg_arg(w, 5)
        } else if tok == "@"@ {
            step_reg_imm(w, 6)
        } else if tok == ":"@ {
            step_two_reg(w, 7)
        } else if tok == "//"@ {
            Ok(step_sym_jump(w, 8))
        } else if tok == "/="@ {
            Ok(step_sym_jump(w, 9))
        } else if tok == "/!"@ {
            Ok(step_sym_jump(w, 10))
        } else if tok == "/>"@ {
            Ok(step_sym_jump(w, 11))
        } else if tok == "/<"@ {
            Ok(step_sym_jump(w, 12))
        } else if tok == "//R"@ {
            step_addr_arg(w, 8)
        } else if tok == "/=R"@ {
            step_addr_arg(w, 9)
        } else if tok == "/!R"@ {
            step_addr_arg(w, 10)
        } else if tok == "/>R"@ {
            step_addr_arg(w, 11)
        } else if tok == "/<R"@ {
            step_addr_arg(w, 12)
        } else if tok == "="@ {
            step_two_reg(w, 13)
        } else if tok == "+"@ {
            step_two_reg(w, 14)
        } else if tok == "-"@ {
            step_two_reg(w, 15)
        } else if tok == "*"@ {
            step_two_reg(w, 16)
        } else if tok == "/"@ {
            step_two_reg(w, 17)
        } else if tok == "&"@ {
            step_two_reg(w, 18)
        } else if tok == "|"@ {
            step_two_reg(w, 19)
        } else if tok == "^"@ {
            step_two_reg(w, 20)
        } else if tok == ">"@ {
            step_reg_imm(w, 21)
        } else if tok == "<"@ {
            step_reg_imm(w, 22)
        } else if tok == "str"@ {
            step_addr_arg(w, 23)
        } else if tok == "strR"@ {
            step_reg_arg(w, 24)
        } else if tok == "ld"@ {
            step_addr_arg(w, 25)
        } else if tok == "ldR"@ {
            step_reg_arg(w, 26)
        } else {
            Err(AsmErrorView::UnknownOpcode(tok))
        }
    }
}

/// The assembler's instruction loop from state `v` to the NUL sentinel. A
/// pass that consumed nothing cannot arise — each one reads at least one
/// character — and the guard below only keeps the recursion well founded.
pub open spec fn spec_assemble_from(v: AsmView) -> Result<AsmView, AsmErrorView>
    decreases v.src.len() - v.i,
{
    if at_char(v.src, v.i) == '\0' {
        Ok(v)
    } else {
        match spec_asm_step(v) {
            Err(e) => Err(e),
            Ok(v2) => if v2.src == v.src && v.i < v2.i && v2.i <= v2.src.len() {
                spec_assemble_from(v2)
            } else {
                Err(AsmErrorView::UnknownOpcode(spec_token(v.src, v.i)))
            },
        }
    }
}

/// The byte offset a label name resolves to: that of its last declaration.
pub open spec fn lookup_label(labels: Seq<(Seq<char>, nat)>, name: Seq<char>) -> Option<nat>
    decreases labels.len(),
{
    if labels.len() == 0 {
        None
    } else if labels.last().0 == name {
        Some(labels.last().1)
    } else {
        lookup_label(labels.drop_last(), name)
    }
}

/// Slot offsets after a byte is inserted at `q`: every payload at or past
/// the insertion point moves one byte to the right.
pub open spec fn spec_bump_slots(slots: Seq<FloatSlotView>, q: nat) -> Seq<FloatSlotView> {
    slots.map_values(
        |s: FloatSlotView|
            if s.offset >= q {
                FloatSlotView { offset: (s.offset + 1) as nat, ..s }
            } else {
                s
            },
    )
}

/// The patch pass from patch `k` on: each deferred address byte is the
/// label's recorded offset truncated to one byte, inserted one position
/// before the patch's accounting mark. An unknown name is fatal.
pub open spec fn spec_apply_patches(
    out: Seq<u8>,
    slots: Seq<FloatSlotView>,
    patches: Seq<(nat, Seq<char>)>,
    labels: Seq<(Seq<char>, nat)>,
    k: nat,
) -> Result<(Seq<u8>, Seq<FloatSlotView>), AsmErrorView>
    decreases patches.len() - k,
{
    if k >= patches.len() {
        Ok((out, slots))
    } else {
        let (pos, name) = patches[k as int];
        match lookup_label(labels, name) {
            None => Err(AsmErrorView::UnknownLabel(name)),
            Some(target) => {
                let q = (pos - 1) as nat;
                spec_apply_patches(
                    out.insert(q as int, target as u8),
                    spec_bump_slots(slots, q),
                    patches,
                    labels,
                    k + 1,
                )
            },
        }
    }
}

/// The assembler's initial state over a source text.
pub open spec fn spec_asm_init(src: Seq<char>) -> AsmView {
    AsmView {
        src,
        i: 0,
        out: Seq::empty(),
        labels: Seq::empty(),
        patches: Seq::empty(),
        slots: Seq::empty(),
    }
}

/// What assembling a source text yields: the instruction loop, then the
/// label-patch pass, then the trailing HLT byte — together with the float
/// slots awaiting the host's bits.
pub open spec fn spec_assemble(src: Seq<char>) -> Result<
    (Seq<u8>, Seq<FloatSlotView>),
    AsmErrorView,
> {
    spec_assemble_result(spec_asm_init(src))
}

/// The remainder of assembly from state `v`: the rest of the instruction
/// loop, the patch pass, and the trailing HLT byte.
pub open spec fn spec_assemble_result(v: AsmView) -> Result<
    (Seq<u8>, Seq<FloatSlotView>),
    AsmErrorView,
> {
    match spec_assemble_from(v) {
        Err(e) => Err(e),
        Ok(v2) => match spec_apply_patches(v2.out, v2.slots, v2.patches, v2.labels, 0) {
            Err(e) => Err(e),
            Ok((out2, slots2)) => Ok((out2.push(1u8), slots2)),
        },
    }
}

/// A parsed immediate literal, as the instruction emitters consume it.
pub enum ImmToken {
    /// An integer, ready to encode.
    Int(Immediate),
    /// A float literal: its payload stays zeroed until the host supplies the
    /// bits for `text`, negated when `neg`.
    Float { wide: bool, neg: bool, text: Vec<char> },
}

impl View for ImmToken {
    type V = ImmTokenView;

    open spec fn view(&self) -> ImmTokenView {
        match self {
            ImmToken::Int(v) => ImmTokenView::Int(*v),
            ImmToken::Float { wide, neg, text } => ImmTokenView::Float {
                wide: *wide,
                neg: *neg,
                text: text@,
            },
        }
    }
}

/// The assembler: construct it over a source text with `new`, call
/// `assemble` once for the byte stream, and serve any `float_slots` before
/// running the result.
pub struct Assembler {
    src: Vec<char>,
    i: usize,
    out: Vec<u8>,
    labels: Vec<(Vec<char>, u128)>,
    patches: Vec<(u128, Vec<char>)>,
    slots: Vec<FloatSlot>,
}

impl View for Assembler {
    type V = AsmView;

    closed spec fn view(&self) -> AsmView {
        AsmView {
            src: self.src@,
            i: self.i as nat,
            out: self.out@,
            labels: Seq::new(
                self.labels@.len(),
                |k: int| (self.labels@[k].0@, self.labels@[k].1 as nat),
            ),
            patches: Seq::new(
                self.patches@.len(),
                |k: int| (self.patches@[k].0 as nat, self.patches@[k].1@),
            ),
            slots: Seq::new(self.slots@.len(), |k: int| self.slots@[k]@),
        }
    }
}

/// Compares a token against a literal string.
fn tok_eq_str(tok: &Vec<char>, s: &str) -> (r: bool)
    ensures
        r == (tok@ == s@),
{
    let n = s.unicode_len();
    if tok.len() != n {
        return false;
    }
    let mut k: usize = 0;
    while k < n
        invariant
            k <= n,
            n == s@.len(),
            tok@.len() == n,
            forall|m: int| 0 <= m < k ==> tok@[m] == s@[m],
        decreases n - k,
    {
        if tok[k] != s.get_char(k) {
            return false;
        }
        k = k + 1;
    }
    proof {
        assert(tok@ =~= s@);
    }
    true
}

/// The tail of a token from index `k` on.
fn tail_from(tok: &Vec<char>, k: usize) -> (r: Vec<char>)
    requires
        k <= tok@.len(),
    ensures
        r@ == tok@.subrange(k as int, tok@.len() as int),
{
    let mut r: Vec<char> = Vec::new();
    let mut m = k;
    while m < tok.len()
        invariant
            k <= m <= tok@.len(),
            r@ == tok@.subrange(k as int, m as int),
        decreases tok@.len() - m,
    {
        r.push(tok[m]);
        m = m + 1;
        proof {
            assert(r@ =~= tok@.subrange(k as int, m as int));
        }
    }
    proof {
        assert(r@ =~= tok@.subrange(k as int, tok@.len() as int));
    }
    r
}

/// Parses an unsigned decimal token no larger than `max`.
fn parse_unsigned(tok: &Vec<char>, max: u64) -> (r: Option<u64>)
    ensures
        match spec_parse_unsigned(tok@, max as nat) {
            Some(v) => v <= max && r == Some(v as u64),
            None => r is None,
        },
{
    let start: usize = if tok.len() > 0 && tok[0] == '+' {
        1
    } else {
        0
    };
    if tok.len() == start {
        return None;
    }
    let ghost t = tok@;
    let mut acc: u64 = 0;
    let mut k = start;
    while k < tok.len()
        invariant
            start <= k <= t.len(),
            tok@ == t,
            acc <= max,
            spec_parse_unsigned(t, max as nat) == spec_parse_digits(
                t,
                k as nat,
                acc as nat,
                max as nat,
            ),
        decreases t.len() - k,
    {
        let c = tok[k];
        if !(c >= '0' && c <= '9') {
            return None;
        }
        let d = (c as u32) - 48;
        let a2 = match acc.checked_mul(10) {
            None => {
                return None;
            },
            Some(m) => match m.checked_add(d as u64) {
                None => {
                    return None;
                },
                Some(a) => a,
            },
        };
        if a2 > max {
            return None;
        }
        acc = a2;
        k = k + 1;
    }
    Some(acc)
}

/// Parses a signed decimal token within `-(neg_mag) ..= pos_mag`.
fn parse_signed(tok: &Vec<char>, neg_mag: u64, pos_mag: u64) -> (r: Option<i64>)
    requires
        neg_mag <= 0x8000_0000_0000_0000,
        pos_mag <= i64::MAX as u64,
    ensures
        match spec_parse_signed(tok@, -(neg_mag as int), pos_mag as int) {
            Some(v) => -(neg_mag as int) <= v <= pos_mag as int && r == Some(v as i64),
            None => r is None,
        },
{
    if tok.len() == 0 {
        return None;
    }
    if tok[0] == '-' {
        if tok.len() == 1 {
            return None;
        }
        let rest = tail_from(tok, 1);
        proof {
            assert(spec_parse_digits(tok@, 1, 0, neg_mag as nat) == spec_parse_digits(
                rest@,
                0,
                0,
                neg_mag as nat,
            )) by {
                lemma_parse_digits_shift(tok@, rest@, 1, 0, 0, neg_mag as nat);
            }
        }
        match parse_unsigned_digits(&rest, neg_mag) {
            None => {
                proof { assert(spec_parse_signed(tok@, -(neg_mag as int), pos_mag as int) is None); }
                None
            },
            Some(d) => {
                proof { assert(spec_parse_signed(tok@, -(neg_mag as int), pos_mag as int) == Some(-(d as int))); }
                if d <= i64::MAX as u64 {
                    Some(-(d as i64))
                } else {
                    Some(i64::MIN)
                }
            },
        }
    } else if tok[0] == '+' {
        if tok.len() == 1 {
            return None;
        }
        let rest = tail_from(tok, 1);
        proof {
            assert(spec_parse_digits(tok@, 1, 0, pos_mag as nat) == spec_parse_digits(
                rest@,
                0,
                0,
                pos_mag as nat,
            )) by {
                lemma_parse_digits_shift(tok@, rest@, 1, 0, 0, pos_mag as nat);
            }
        }
        match parse_unsigned_digits(&rest, pos_mag) {
            None => {
                proof { assert(spec_parse_signed(tok@, -(neg_mag as int), pos_mag as int) is None); }
                None
            },
            Some(d) => {
                proof { assert(spec_parse_signed(tok@, -(neg_mag as int), pos_mag as int) == Some(d as int)); }
                Some(d as i64)
            },
        }
    } else {
        match parse_unsigned_digits(tok, pos_mag) {
            None => {
                proof { assert(spec_parse_signed(tok@, -(neg_mag as int), pos_mag as int) is None); }
                None
            },
            Some(d) => {
                proof { assert(spec_parse_signed(tok@, -(neg_mag as int), pos_mag as int) == Some(d as int)); }
                Some(d as i64)
            },
        }
    }
}

/// Digits from the start of the token, no sign accepted.
fn parse_unsigned_digits(tok: &Vec<char>, max: u64) -> (r: Option<u64>)
    ensures
        match spec_parse_digits(tok@, 0, 0, max as nat) {
            Some(v) => v <= max && (tok@.len() > 0 ==> r == Some(v as u64)),
            None => r is None,
        },
        tok@.len() == 0 ==> r is None,
{
    if tok.len() == 0 {
        return None;
    }
    let ghost t = tok@;
    let mut acc: u64 = 0;
    let mut k: usize = 0;
    while k < tok.len()
        invariant
            k <= t.len(),
            tok@ == t,
            acc <= max,
            spec_parse_digits(t, 0, 0, max as nat) == spec_parse_digits(
                t,
                k as nat,
                acc as nat,
                max as nat,
            ),
        decreases t.len() - k,
    {
        let c = tok[k];
        if !(c >= '0' && c <= '9') {
            return None;
        }
        let d = (c as u32) - 48;
        let a2 = match acc.checked_mul(10) {
            None => {
                return None;
            },
            Some(m) => match m.checked_add(d as u64) {
                None => {
                    return None;
                },
                Some(a) => a,
            },
        };
        if a2 > max {
            return None;
        }
        acc = a2;
        k = k + 1;
    }
    Some(acc)
}

/// Parses an immediate literal token.
fn parse_immed_token(tok: &Vec<char>) -> (r: Result<ImmToken, AsmError>)
    ensures
        match spec_parse_immed(tok@) {
            Ok(imm) => r matches Ok(i) && i@ == imm,
            Err(e) => r matches Err(ae) && ae@ == e,
        },
{
    if tok.len() < 4 {
        return Err(AsmError::ExpectedImmediate);
    }
    let neg = tok[0] == '-';
    let t0 = if neg {
        tail_from(tok, 1)
    } else {
        tail_from(tok, 0)
    };
    proof {
        if !neg {
            assert(t0@ =~= tok@);
        }
    }
    let t = t0[0];
    if t != 'i' && t != 'u' && t != 'f' {
        return Err(AsmError::ExpectedImmediate);
    }
    if t == 'u' && neg {
        return Err(AsmError::ExpectedImmediate);
    }
    let found = scan_for_dollar(&t0);
    match found {
        None => Err(AsmError::ExpectedImmediate),
        Some(d) => {
            let ghost t0v = t0@;
            let mut kind: Vec<char> = Vec::new();
            let mut m: usize = 0;
            while m < d
                invariant
                    m <= d <= t0v.len(),
                    t0@ == t0v,
                    kind@ == t0v.subrange(0, m as int),
                decreases d - m,
            {
                kind.push(t0[m]);
                m = m + 1;
                proof {
                    assert(kind@ =~= t0v.subrange(0, m as int));
                }
            }
            let rest = tail_from(&t0, d + 1);
            immed_of_kind(&kind, rest, neg)
        },
    }
}

/// Finds the `$` that separates an immediate's kind from its magnitude.
fn scan_for_dollar(t0: &Vec<char>) -> (r: Option<usize>)
    requires
        t0@.len() >= 1,
    ensures
        match find_dollar(t0@, 1) {
            Some(dd) => r == Some(dd as usize) && 1 <= dd < t0@.len(),
            None => r is None,
        },
{
    let mut d: usize = 1;
    while d < t0.len()
        invariant
            1 <= d,
            find_dollar(t0@, 1) == find_dollar(t0@, d as nat),
        decreases t0@.len() - d,
    {
        if t0[d] == '$' {
            return Some(d);
        }
        d = d + 1;
    }
    None
}

/// Builds the immediate for a separated kind and magnitude.
fn immed_of_kind(kind: &Vec<char>, rest: Vec<char>, neg: bool) -> (r: Result<ImmToken, AsmError>)
    ensures
        match spec_immed_of_kind(kind@, rest@, neg) {
            Ok(imm) => r matches Ok(i) && i@ == imm,
            Err(e) => r matches Err(ae) && ae@ == e,
        },
{
    if tok_eq_str(kind, "u8") {
        match parse_unsigned(&rest, 255) {
            Some(v) => Ok(ImmToken::Int(Immediate::U8(v as u8))),
            None => Err(AsmError::BadImmediate),
        }
    } else if tok_eq_str(kind, "u16") {
        match parse_unsigned(&rest, 0xFFFF) {
            Some(v) => Ok(ImmToken::Int(Immediate::U16(v as u16))),
            None => Err(AsmError::BadImmediate),
        }
    } else if tok_eq_str(kind, "u32") {
        match parse_unsigned(&rest, 0xFFFF_FFFF) {
            Some(v) => Ok(ImmToken::Int(Immediate::U32(v as u32))),
            None => Err(AsmError::BadImmediate),
        }
    } else if tok_eq_str(kind, "u64") {
        match parse_unsigned(&rest, 0xFFFF_FFFF_FFFF_FFFF) {
            Some(v) => Ok(ImmToken::Int(Immediate::U64(v))),
            None => Err(AsmError::BadImmediate),
        }
    } else if tok_eq_str(kind, "i8") {
        match parse_signed(&rest, 128, 127) {
            Some(v) => {
                let v2: i64 = if neg {
                    -v
                } else {
                    v
                };
                if v2 < -128 || v2 > 127 {
                    Err(AsmError::BadImmediate)
                } else {
                    Ok(ImmToken::Int(Immediate::I8(v2 as i8)))
                }
            },
            None => Err(AsmError::BadImmediate),
        }
    } else if tok_eq_str(kind, "i16") {
        match parse_signed(&rest, 0x8000, 0x7FFF) {
            Some(v) => {
                let v2: i64 = if neg {
                    -v
                } else {
                    v
                };
                if v2 < -0x8000 || v2 > 0x7FFF {
                    Err(AsmError::BadImmediate)
                } else {
                    Ok(ImmToken::Int(Immediate::I16(v2 as i16)))
                }
            },
            None => Err(AsmError::BadImmediate),
        }
    } else if tok_eq_str(kind, "i32") {
        match parse_signed(&rest, 0x8000_0000, 0x7FFF_FFFF) {
            Some(v) => {
                let v2: i64 = if neg {
                    -v
                } else {
                    v
                };
                if v2 < -0x8000_0000 || v2 > 0x7FFF_FFFF {
                    Err(AsmError::BadImmediate)
                } else {
                    Ok(ImmToken::Int(Immediate::I32(v2 as i32)))
                }
            },
            None => Err(AsmError::BadImmediate),
        }
    } else if tok_eq_str(kind, "i64") {
        match parse_signed(&rest, 0x8000_0000_0000_0000, 0x7FFF_FFFF_FFFF_FFFF) {
            Some(v) => {
                let v2: i64 = if neg {
                    if v == i64::MIN {
                        return Err(AsmError::BadImmediate);
                    } else {
                        -v
                    }
                } else {
                    v
                };
                Ok(ImmToken::Int(Immediate::I64(v2)))
            },
            None => Err(AsmError::BadImmediate),
        }
    } else if tok_eq_str(kind, "f32") {
        if rest.len() == 0 {
            Err(AsmError::BadImmediate)
        } else {
            Ok(ImmToken::Float { wide: false, neg, text: rest })
        }
    } else if tok_eq_str(kind, "f64") {
        if rest.len() == 0 {
            Err(AsmError::BadImmediate)
        } else {
            Ok(ImmToken::Float { wide: true, neg, text: rest })
        }
    } else {
        Err(AsmError::ExpectedImmediate)
    }
}

/// Dropping a prefix moves the digit fold along with it.
proof fn lemma_parse_digits_shift(
    t: Seq<char>,
    rest: Seq<char>,
    off: nat,
    i: nat,
    acc: nat,
    max: nat,
)
    requires
        off <= t.len(),
        rest == t.subrange(off as int, t.len() as int),
    ensures
        spec_parse_digits(t, off + i, acc, max) == spec_parse_digits(rest, i, acc, max),
    decreases t.len() - off - i,
{
    if off + i >= t.len() {
    } else {
        assert(rest[i as int] == t[(off + i) as int]);
        if !spec_is_digit(t[(off + i) as int]) {
        } else {
            let a2 = acc * 10 + ((t[(off + i) as int] as nat - 48) as nat);
            if a2 > max {
            } else {
                lemma_parse_digits_shift(t, rest, off, i + 1, a2, max);
            }
        }
    }
}

/// Copies a token or label name.
fn dup_chars(v: &Vec<char>) -> (r: Vec<char>)
    ensures
        r@ == v@,
{
    let mut r: Vec<char> = Vec::new();
    let mut i: usize = 0;
    while i < v.len()
        invariant
            i <= v@.len(),
            r@ == v@.subrange(0, i as int),
        decreases v@.len() - i,
    {
        r.push(v[i]);
        i = i + 1;
        proof {
            assert(r@ =~= v@.subrange(0, i as int));
        }
    }
    proof {
        assert(r@ =~= v@);
    }
    r
}

/// Compares two names character by character.
fn chars_eq(a: &Vec<char>, b: &Vec<char>) -> (r: bool)
    ensures
        r == (a@ == b@),
{
    if a.len() != b.len() {
        return false;
    }
    let mut k: usize = 0;
    while k < a.len()
        invariant
            k <= a@.len(),
            a@.len() == b@.len(),
            forall|m: int| 0 <= m < k ==> a@[m] == b@[m],
        decreases a@.len() - k,
    {
        if a[k] != b[k] {
            return false;
        }
        k = k + 1;
    }
    proof {
        assert(a@ =~= b@);
    }
    true
}

impl Assembler {
    /// Builds an assembler over a source text. The caller appends the NUL
    /// sentinel by convention; the assembler also treats the end of the text
    /// as one.
    pub fn new(src: String) -> (a: Assembler)
        ensures
            a@ == spec_asm_init(src@),
            a@.wf(),
    {
        let n = src.as_str().unicode_len();
        let mut chars: Vec<char> = Vec::new();
        let mut k: usize = 0;
        while k < n
            invariant
                k <= n,
                n == src@.len(),
                chars@ == src@.subrange(0, k as int),
            decreases n - k,
        {
            chars.push(src.as_str().get_char(k));
            k = k + 1;
            proof {
                assert(chars@ =~= src@.subrange(0, k as int));
            }
        }
        proof {
            assert(chars@ =~= src@);
        }
        let a = Assembler {
            src: chars,
            i: 0,
            out: Vec::new(),
            labels: Vec::new(),
            patches: Vec::new(),
            slots: Vec::new(),
        };
        proof {
            assert(a@ =~= spec_asm_init(src@));
        }
        a
    }

    /// The character under the cursor, the end of the source reading as NUL.
    fn cur(&self) -> (c: char)
        ensures
            c == at_char(self@.src, self@.i),
    {
        if self.i < self.src.len() {
            self.src[self.i]
        } else {
            '\0'
        }
    }

    /// Whether the cursor stands on a token boundary.
    fn stop_here(&self) -> (r: bool)
        ensures
            r == (at_char(self@.src, self@.i) == '\0' || spec_is_ws(at_char(self@.src, self@.i))),
    {
        let c = self.cur();
        c == '\0' || c == ' ' || c == '\t' || c == '\r' || c == '\n'
    }

    /// Whether the cursor stands on whitespace.
    fn ws_here(&self) -> (r: bool)
        ensures
            r == spec_is_ws(at_char(self@.src, self@.i)),
    {
        let c = self.cur();
        c == ' ' || c == '\t' || c == '\r' || c == '\n'
    }

    /// Reads the token under the cursor and the whitespace behind it.
    fn read_token(&mut self) -> (tok: Vec<char>)
        requires
            old(self)@.i <= old(self)@.src.len(),
        ensures
            tok@ == spec_token(old(self)@.src, old(self)@.i),
            final(self)@ == (AsmView {
                i: spec_after_token(old(self)@.src, old(self)@.i),
                ..old(self)@
            }),
            final(self)@.i <= final(self)@.src.len(),
    {
        let ghost v0 = self@;
        let sl = self.src.len();
        let mut tok: Vec<char> = Vec::new();
        while !self.stop_here()
            invariant
                v0.src.len() == sl,
                self@.src == v0.src,
                self@.out == v0.out,
                self@.labels == v0.labels,
                self@.patches == v0.patches,
                self@.slots == v0.slots,
                v0.i <= self@.i <= v0.src.len(),
                token_end(v0.src, v0.i) == token_end(v0.src, self@.i),
                tok@ == v0.src.subrange(v0.i as int, self@.i as int),
            decreases v0.src.len() - self@.i,
        {
            let c = self.cur();
            tok.push(c);
            self.i = self.i + 1;
            proof {
                assert(tok@ =~= v0.src.subrange(v0.i as int, self@.i as int));
            }
        }
        proof {
            assert(token_end(v0.src, self@.i) == self@.i);
            assert(tok@ == spec_token(v0.src, v0.i));
        }
        let ghost te = self@.i as nat;
        while self.ws_here()
            invariant
                v0.src.len() == sl,
                self@.src == v0.src,
                self@.out == v0.out,
                self@.labels == v0.labels,
                self@.patches == v0.patches,
                self@.slots == v0.slots,
                te <= self@.i <= v0.src.len(),
                skip_ws(v0.src, te) == skip_ws(v0.src, self@.i as nat),
            decreases v0.src.len() - self@.i,
        {
            self.i = self.i + 1;
        }
        proof {
            assert(skip_ws(v0.src, self@.i as nat) == self@.i as nat);
            assert(self@ =~= (AsmView { i: spec_after_token(v0.src, v0.i), ..v0 }));
        }
        tok
    }

    /// Emits an instruction of no operands.
    fn emit_no_arg(&mut self, code: u8)
        ensures
            final(self)@ == step_no_arg(old(self)@, code),
    {
        self.out.push(code);
    }

    /// Emits an instruction of one register operand.
    fn emit_reg_arg(&mut self, code: u8) -> (r: Result<(), AsmError>)
        requires
            old(self)@.i <= old(self)@.src.len(),
        ensures
            match step_reg_arg(old(self)@, code) {
                Ok(v2) => r is Ok && final(self)@ == v2,
                Err(e) => r matches Err(ae) && ae@ == e,
            },
    {
        let tok = self.read_token();
        match parse_reg_token(&tok) {
            None => Err(AsmError::ExpectedRegister),
            Some(rv) => {
                self.out.push(code);
                self.out.push(rv as u8);
                Ok(())
            },
        }
    }

    /// Emits an instruction of one raw address operand.
    fn emit_addr_arg(&mut self, code: u8) -> (r: Result<(), AsmError>)
        requires
            old(self)@.i <= old(self)@.src.len(),
        ensures
            match step_addr_arg(old(self)@, code) {
                Ok(v2) => r is Ok && final(self)@ == v2,
                Err(e) => r matches Err(ae) && ae@ == e,
            },
    {
        let tok = self.read_token();
        match parse_addr_token(&tok) {
            None => Err(AsmError::ExpectedAddress),
            Some(av) => {
                self.out.push(code);
                self.out.push(av as u8);
                Ok(())
            },
        }
    }

    /// Emits an instruction of two register operands.
    fn emit_two_reg(&mut self, code: u8) -> (r: Result<(), AsmError>)
        requires
            old(self)@.i <= old(self)@.src.len(),
        ensures
            match step_two_reg(old(self)@, code) {
                Ok(v2) => r is Ok && final(self)@ == v2,
                Err(e) => r matches Err(ae) && ae@ == e,
            },
    {
        let tok1 = self.read_token();
        let a = match parse_reg_token(&tok1) {
            None => {
                return Err(AsmError::ExpectedRegister);
            },
            Some(a) => a,
        };
        let tok2 = self.read_token();
        let b = match parse_reg_token(&tok2) {
            None => {
                return Err(AsmError::ExpectedRegister);
            },
            Some(b) => b,
        };
        self.out.push(code);
        self.out.push(a as u8);
        self.out.push(b as u8);
        Ok(())
    }

    /// Emits a symbolic jump: the opcode byte now, the address byte once the
    /// label resolves.
    fn emit_sym_jump(&mut self, code: u8)
        requires
            old(self)@.i <= old(self)@.src.len(),
        ensures
            final(self)@ == step_sym_jump(old(self)@, code),
    {
        let ghost v0 = self@;
        let name = self.read_token();
        self.out.push(code);
        let pos: u128 = self.out.len() as u128 + self.patches.len() as u128 + 1;
        self.patches.push((pos, name));
        proof {
            assert(self@.patches =~= step_sym_jump(v0, code).patches);
            assert(self@ =~= step_sym_jump(v0, code));
        }
    }

    /// Appends an immediate's tag and payload, recording a slot for a float.
    fn push_immed_bytes(&mut self, imm: ImmToken)
        ensures
            final(self)@ == (AsmView {
                out: old(self)@.out + spec_immed_bytes(imm@),
                slots: old(self)@.slots + spec_immed_slots(imm@, old(self)@.out.len() + 1),
                ..old(self)@
            }),
    {
        let ghost v0 = self@;
        match imm {
            ImmToken::Int(v) => {
                let mut bytes = encode_immed(v);
                self.out.append(&mut bytes);
                proof {
                    assert(self@ =~= (AsmView {
                        out: v0.out + spec_immed_bytes(imm@),
                        slots: v0.slots + spec_immed_slots(imm@, v0.out.len() + 1),
                        ..v0
                    }));
                }
            },
            ImmToken::Float { wide, neg, text } => {
                if wide {
                    self.out.push(9);
                } else {
                    self.out.push(8);
                }
                let offset = self.out.len();
                self.out.push(0);
                self.out.push(0);
                self.out.push(0);
                self.out.push(0);
                if wide {
                    self.out.push(0);
                    self.out.push(0);
                    self.out.push(0);
                    self.out.push(0);
                }
                self.slots.push(FloatSlot { offset, wide, neg, text });
                proof {
                    assert(self@.out =~= v0.out + spec_immed_bytes(imm@));
                    assert(self@.slots =~= v0.slots + spec_immed_slots(imm@, v0.out.len() + 1));
                    assert(self@ =~= (AsmView {
                        out: v0.out + spec_immed_bytes(imm@),
                        slots: v0.slots + spec_immed_slots(imm@, v0.out.len() + 1),
                        ..v0
                    }));
                }
            },
        }
    }

    /// Emits PUSH with its immediate.
    fn emit_push_imm(&mut self) -> (r: Result<(), AsmError>)
        requires
            old(self)@.i <= old(self)@.src.len(),
        ensures
            match step_push_imm(old(self)@) {
                Ok(v2) => r is Ok && final(self)@ == v2,
                Err(e) => r matches Err(ae) && ae@ == e,
            },
    {
        let tok = self.read_token();
        match parse_immed_token(&tok) {
            Err(e) => Err(e),
            Ok(imm) => {
                self.out.push(3);
                self.push_immed_bytes(imm);
                Ok(())
            },
        }
    }

    /// Emits LDI or a shift: register, then immediate.
    fn emit_reg_imm(&mut self, code: u8) -> (r: Result<(), AsmError>)
        requires
            old(self)@.i <= old(self)@.src.len(),
        ensures
            match step_reg_imm(old(self)@, code) {
                Ok(v2) => r is Ok && final(self)@ == v2,
                Err(e) => r matches Err(ae) && ae@ == e,
            },
    {
        let tok1 = self.read_token();
        let rv = match parse_reg_token(&tok1) {
            None => {
                return Err(AsmError::ExpectedRegister);
            },
            Some(a) => a,
        };
        let tok2 = self.read_token();
        match parse_immed_token(&tok2) {
            Err(e) => Err(e),
            Ok(imm) => {
                self.out.push(code);
                self.out.push(rv as u8);
                self.push_immed_bytes(imm);
                Ok(())
            },
        }
    }
}

/// A register operand token.
fn parse_reg_token(tok: &Vec<char>) -> (r: Option<usize>)
    ensures
        match spec_parse_reg(tok@) {
            Some(v) => v <= 15 && r == Some(v as usize),
            None => r is None,
        },
{
    if tok.len() < 2 {
        return None;
    }
    if tok[0] != 'R' {
        return None;
    }
    let rest = tail_from(tok, 1);
    match parse_unsigned(&rest, 15) {
        None => None,
        Some(v) => Some(v as usize),
    }
}

/// An address operand token.
fn parse_addr_token(tok: &Vec<char>) -> (r: Option<usize>)
    ensures
        match spec_parse_addr(tok@) {
            Some(v) => v <= 255 && r == Some(v as usize),
            None => r is None,
        },
{
    match parse_unsigned(tok, 255) {
        None => None,
        Some(v) => Some(v as usize),
    }
}


/// The slots of an exec vector, seen mathematically.
pub open spec fn slots_view(s: Seq<FloatSlot>) -> Seq<FloatSlotView> {
    Seq::new(s.len(), |k: int| s[k]@)
}

/// One pass of the instruction loop leaves the bookkeeping sound, the
/// source untouched, and the cursor strictly advanced within bounds.
#[verifier::rlimit(100)]
#[verifier::spinoff_prover]
pub proof fn lemma_asm_step_props(v: AsmView)
    requires
        v.wf(),
        at_char(v.src, v.i) != '\0',
    ensures
        match spec_asm_step(v) {
            Ok(v2) => v2.wf() && v2.src == v.src && v.i < v2.i && v2.i <= v2.src.len(),
            Err(_) => true,
        },
{
    reveal(spec_asm_step);
    reveal_strlit("_");
    reveal_strlit("hlt");
    reveal_strlit("int");
    reveal_strlit("$");
    reveal_strlit("$$");
    reveal_strlit("%");
    reveal_strlit("@");
    reveal_strlit(":");
    reveal_strlit("//");
    reveal_strlit("/=");
    reveal_strlit("/!");
    reveal_strlit("/>");
    reveal_strlit("/<");
    reveal_strlit("//R");
    reveal_strlit("/=R");
    reveal_strlit("/!R");
    reveal_strlit("/>R");
    reveal_strlit("/<R");
    reveal_strlit("=");
    reveal_strlit("+");
    reveal_strlit("-");
    reveal_strlit("*");
    reveal_strlit("/");
    reveal_strlit("&");
    reveal_strlit("|");
    reveal_strlit("^");
    reveal_strlit(">");
    reveal_strlit("<");
    reveal_strlit("str");
    reveal_strlit("strR");
    reveal_strlit("ld");
    reveal_strlit("ldR");
    lemma_token_bounds(v.src, v.i);
    lemma_token_bounds(v.src, (v.i + 1) as nat);
    let j = spec_after_token(v.src, v.i);
    lemma_token_bounds(v.src, j);
    let j2 = spec_after_token(v.src, j);
    lemma_token_bounds(v.src, j2);
    let j1 = spec_after_token(v.src, (v.i + 1) as nat);
    lemma_token_bounds(v.src, j1);
}

impl Assembler {
    /// Whether the cursor has reached the NUL sentinel.
    fn at_end(&self) -> (r: bool)
        ensures
            r == (at_char(self@.src, self@.i) == '\0'),
    {
        let c = self.cur();
        c == '\0'
    }

    /// Translates one label declaration or instruction.
    #[verifier::rlimit(100)]
    fn step_instr(&mut self) -> (r: Result<(), AsmError>)
        requires
            old(self)@.wf(),
            at_char(old(self)@.src, old(self)@.i) != '\0',
        ensures
            match spec_asm_step(old(self)@) {
                Ok(v2) => r is Ok && final(self)@ == v2,
                Err(e) => r matches Err(ae) && ae@ == e,
            },
    {
        proof {
            reveal(spec_asm_step);
        }
        let ghost v0 = self@;
        let c = self.cur();
        if c == '.' {
            let _src_words = self.src.len();
            self.i = self.i + 1;
            let name = self.read_token();
            let pos: u128 = self.out.len() as u128 + self.patches.len() as u128;
            self.labels.push((name, pos));
            proof {
                assert(self@.labels =~= v0.labels.push((
                    spec_token(v0.src, (v0.i + 1) as nat),
                    v0.bit(),
                )));
                assert(self@ =~= (AsmView {
                    i: spec_after_token(v0.src, (v0.i + 1) as nat),
                    labels: v0.labels.push((spec_token(v0.src, (v0.i + 1) as nat), v0.bit())),
                    ..v0
                }));
            }
            Ok(())
        } else {
            let tok = self.read_token();
            if tok_eq_str(&tok, "_") {
                self.emit_no_arg(0);
                Ok(())
            } else if tok_eq_str(&tok, "hlt") {
                self.emit_no_arg(1);
                Ok(())
            } else if tok_eq_str(&tok, "int") {
                self.emit_addr_arg(2)
            } else if tok_eq_str(&tok, "$") {
                self.emit_push_imm()
            } else if tok_eq_str(&tok, "$$") {
                self.emit_reg_arg(4)
            } else if tok_eq_str(&tok, "%") {
                self.emit_reg_arg(5)
            } else if tok_eq_str(&tok, "@") {
                self.emit_reg_imm(6)
            } else if tok_eq_str(&tok, ":") {
                self.emit_two_reg(7)
            } else if tok_eq_str(&tok, "//") {
                self.emit_sym_jump(8);
                Ok(())
            } else if tok_eq_str(&tok, "/=") {
                self.emit_sym_jump(9);
                Ok(())
            } else if tok_eq_str(&tok, "/!") {
                self.emit_sym_jump(10);
                Ok(())
            } else if tok_eq_str(&tok, "/>") {
                self.emit_sym_jump(11);
                Ok(())
            } else if tok_eq_str(&tok, "/<") {
                self.emit_sym_jump(12);
                Ok(())
            } else if tok_eq_str(&tok, "//R") {
                self.emit_addr_arg(8)
            } else if tok_eq_str(&tok, "/=R") {
                self.emit_addr_arg(9)
            } else if tok_eq_str(&tok, "/!R") {
                self.emit_addr_arg(10)
            } else if tok_eq_str(&tok, "/>R") {
                self.emit_addr_arg(11)
            } else if tok_eq_str(&tok, "/<R") {
                self.emit_addr_arg(12)
            } else if tok_eq_str(&tok, "=") {
                self.emit_two_reg(13)
            } else if tok_eq_str(&tok, "+") {
                self.emit_two_reg(14)
            } else if tok_eq_str(&tok, "-") {
                self.emit_two_reg(15)
            } else if tok_eq_str(&tok, "*") {
                self.emit_two_reg(16)
            } else if tok_eq_str(&tok, "/") {
                self.emit_two_reg(17)
            } else if tok_eq_str(&tok, "&") {
                self.emit_two_reg(18)
            } else if tok_eq_str(&tok, "|") {
                self.emit_two_reg(19)
            } else if tok_eq_str(&tok, "^") {
                self.emit_two_reg(20)
            } else if tok_eq_str(&tok, ">") {
                self.emit_reg_imm(21)
            } else if tok_eq_str(&tok, "<") {
                self.emit_reg_imm(22)
            } else if tok_eq_str(&tok, "str") {
                self.emit_addr_arg(23)
            } else if tok_eq_str(&tok, "strR") {
                self.emit_reg_arg(24)
            } else if tok_eq_str(&tok, "ld") {
                self.emit_addr_arg(25)
            } else if tok_eq_str(&tok, "ldR") {
                self.emit_reg_arg(26)
            } else {
                Err(AsmError::UnknownOpcode(tok))
            }
        }
    }

    /// The byte offset a label name resolves to, if it was ever declared.
    fn lookup(&self, name: &Vec<char>) -> (r: Option<u128>)
        ensures
            match lookup_label(self@.labels, name@) {
                Some(p) => p <= u128::MAX && r == Some(p as u128),
                None => r is None,
            },
    {
        let mut m = self.labels.len();
        proof {
            assert(self@.labels.subrange(0, m as int) =~= self@.labels);
        }
        while m > 0
            invariant
                m <= self@.labels.len(),
                lookup_label(self@.labels, name@) == lookup_label(
                    self@.labels.subrange(0, m as int),
                    name@,
                ),
            decreases m,
        {
            m = m - 1;
            if chars_eq(&self.labels[m].0, name) {
                proof {
                    assert(self@.labels.subrange(0, m as int + 1).last() == self@.labels[m as int]);
                }
                return Some(self.labels[m].1);
            }
            proof {
                assert(self@.labels.subrange(0, m as int + 1).drop_last() =~= self@.labels.subrange(
                    0,
                    m as int,
                ));
            }
        }
        None
    }
}


/// Copies a byte stream.
fn dup_bytes(v: &Vec<u8>) -> (r: Vec<u8>)
    ensures
        r@ == v@,
{
    let mut r: Vec<u8> = Vec::new();
    let mut i: usize = 0;
    while i < v.len()
        invariant
            i <= v@.len(),
            r@ == v@.subrange(0, i as int),
        decreases v@.len() - i,
    {
        r.push(v[i]);
        i = i + 1;
        proof {
            assert(r@ =~= v@.subrange(0, i as int));
        }
    }
    proof {
        assert(r@ =~= v@);
    }
    r
}

/// Moves every slot at or past the insertion point one byte to the right.
fn bump_slots(slots: &mut Vec<FloatSlot>, q: usize)
    requires
        forall|m: int|
            0 <= m < old(slots)@.len() ==> (#[trigger] old(slots)@[m])@.offset < usize::MAX,
    ensures
        slots_view(final(slots)@) == spec_bump_slots(slots_view(old(slots)@), q as nat),
        final(slots)@.len() == old(slots)@.len(),
        forall|m: int|
            0 <= m < final(slots)@.len() ==> (#[trigger] final(slots)@[m])@.offset <= (old(
                slots,
            )@[m])@.offset + 1 && (final(slots)@[m])@.wide == (old(slots)@[m])@.wide,
{
    let ghost s0 = slots@;
    let n = slots.len();
    let mut m: usize = 0;
    while m < n
        invariant
            m <= n,
            n == slots@.len(),
            slots@.len() == s0.len(),
            forall|j: int| m <= j < s0.len() ==> slots@[j] == s0[j],
            forall|j: int|
                0 <= j < m ==> (#[trigger] slots@[j])@ == (if s0[j]@.offset >= q {
                    FloatSlotView { offset: (s0[j]@.offset + 1) as nat, ..s0[j]@ }
                } else {
                    s0[j]@
                }),
            forall|j: int|
                0 <= j < s0.len() ==> (#[trigger] s0[j])@.offset < usize::MAX,
        decreases n - m,
    {
        let off = slots[m].offset;
        if off >= q {
            let wide = slots[m].wide;
            let neg = slots[m].neg;
            let text = dup_chars(&slots[m].text);
            slots.set(m, FloatSlot { offset: off + 1, wide, neg, text });
        }
        m = m + 1;
    }
    proof {
        assert(slots_view(slots@) =~= spec_bump_slots(slots_view(s0), q as nat));
    }
}

impl Assembler {
    /// Runs the whole translation: the instruction loop over the source, the
    /// label-patch pass, and the trailing HLT byte. On success the returned
    /// stream is complete except for any float payloads, which stay zeroed
    /// until the host writes their bits through `patch_float_payload`; their
    /// places are listed by `float_slots`. A float literal's magnitude text
    /// is checked here only for presence — whether it reads as a number is
    /// the host's verdict when it parses the slot.
    #[verifier::rlimit(100)]
    #[verifier::loop_isolation(false)]
    pub fn assemble(&mut self) -> (r: Result<Vec<u8>, AsmError>)
        requires
            old(self)@.wf(),
        ensures
            match spec_assemble_result(old(self)@) {
                Ok((bytes, slots)) => r matches Ok(b) && b@ == bytes && final(self)@.slots
                    == slots && final(self)@.wf(),
                Err(e) => r matches Err(ae) && ae@ == e,
            },
    {
        let ghost v0 = self@;
        while !self.at_end()
            invariant
                self@.wf(),
                self@.src == v0.src,
                spec_assemble_result(v0) == spec_assemble_result(self@),
            decreases self@.src.len() - self@.i,
        {
            let ghost vpre = self@;
            proof {
                lemma_asm_step_props(vpre);
            }
            match self.step_instr() {
                Err(e) => {
                    proof {
                        assert(spec_assemble_from(vpre) == Err::<AsmView, AsmErrorView>(e@));
                    }
                    return Err(e);
                },
                Ok(()) => {
                    proof {
                        assert(spec_assemble_from(vpre) == spec_assemble_from(self@));
                    }
                },
            }
        }
        proof {
            assert(spec_assemble_from(self@) == Ok::<AsmView, AsmErrorView>(self@));
        }
        let ghost base = self@;
        let np = self.patches.len();
        let _out_words = self.out.len();
        let mut k: usize = 0;
        while k < np
            invariant
                np == base.patches.len(),
                k <= np,
                base.wf(),
                self@.src == base.src,
                self@.i == base.i,
                self@.labels == base.labels,
                self@.patches == base.patches,
                self@.out.len() == base.out.len() + k,
                self@.out.len() <= usize::MAX,
                self@.slots.len() == base.slots.len(),
                forall|m: int|
                    0 <= m < self@.slots.len() ==> (#[trigger] self@.slots[m]).offset + slot_width(
                        self@.slots[m],
                    ) <= self@.out.len(),
                spec_apply_patches(base.out, base.slots, base.patches, base.labels, 0)
                    == spec_apply_patches(
                    self@.out,
                    self@.slots,
                    base.patches,
                    base.labels,
                    k as nat,
                ),
                spec_assemble_result(v0) == (match spec_apply_patches(
                    base.out,
                    base.slots,
                    base.patches,
                    base.labels,
                    0,
                ) {
                    Err(e) => Err(e),
                    Ok((o, sl)) => Ok((o.push(1u8), sl)),
                }),
            decreases np - k,
        {
            let ghost vcur = self@;
            let pos: u128 = self.patches[k].0;
            let name = dup_chars(&self.patches[k].1);
            proof {
                assert(base.patches[k as int] == (pos as nat, name@));
            }
            let target = match self.lookup(&name) {
                None => {
                    return Err(AsmError::UnknownLabel(name));
                },
                Some(t) => t,
            };
            let _out_words = self.out.len();
            proof {
                assert(1 <= pos as nat <= base.out.len() + k + 1);
            }
            let q128: u128 = pos - 1;
            let q: usize = #[verifier::truncate] (q128 as usize);
            proof {
                assert(q as nat == q128 as nat);
            }
            let byte: u8 = #[verifier::truncate] (target as u8);
            self.out.insert(q, byte);
            let _out_words2 = self.out.len();
            proof {
                assert forall|m: int| 0 <= m < self.slots@.len() implies (#[trigger] self.slots@[m])@.offset
                    < usize::MAX by {
                    assert(vcur.slots[m].offset + slot_width(vcur.slots[m]) <= vcur.out.len());
                    assert(vcur.slots[m] == self.slots@[m]@);
                }
            }
            bump_slots(&mut self.slots, q);
            let ghost k0 = k as nat;
            k = k + 1;
            proof {
                assert(self@.out == vcur.out.insert(q as int, byte));
                assert(self@.slots =~= spec_bump_slots(vcur.slots, q as nat));
                assert(lookup_label(base.labels, name@) == Some(target as nat));
                assert(byte == ((target as nat) as u8));
                assert(spec_apply_patches(vcur.out, vcur.slots, base.patches, base.labels, k0)
                    == spec_apply_patches(self@.out, self@.slots, base.patches, base.labels, k0 + 1));
            }
        }
        proof {
            assert(spec_apply_patches(
                self@.out,
                self@.slots,
                base.patches,
                base.labels,
                np as nat,
            ) == Ok::<(Seq<u8>, Seq<FloatSlotView>), AsmErrorView>((self@.out, self@.slots)));
        }
        self.patches = Vec::new();
        self.out.push(1);
        let bytes = dup_bytes(&self.out);
        Ok(bytes)
    }

    /// The float literals of the last assembly, in source order, each naming
    /// where its zeroed payload sits in the returned stream.
    pub fn float_slots(&self) -> (r: &Vec<FloatSlot>)
        ensures
            slots_view(r@) == self@.slots,
    {
        &self.slots
    }
}

/// The stream with one float payload overwritten by the bits the host
/// computed, little-endian.
pub open spec fn spec_patch_float(bytes: Seq<u8>, slot: FloatSlotView, bits: u64) -> Seq<u8> {
    let payload = if slot.wide {
        vstd::bytes::spec_u64_to_le_bytes(bits)
    } else {
        vstd::bytes::spec_u32_to_le_bytes(bits as u32)
    };
    Seq::new(
        bytes.len(),
        |j: int|
            if slot.offset <= j < slot.offset + slot_width(slot) {
                payload[j - slot.offset]
            } else {
                bytes[j]
            },
    )
}

/// Writes a float slot's payload bytes into the assembled stream. A slot
/// that does not fit inside the stream is refused and the stream left
/// untouched.
pub fn patch_float_payload(bytes: &mut Vec<u8>, slot: &FloatSlot, bits: u64) -> (ok: bool)
    ensures
        slot@.offset + slot_width(slot@) <= old(bytes)@.len() ==> ok && final(bytes)@
            == spec_patch_float(old(bytes)@, slot@, bits),
        slot@.offset + slot_width(slot@) > old(bytes)@.len() ==> !ok && final(bytes)@ == old(
            bytes,
        )@,
{
    let ghost b0 = bytes@;
    let w: usize = if slot.wide {
        8
    } else {
        4
    };
    if bytes.len() < w || slot.offset > bytes.len() - w {
        return false;
    }
    let payload: Vec<u8> = if slot.wide {
        vstd::bytes::u64_to_le_bytes(bits)
    } else {
        vstd::bytes::u32_to_le_bytes(#[verifier::truncate] (bits as u32))
    };
    let ghost pl = payload@;
    let bl = bytes.len();
    let mut m: usize = 0;
    while m < w
        invariant
            m <= w,
            w == slot_width(slot@),
            pl.len() == w,
            payload@ == pl,
            slot@.offset + w <= b0.len(),
            b0.len() == bl,
            bytes@.len() == b0.len(),
            forall|j: int|
                0 <= j < bytes@.len() ==> bytes@[j] == (if slot@.offset <= j < slot@.offset + m {
                    pl[j - slot@.offset]
                } else {
                    b0[j]
                }),
        decreases w - m,
    {
        bytes.set(slot.offset + m, payload[m]);
        m = m + 1;
    }
    proof {
        assert(bytes@ =~= spec_patch_float(b0, slot@, bits));
    }
    true
}

/// Whenever assembly succeeds, the byte stream ends in the HLT opcode: the
/// assembler appends it after the patch pass, so every assembled program
/// halts when it runs off its own code.
pub proof fn lemma_assemble_ends_with_hlt(src: Seq<char>)
    ensures
        match spec_assemble(src) {
            Ok((bytes, _)) => bytes.len() >= 1 && bytes.last() == 1u8,
            Err(_) => true,
        },
{
}

/// A label patch stores only the low byte of the target offset: past 255
/// the address truncates, as the single address byte of the jump forms
/// demands.
pub proof fn lemma_patch_byte_truncates(target: u128)
    ensures
        (target as u8) as u128 == target % 256,
        target > 255 ==> (target as u8) as u128 != target,
{
    assert((target as u8) as u128 == target % 256) by (bit_vector);
}

} // verus!
