//! The syntax of assembly source: lines with optional labels, instructions
//! and comments, an optional `ORG` line first and an `END` line last.
use vstd::prelude::*;

use crate::assembler::labels::{canonical, LabelLookup};
use crate::assembler::number::{
    hex_end, literal_value, read_literal, to_restart_number, to_u16, to_u8, Base,
};
use crate::assembler::{fails_in_syntax, fails_within, AssemblyError};
use crate::coding::reader::{
    alnum_end, blank_end, is_digit, is_nl, is_upper, line_end, register_named, ws_end, Reader,
};
use crate::coding::{instruction_length, instruction_size};
use crate::instruction::{
    data16_of, Condition, Data16, Instruction, Register, RegisterPair, RegisterPairIndirect,
    RegisterPairOrStatus, RestartNumber,
};

verus! {

/// A label definition and the byte offset where it stands.
#[derive(Clone, Debug, Hash, PartialEq, Eq)]
pub struct LabelSegment {
    pub name: Vec<u8>,
    pub index: usize,
}

/// An instruction as written. Where its 16-bit operand names a label,
/// `target` holds the name and the operand is filled in by `into_inner`.
#[derive(Clone, Debug, Hash, PartialEq, Eq)]
pub struct ParsedInstruction {
    pub instruction: Instruction,
    pub target: Option<Vec<u8>>,
}

/// An instruction and the byte offset where it stands.
#[derive(Clone, Debug, Hash, PartialEq, Eq)]
pub struct CodeSegment {
    pub instruction: ParsedInstruction,
    pub index: usize,
}

#[derive(Clone, Debug, Hash, PartialEq, Eq)]
pub struct CodeLine {
    pub label: Option<LabelSegment>,
    pub code: Option<CodeSegment>,
}

/// The `ORG` line: its label, the origin address and where it stands.
#[derive(Clone, Debug, Hash, PartialEq, Eq)]
pub struct OriginLine {
    pub label: Option<LabelSegment>,
    pub address: u16,
    pub index: usize,
}

/// A parsed source file.
#[derive(Clone, Debug, Hash, PartialEq, Eq)]
pub struct SourceFile {
    pub origin_line: Option<OriginLine>,
    pub lines: Vec<CodeLine>,
    pub end_label: Option<LabelSegment>,
}

/// The instruction with its 16-bit operand replaced by `a`.
pub open spec fn with_address(i: Instruction, a: u16) -> Instruction {
    match i {
        Instruction::Lxi(rp, _) => Instruction::Lxi(rp, data16_of(a)),
        Instruction::Lda(_) => Instruction::Lda(a),
        Instruction::Sta(_) => Instruction::Sta(a),
        Instruction::Lhld(_) => Instruction::Lhld(a),
        Instruction::Shld(_) => Instruction::Shld(a),
        Instruction::Jmp(_) => Instruction::Jmp(a),
        Instruction::Jcc(c, _) => Instruction::Jcc(c, a),
        Instruction::Call(_) => Instruction::Call(a),
        Instruction::Ccc(c, _) => Instruction::Ccc(c, a),
        _ => i,
    }
}

/// The instruction with its label operand looked up in `table`; `None`
/// where the label is not there.
pub open spec fn resolve(p: ParsedInstruction, table: Map<Seq<u8>, u16>) -> Option<Instruction> {
    match p.target {
        None => Some(p.instruction),
        Some(name) => if table.contains_key(canonical(name@)) {
            Some(with_address(p.instruction, table[canonical(name@)]))
        } else {
            None
        },
    }
}

impl ParsedInstruction {
    /// The byte length of the instruction.
    pub fn instruction_length(&self) -> (r: u16)
        ensures
            r == instruction_size(self.instruction),
    {
        instruction_length(&self.instruction)
    }

    /// The instruction with its label operand resolved.
    pub fn into_inner(&self, labels: &LabelLookup) -> (r: Option<Instruction>)
        requires
            labels.wf(),
        ensures
            r == resolve(*self, labels@),
    {
        match &self.target {
            None => Some(self.instruction),
            Some(name) => match labels.get(name.as_slice()) {
                Some(a) => Some(place_address(self.instruction, a)),
                None => None,
            },
        }
    }
}

fn place_address(i: Instruction, a: u16) -> (r: Instruction)
    ensures
        r == with_address(i, a),
{
    match i {
        Instruction::Lxi(rp, _) => Instruction::Lxi(rp, Data16::from_value(a)),
        Instruction::Lda(_) => Instruction::Lda(a),
        Instruction::Sta(_) => Instruction::Sta(a),
        Instruction::Lhld(_) => Instruction::Lhld(a),
        Instruction::Shld(_) => Instruction::Shld(a),
        Instruction::Jmp(_) => Instruction::Jmp(a),
        Instruction::Jcc(c, _) => Instruction::Jcc(c, a),
        Instruction::Call(_) => Instruction::Call(a),
        Instruction::Ccc(c, _) => Instruction::Ccc(c, a),
        _ => i,
    }
}

/// The instruction a mnemonic names, with zero operands: the form whose
/// operands the text after the mnemonic gives. `None` for a word that
/// names no instruction.
#[verifier::opaque]
pub open spec fn template(w: Seq<u8>) -> Option<Instruction> {
    if w == seq![0x4Eu8, 0x4Fu8, 0x50u8] {
        Some(Instruction::Nop)
    } else if w == seq![0x48u8, 0x4Cu8, 0x54u8] {
        Some(Instruction::Hlt)
    } else if w == seq![0x52u8, 0x45u8, 0x54u8] {
        Some(Instruction::Ret)
    } else if w == seq![0x52u8, 0x4Cu8, 0x43u8] {
        Some(Instruction::Rlc)
    } else if w == seq![0x52u8, 0x52u8, 0x43u8] {
        Some(Instruction::Rrc)
    } else if w == seq![0x52u8, 0x41u8, 0x4Cu8] {
        Some(Instruction::Ral)
    } else if w == seq![0x52u8, 0x41u8, 0x52u8] {
        Some(Instruction::Rar)
    } else if w == seq![0x44u8, 0x41u8, 0x41u8] {
        Some(Instruction::Daa)
    } else if w == seq![0x43u8, 0x4Du8, 0x41u8] {
        Some(Instruction::Cma)
    } else if w == seq![0x43u8, 0x4Du8, 0x43u8] {
        Some(Instruction::Cmc)
    } else if w == seq![0x53u8, 0x54u8, 0x43u8] {
        Some(Instruction::Stc)
    } else if w == seq![0x58u8, 0x43u8, 0x48u8, 0x47u8] {
        Some(Instruction::Xchg)
    } else if w == seq![0x58u8, 0x54u8, 0x48u8, 0x4Cu8] {
        Some(Instruction::Xthl)
    } else if w == seq![0x53u8, 0x50u8, 0x48u8, 0x4Cu8] {
        Some(Instruction::Sphl)
    } else if w == seq![0x50u8, 0x43u8, 0x48u8, 0x4Cu8] {
        Some(Instruction::Pchl)
    } else if w == seq![0x45u8, 0x49u8] {
        Some(Instruction::Ei)
    } else if w == seq![0x44u8, 0x49u8] {
        Some(Instruction::Di)
    } else if w == seq![0x52u8, 0x4Eu8, 0x5Au8] {
        Some(Instruction::Rcc(Condition::NoZero))
    } else if w == seq![0x52u8, 0x5Au8] {
        Some(Instruction::Rcc(Condition::Zero))
    } else if w == seq![0x52u8, 0x4Eu8, 0x43u8] {
        Some(Instruction::Rcc(Condition::NoCarry))
    } else if w == seq![0x52u8, 0x43u8] {
        Some(Instruction::Rcc(Condition::Carry))
    } else if w == seq![0x52u8, 0x50u8, 0x4Fu8] {
        Some(Instruction::Rcc(Condition::ParityOdd))
    } else if w == seq![0x52u8, 0x50u8, 0x45u8] {
        Some(Instruction::Rcc(Condition::ParityEven))
    } else if w == seq![0x52u8, 0x50u8] {
        Some(Instruction::Rcc(Condition::Positive))
    } else if w == seq![0x52u8, 0x4Du8] {
        Some(Instruction::Rcc(Condition::Minus))
    } else if w == seq![0x41u8, 0x44u8, 0x44u8] {
        Some(Instruction::Add(Register::B))
    } else if w == seq![0x41u8, 0x44u8, 0x43u8] {
        Some(Instruction::Adc(Register::B))
    } else if w == seq![0x53u8, 0x55u8, 0x42u8] {
        Some(Instruction::Sub(Register::B))
    } else if w == seq![0x53u8, 0x42u8, 0x42u8] {
        Some(Instruction::Sbb(Register::B))
    } else if w == seq![0x41u8, 0x4Eu8, 0x41u8] {
        Some(Instruction::Ana(Register::B))
    } else if w == seq![0x58u8, 0x52u8, 0x41u8] {
        Some(Instruction::Xra(Register::B))
    } else if w == seq![0x4Fu8, 0x52u8, 0x41u8] {
        Some(Instruction::Ora(Register::B))
    } else if w == seq![0x43u8, 0x4Du8, 0x50u8] {
        Some(Instruction::Cmp(Register::B))
    } else if w == seq![0x49u8, 0x4Eu8, 0x52u8] {
        Some(Instruction::Inr(Register::B))
    } else if w == seq![0x44u8, 0x43u8, 0x52u8] {
        Some(Instruction::Dcr(Register::B))
    } else if w == seq![0x4Du8, 0x4Fu8, 0x56u8] {
        Some(Instruction::Mov(Register::B, Register::B))
    } else if w == seq![0x4Du8, 0x56u8, 0x49u8] {
        Some(Instruction::Mvi(Register::B, 0))
    } else if w == seq![0x41u8, 0x44u8, 0x49u8] {
        Some(Instruction::Adi(0))
    } else if w == seq![0x41u8, 0x43u8, 0x49u8] {
        Some(Instruction::Aci(0))
    } else if w == seq![0x53u8, 0x55u8, 0x49u8] {
        Some(Instruction::Sui(0))
    } else if w == seq![0x53u8, 0x42u8, 0x49u8] {
        Some(Instruction::Sbi(0))
    } else if w == seq![0x41u8, 0x4Eu8, 0x49u8] {
        Some(Instruction::Ani(0))
    } else if w == seq![0x58u8, 0x52u8, 0x49u8] {
        Some(Instruction::Xri(0))
    } else if w == seq![0x4Fu8, 0x52u8, 0x49u8] {
        Some(Instruction::Ori(0))
    } else if w == seq![0x43u8, 0x50u8, 0x49u8] {
        Some(Instruction::Cpi(0))
    } else if w == seq![0x49u8, 0x4Eu8] {
        Some(Instruction::In(0))
    } else if w == seq![0x4Fu8, 0x55u8, 0x54u8] {
        Some(Instruction::Out(0))
    } else if w == seq![0x52u8, 0x53u8, 0x54u8] {
        Some(Instruction::Rst(RestartNumber::R0))
    } else if w == seq![0x49u8, 0x4Eu8, 0x58u8] {
        Some(Instruction::Inx(RegisterPair::Bc))
    } else if w == seq![0x44u8, 0x43u8, 0x58u8] {
        Some(Instruction::Dcx(RegisterPair::Bc))
    } else if w == seq![0x44u8, 0x41u8, 0x44u8] {
        Some(Instruction::Dad(RegisterPair::Bc))
    } else if w == seq![0x4Cu8, 0x58u8, 0x49u8] {
        Some(Instruction::Lxi(RegisterPair::Bc, Data16 { low: 0, high: 0 }))
    } else if w == seq![0x4Cu8, 0x44u8, 0x41u8, 0x58u8] {
        Some(Instruction::Ldax(RegisterPairIndirect::Bc))
    } else if w == seq![0x53u8, 0x54u8, 0x41u8, 0x58u8] {
        Some(Instruction::Stax(RegisterPairIndirect::Bc))
    } else if w == seq![0x50u8, 0x55u8, 0x53u8, 0x48u8] {
        Some(Instruction::Push(RegisterPairOrStatus::Bc))
    } else if w == seq![0x50u8, 0x4Fu8, 0x50u8] {
        Some(Instruction::Pop(RegisterPairOrStatus::Bc))
    } else if w == seq![0x4Cu8, 0x44u8, 0x41u8] {
        Some(Instruction::Lda(0))
    } else if w == seq![0x53u8, 0x54u8, 0x41u8] {
        Some(Instruction::Sta(0))
    } else if w == seq![0x4Cu8, 0x48u8, 0x4Cu8, 0x44u8] {
        Some(Instruction::Lhld(0))
    } else if w == seq![0x53u8, 0x48u8, 0x4Cu8, 0x44u8] {
        Some(Instruction::Shld(0))
    } else if w == seq![0x4Au8, 0x4Du8, 0x50u8] {
        Some(Instruction::Jmp(0))
    } else if w == seq![0x43u8, 0x41u8, 0x4Cu8, 0x4Cu8] {
        Some(Instruction::Call(0))
    } else if w == seq![0x4Au8, 0x4Eu8, 0x5Au8] {
        Some(Instruction::Jcc(Condition::NoZero, 0))
    } else if w == seq![0x43u8, 0x4Eu8, 0x5Au8] {
        Some(Instruction::Ccc(Condition::NoZero, 0))
    } else if w == seq![0x4Au8, 0x5Au8] {
        Some(Instruction::Jcc(Condition::Zero, 0))
    } else if w == seq![0x43u8, 0x5Au8] {
        Some(Instruction::Ccc(Condition::Zero, 0))
    } else if w == seq![0x4Au8, 0x4Eu8, 0x43u8] {
        Some(Instruction::Jcc(Condition::NoCarry, 0))
    } else if w == seq![0x43u8, 0x4Eu8, 0x43u8] {
        Some(Instruction::Ccc(Condition::NoCarry, 0))
    } else if w == seq![0x4Au8, 0x43u8] {
        Some(Instruction::Jcc(Condition::Carry, 0))
    } else if w == seq![0x43u8, 0x43u8] {
        Some(Instruction::Ccc(Condition::Carry, 0))
    } else if w == seq![0x4Au8, 0x50u8, 0x4Fu8] {
        Some(Instruction::Jcc(Condition::ParityOdd, 0))
    } else if w == seq![0x43u8, 0x50u8, 0x4Fu8] {
        Some(Instruction::Ccc(Condition::ParityOdd, 0))
    } else if w == seq![0x4Au8, 0x50u8, 0x45u8] {
        Some(Instruction::Jcc(Condition::ParityEven, 0))
    } else if w == seq![0x43u8, 0x50u8, 0x45u8] {
        Some(Instruction::Ccc(Condition::ParityEven, 0))
    } else if w == seq![0x4Au8, 0x50u8] {
        Some(Instruction::Jcc(Condition::Positive, 0))
    } else if w == seq![0x43u8, 0x50u8] {
        Some(Instruction::Ccc(Condition::Positive, 0))
    } else if w == seq![0x4Au8, 0x4Du8] {
        Some(Instruction::Jcc(Condition::Minus, 0))
    } else if w == seq![0x43u8, 0x4Du8] {
        Some(Instruction::Ccc(Condition::Minus, 0))
    } else {
        None
    }
}

/// A register name at `q`, and where it ends.
pub open spec fn register_at(s: Seq<u8>, q: int) -> Option<(Register, int)> {
    if 0 <= q < s.len() && register_named(s[q]) is Some {
        Some((register_named(s[q]).unwrap(), q + 1))
    } else {
        None
    }
}

/// A comma, with whitespace on either side, at `q`, and where it ends.
pub open spec fn comma_at(s: Seq<u8>, q: int) -> Option<int> {
    let a = ws_end(s, q);
    if 0 <= a < s.len() && s[a] == 0x2C {
        Some(ws_end(s, a + 1))
    } else {
        None
    }
}

/// A register pair name (`B`, `D`, `H` or `SP`) at `q`, and where it ends.
pub open spec fn pair_at(s: Seq<u8>, q: int) -> Option<(RegisterPair, int)> {
    if 0 <= q && q + 1 < s.len() && s[q] == 0x53 && s[q + 1] == 0x50 {
        Some((RegisterPair::Sp, q + 2))
    } else if 0 <= q < s.len() && s[q] == 0x42 {
        Some((RegisterPair::Bc, q + 1))
    } else if 0 <= q < s.len() && s[q] == 0x44 {
        Some((RegisterPair::De, q + 1))
    } else if 0 <= q < s.len() && s[q] == 0x48 {
        Some((RegisterPair::Hl, q + 1))
    } else {
        None
    }
}

/// `B` or `D` at `q`, as the operand of `LDAX` and `STAX`.
pub open spec fn indirect_at(s: Seq<u8>, q: int) -> Option<(RegisterPairIndirect, int)> {
    match pair_at(s, q) {
        Some((RegisterPair::Bc, e)) => Some((RegisterPairIndirect::Bc, e)),
        Some((RegisterPair::De, e)) => Some((RegisterPairIndirect::De, e)),
        _ => None,
    }
}

/// `B`, `D`, `H` or `PSW` at `q`, as the operand of `PUSH` and `POP`.
pub open spec fn stack_at(s: Seq<u8>, q: int) -> Option<(RegisterPairOrStatus, int)> {
    let e = upper_end(s, q);
    if s.subrange(q, e) == seq![0x50u8, 0x53u8, 0x57u8] {
        Some((RegisterPairOrStatus::StatusWord, e))
    } else {
        match pair_at(s, q) {
            Some((RegisterPair::Bc, e)) => Some((RegisterPairOrStatus::Bc, e)),
            Some((RegisterPair::De, e)) => Some((RegisterPairOrStatus::De, e)),
            Some((RegisterPair::Hl, e)) => Some((RegisterPairOrStatus::Hl, e)),
            _ => None,
        }
    }
}

/// A number literal at `q`: its value, if it has one, and where it ends.
pub open spec fn literal_at(s: Seq<u8>, q: int) -> Option<(Option<u16>, int)> {
    let e = hex_end(s, q);
    if e == q {
        None
    } else if e < s.len() && s[e] == 0x48 {
        Some((literal_value(s.subrange(q, e), Some(Base::Hex)), e + 1))
    } else if e < s.len() && s[e] == 0x51 {
        Some((literal_value(s.subrange(q, e), Some(Base::Octal)), e + 1))
    } else {
        Some((literal_value(s.subrange(q, e), None), e))
    }
}

/// A byte-sized literal at `q`.
pub open spec fn data8_at(s: Seq<u8>, q: int) -> Option<(u8, int)> {
    match literal_at(s, q) {
        Some((Some(v), e)) => if v < 0x100 {
            Some((v as u8, e))
        } else {
            None
        },
        _ => None,
    }
}

/// A restart number, 0 to 7, at `q`.
pub open spec fn restart_at(s: Seq<u8>, q: int) -> Option<(RestartNumber, int)> {
    match literal_at(s, q) {
        Some((Some(v), e)) => if v < 8 {
            Some((RestartNumber::from_code(v as u8), e))
        } else {
            None
        },
        _ => None,
    }
}

/// A label reference at `q`: a letter, `@` or `?`, then letters and digits.
pub open spec fn label_ref_at(s: Seq<u8>, q: int) -> Option<(Seq<u8>, int)> {
    if 0 <= q < s.len() && (is_upper(s[q]) || s[q] == 0x40 || s[q] == 0x3F) {
        Some((s.subrange(q, alnum_end(s, q + 1)), alnum_end(s, q + 1)))
    } else {
        None
    }
}

/// A 16-bit operand at `q`: a literal, which starts with a decimal digit,
/// or a label reference, whose name comes back with a zero value.
pub open spec fn address_at(s: Seq<u8>, q: int) -> Option<(u16, Option<Seq<u8>>, int)> {
    if 0 <= q < s.len() && is_digit(s[q]) {
        match literal_at(s, q) {
            Some((Some(v), e)) => Some((v, None, e)),
            _ => None,
        }
    } else {
        match label_ref_at(s, q) {
            Some((name, e)) => Some((0, Some(name), e)),
            None => None,
        }
    }
}

/// The instruction of form `form` whose operands are written from offset
/// `q` on: the instruction, the label its 16-bit operand names, and where
/// the operands end.
pub open spec fn operands_at(s: Seq<u8>, q: int, form: Instruction) -> Option<
    (Instruction, Option<Seq<u8>>, int),
> {
    match form {
        Instruction::Nop => Some((form, None, q)),
        Instruction::Hlt => Some((form, None, q)),
        Instruction::Ret => Some((form, None, q)),
        Instruction::Rlc => Some((form, None, q)),
        Instruction::Rrc => Some((form, None, q)),
        Instruction::Ral => Some((form, None, q)),
        Instruction::Rar => Some((form, None, q)),
        Instruction::Daa => Some((form, None, q)),
        Instruction::Cma => Some((form, None, q)),
        Instruction::Cmc => Some((form, None, q)),
        Instruction::Stc => Some((form, None, q)),
        Instruction::Xchg => Some((form, None, q)),
        Instruction::Xthl => Some((form, None, q)),
        Instruction::Sphl => Some((form, None, q)),
        Instruction::Pchl => Some((form, None, q)),
        Instruction::Ei => Some((form, None, q)),
        Instruction::Di => Some((form, None, q)),
        Instruction::Rcc(_) => Some((form, None, q)),
        Instruction::Add(_) => match register_at(s, q) {
            Some((r, e)) => Some((Instruction::Add(r), None, e)),
            None => None,
        },
        Instruction::Adc(_) => match register_at(s, q) {
            Some((r, e)) => Some((Instruction::Adc(r), None, e)),
            None => None,
        },
        Instruction::Sub(_) => match register_at(s, q) {
            Some((r, e)) => Some((Instruction::Sub(r), None, e)),
            None => None,
        },
        Instruction::Sbb(_) => match register_at(s, q) {
            Some((r, e)) => Some((Instruction::Sbb(r), None, e)),
            None => None,
        },
        Instruction::Ana(_) => match register_at(s, q) {
            Some((r, e)) => Some((Instruction::Ana(r), None, e)),
            None => None,
        },
        Instruction::Xra(_) => match register_at(s, q) {
            Some((r, e)) => Some((Instruction::Xra(r), None, e)),
            None => None,
        },
        Instruction::Ora(_) => match register_at(s, q) {
            Some((r, e)) => Some((Instruction::Ora(r), None, e)),
            None => None,
        },
        Instruction::Cmp(_) => match register_at(s, q) {
            Some((r, e)) => Some((Instruction::Cmp(r), None, e)),
            None => None,
        },
        Instruction::Inr(_) => match register_at(s, q) {
            Some((r, e)) => Some((Instruction::Inr(r), None, e)),
            None => None,
        },
        Instruction::Dcr(_) => match register_at(s, q) {
            Some((r, e)) => Some((Instruction::Dcr(r), None, e)),
            None => None,
        },
        Instruction::Mov(..) => match register_at(s, q) {
            Some((d, q1)) => match comma_at(s, q1) {
                Some(q2) => match register_at(s, q2) {
                    Some((r, e)) => Some((Instruction::Mov(d, r), None, e)),
                    None => None,
                },
                None => None,
            },
            None => None,
        },
        Instruction::Mvi(..) => match register_at(s, q) {
            Some((d, q1)) => match comma_at(s, q1) {
                Some(q2) => match data8_at(s, q2) {
                    Some((x, e)) => Some((Instruction::Mvi(d, x), None, e)),
                    None => None,
                },
                None => None,
            },
            None => None,
        },
        Instruction::Adi(_) => match data8_at(s, q) {
            Some((x, e)) => Some((Instruction::Adi(x), None, e)),
            None => None,
        },
        Instruction::Aci(_) => match data8_at(s, q) {
            Some((x, e)) => Some((Instruction::Aci(x), None, e)),
            None => None,
        },
        Instruction::Sui(_) => match data8_at(s, q) {
            Some((x, e)) => Some((Instruction::Sui(x), None, e)),
            None => None,
        },
        Instruction::Sbi(_) => match data8_at(s, q) {
            Some((x, e)) => Some((Instruction::Sbi(x), None, e)),
            None => None,
        },
        Instruction::Ani(_) => match data8_at(s, q) {
            Some((x, e)) => Some((Instruction::Ani(x), None, e)),
            None => None,
        },
        Instruction::Xri(_) => match data8_at(s, q) {
            Some((x, e)) => Some((Instruction::Xri(x), None, e)),
            None => None,
        },
        Instruction::Ori(_) => match data8_at(s, q) {
            Some((x, e)) => Some((Instruction::Ori(x), None, e)),
            None => None,
        },
        Instruction::Cpi(_) => match data8_at(s, q) {
            Some((x, e)) => Some((Instruction::Cpi(x), None, e)),
            None => None,
        },
        Instruction::In(_) => match data8_at(s, q) {
            Some((x, e)) => Some((Instruction::In(x), None, e)),
            None => None,
        },
        Instruction::Out(_) => match data8_at(s, q) {
            Some((x, e)) => Some((Instruction::Out(x), None, e)),
            None => None,
        },
        Instruction::Rst(_) => match restart_at(s, q) {
            Some((n, e)) => Some((Instruction::Rst(n), None, e)),
            None => None,
        },
        Instruction::Inx(_) => match pair_at(s, q) {
            Some((rp, e)) => Some((Instruction::Inx(rp), None, e)),
            None => None,
        },
        Instruction::Dcx(_) => match pair_at(s, q) {
            Some((rp, e)) => Some((Instruction::Dcx(rp), None, e)),
            None => None,
        },
        Instruction::Dad(_) => match pair_at(s, q) {
            Some((rp, e)) => Some((Instruction::Dad(rp), None, e)),
            None => None,
        },
        Instruction::Lxi(..) => match pair_at(s, q) {
            Some((rp, q1)) => match comma_at(s, q1) {
                Some(q2) => match address_at(s, q2) {
                    Some((v, t, e)) => Some((Instruction::Lxi(rp, data16_of(v)), t, e)),
                    None => None,
                },
                None => None,
            },
            None => None,
        },
        Instruction::Ldax(_) => match indirect_at(s, q) {
            Some((rp, e)) => Some((Instruction::Ldax(rp), None, e)),
            None => None,
        },
        Instruction::Stax(_) => match indirect_at(s, q) {
            Some((rp, e)) => Some((Instruction::Stax(rp), None, e)),
            None => None,
        },
        Instruction::Push(_) => match stack_at(s, q) {
            Some((rp, e)) => Some((Instruction::Push(rp), None, e)),
            None => None,
        },
        Instruction::Pop(_) => match stack_at(s, q) {
            Some((rp, e)) => Some((Instruction::Pop(rp), None, e)),
            None => None,
        },
        Instruction::Lda(_) => match address_at(s, q) {
            Some((a, t, e)) => Some((Instruction::Lda(a), t, e)),
            None => None,
        },
        Instruction::Sta(_) => match address_at(s, q) {
            Some((a, t, e)) => Some((Instruction::Sta(a), t, e)),
            None => None,
        },
        Instruction::Lhld(_) => match address_at(s, q) {
            Some((a, t, e)) => Some((Instruction::Lhld(a), t, e)),
            None => None,
        },
        Instruction::Shld(_) => match address_at(s, q) {
            Some((a, t, e)) => Some((Instruction::Shld(a), t, e)),
            None => None,
        },
        Instruction::Jmp(_) => match address_at(s, q) {
            Some((a, t, e)) => Some((Instruction::Jmp(a), t, e)),
            None => None,
        },
        Instruction::Call(_) => match address_at(s, q) {
            Some((a, t, e)) => Some((Instruction::Call(a), t, e)),
            None => None,
        },
        Instruction::Jcc(c, _) => match address_at(s, q) {
            Some((a, t, e)) => Some((Instruction::Jcc(c, a), t, e)),
            None => None,
        },
        Instruction::Ccc(c, _) => match address_at(s, q) {
            Some((a, t, e)) => Some((Instruction::Ccc(c, a), t, e)),
            None => None,
        },
    }
}

/// The label name an instruction's operand refers to, as bytes.
pub open spec fn target_view(target: Option<Vec<u8>>) -> Option<Seq<u8>> {
    match target {
        Some(name) => Some(name@),
        None => None,
    }
}

/// The instruction written at offset `p`: the mnemonic there, then its
/// operands after whitespace. With it, the label its operand names and
/// where the operands end.
pub open spec fn instruction_at(s: Seq<u8>, p: int) -> Option<(Instruction, Option<Seq<u8>>, int)> {
    if 0 <= p < s.len() {
        match template(s.subrange(p, upper_end(s, p))) {
            Some(form) => operands_at(s, ws_end(s, upper_end(s, p)), form),
            None => None,
        }
    } else {
        None
    }
}

/// `new` has read on from `old`, over the same bytes.
pub open spec fn moved_on(old: Reader, new: Reader) -> bool {
    &&& new.wf()
    &&& new.all() == old.all()
    &&& old.position() <= new.position()
}

/// Where a label segment names the source bytes at its offset.
pub open spec fn label_in_source(l: Option<LabelSegment>, source: Seq<u8>) -> bool {
    match l {
        Some(seg) => seg.index + seg.name@.len() <= source.len() && seg.name@ == source.subrange(
            seg.index as int,
            seg.index + seg.name@.len(),
        ),
        None => true,
    }
}

fn plain(i: Instruction) -> (r: ParsedInstruction)
    ensures
        r.instruction == i,
        r.target.is_none(),
{
    ParsedInstruction { instruction: i, target: None }
}

fn word_is2(w: &[u8], c0: u8, c1: u8) -> (r: bool)
    ensures
        r == (w@ == seq![c0, c1]),
{
    let r = w.len() == 2 && w[0] == c0 && w[1] == c1;
    proof {
        if w@.len() == 2 && w@[0] == c0 && w@[1] == c1 {
            assert(w@ =~= seq![c0, c1]);
        }
    }
    r
}

fn word_is3(w: &[u8], c0: u8, c1: u8, c2: u8) -> (r: bool)
    ensures
        r == (w@ == seq![c0, c1, c2]),
{
    let r = w.len() == 3 && w[0] == c0 && w[1] == c1 && w[2] == c2;
    proof {
        if w@.len() == 3 && w@[0] == c0 && w@[1] == c1 && w@[2] == c2 {
            assert(w@ =~= seq![c0, c1, c2]);
        }
    }
    r
}

fn word_is4(w: &[u8], c0: u8, c1: u8, c2: u8, c3: u8) -> (r: bool)
    ensures
        r == (w@ == seq![c0, c1, c2, c3]),
{
    let r = w.len() == 4 && w[0] == c0 && w[1] == c1 && w[2] == c2 && w[3] == c3;
    proof {
        if w@.len() == 4 && w@[0] == c0 && w@[1] == c1 && w@[2] == c2 && w@[3] == c3 {
            assert(w@ =~= seq![c0, c1, c2, c3]);
        }
    }
    r
}

fn copy_bytes(s: &[u8]) -> (r: Vec<u8>)
    ensures
        r@ == s@,
{
    let mut r: Vec<u8> = Vec::new();
    let mut i: usize = 0;
    while i < s.len()
        invariant
            i <= s@.len(),
            r@ == s@.subrange(0, i as int),
        decreases s.len() - i,
    {
        r.push(s[i]);
        assert(r@ =~= s@.subrange(0, i + 1));
        i = i + 1;
    }
    assert(s@.subrange(0, i as int) =~= s@);
    r
}

/// The first index at or after `i` that holds no upper-case letter.
pub open spec fn upper_end(s: Seq<u8>, i: int) -> int
    decreases s.len() - i,
{
    if i < 0 || i >= s.len() || !is_upper(s[i]) {
        i
    } else {
        upper_end(s, i + 1)
    }
}

/// Reads a run of upper-case letters.
fn read_word<'a>(reader: &mut Reader<'a>) -> (r: &'a [u8])
    requires
        old(reader).wf(),
    ensures
        moved_on(*old(reader), *final(reader)),
        final(reader).position() == upper_end(old(reader).all(), old(reader).position()),
        r@ == old(reader).all().subrange(old(reader).position(), final(reader).position()),
{
    proof {
        reader.lemma_wf();
    }
    let ghost all = reader.all();
    let ghost p = reader.position();
    let mut n: usize = 0;
    loop
        invariant
            *reader == *old(reader),
            reader.wf(),
            all == reader.all(),
            p == reader.position(),
            0 <= p <= all.len() <= usize::MAX,
            p + n <= all.len(),
            upper_end(all, p + n) == upper_end(all, p),
        ensures
            upper_end(all, p) == p + n,
            p + n <= all.len(),
        decreases all.len() - p - n,
    {
        proof {
            reader.lemma_wf();
        }
        match reader.peek_at(n) {
            Some(b) => {
                assert(b == all[p + n]);
                if b >= 0x41 && b <= 0x5A {
                    n = n + 1;
                } else {
                    break ;
                }
            },
            None => break ,
        }
    }
    let word = match reader.read_n(n) {
        Some(s) => s,
        None => &[],
    };
    assert(word@ =~= all.subrange(p, p + n));
    word
}

/// Reads a label reference: a letter, `@` or `?`, then letters and digits.
fn read_label_ref(reader: &mut Reader) -> (r: Option<Vec<u8>>)
    requires
        old(reader).wf(),
    ensures
        r is None ==> label_ref_at(old(reader).all(), old(reader).position()) is None,
        moved_on(*old(reader), *final(reader)),
        r is Some ==> label_ref_at(old(reader).all(), old(reader).position()) == Some(
            (r.unwrap()@, final(reader).position()),
        ),
{
    proof {
        reader.lemma_wf();
    }
    let ghost all = reader.all();
    let ghost p = reader.position();
    match reader.peek() {
        Some(b) => {
            if !((b >= 0x41 && b <= 0x5A) || b == 0x40 || b == 0x3F) {
                return None;
            }
        },
        None => return None,
    }
    let mut n: usize = 1;
    loop
        invariant
            *reader == *old(reader),
            reader.wf(),
            all == reader.all(),
            p == reader.position(),
            0 <= p < all.len() <= usize::MAX,
            1 <= n,
            p + n <= all.len(),
            alnum_end(all, p + n) == alnum_end(all, p + 1),
        ensures
            alnum_end(all, p + 1) == p + n,
            p + n <= all.len(),
            1 <= n,
        decreases all.len() - p - n,
    {
        proof {
            reader.lemma_wf();
        }
        match reader.peek_at(n) {
            Some(b) => {
                assert(b == all[p + n]);
                if (b >= 0x41 && b <= 0x5A) || (b >= 0x30 && b <= 0x39) {
                    n = n + 1;
                } else {
                    break ;
                }
            },
            None => break ,
        }
    }
    match reader.read_n(n) {
        Some(s) => {
            assert(s@ =~= all.subrange(p, p + n));
            Some(copy_bytes(s))
        },
        None => None,
    }
}

fn comma(reader: &mut Reader) -> (r: Result<(), AssemblyError>)
    requires
        old(reader).wf(),
    ensures
        r is Ok <==> comma_at(old(reader).all(), old(reader).position()) is Some,
        r is Ok ==> comma_at(old(reader).all(), old(reader).position()) == Some(final(reader).position()),
        moved_on(*old(reader), *final(reader)),
        fails_within(r, old(reader).all().len() as int),
        fails_in_syntax(r),
{
    proof {
        reader.lemma_wf();
    }
    reader.skip_ws();
    proof {
        reader.lemma_wf();
    }
    let index = reader.read_amount_bytes();
    match reader.peek() {
        Some(b) => {
            if b != 0x2C {
                return Err(AssemblyError::Parse(index));
            }
        },
        None => return Err(AssemblyError::Parse(index)),
    }
    reader.skip();
    reader.skip_ws();
    Ok(())
}

fn register_operand(reader: &mut Reader) -> (r: Result<Register, AssemblyError>)
    requires
        old(reader).wf(),
    ensures
        r is Ok <==> register_at(old(reader).all(), old(reader).position()) is Some,
        r is Ok ==> register_at(old(reader).all(), old(reader).position()) == Some(
            (r.unwrap(), final(reader).position()),
        ),
        moved_on(*old(reader), *final(reader)),
        fails_within(r, old(reader).all().len() as int),
        fails_in_syntax(r),
{
    proof {
        reader.lemma_wf();
    }
    let index = reader.read_amount_bytes();
    match reader.expect_register() {
        Ok(r) => Ok(r),
        Err(_) => Err(AssemblyError::Parse(index)),
    }
}

fn pair_operand(reader: &mut Reader) -> (r: Result<RegisterPair, AssemblyError>)
    requires
        old(reader).wf(),
    ensures
        r is Ok <==> pair_at(old(reader).all(), old(reader).position()) is Some,
        r is Ok ==> pair_at(old(reader).all(), old(reader).position()) == Some(
            (r.unwrap(), final(reader).position()),
        ),
        moved_on(*old(reader), *final(reader)),
        fails_within(r, old(reader).all().len() as int),
        fails_in_syntax(r),
{
    proof {
        reader.lemma_wf();
    }
    let index = reader.read_amount_bytes();
    match reader.expect_register_pair() {
        Ok(r) => Ok(r),
        Err(_) => Err(AssemblyError::Parse(index)),
    }
}

fn indirect_operand(reader: &mut Reader) -> (r: Result<RegisterPairIndirect, AssemblyError>)
    requires
        old(reader).wf(),
    ensures
        r is Ok <==> indirect_at(old(reader).all(), old(reader).position()) is Some,
        r is Ok ==> indirect_at(old(reader).all(), old(reader).position()) == Some(
            (r.unwrap(), final(reader).position()),
        ),
        moved_on(*old(reader), *final(reader)),
        fails_within(r, old(reader).all().len() as int),
        fails_in_syntax(r),
{
    proof {
        reader.lemma_wf();
    }
    let index = reader.read_amount_bytes();
    match reader.expect_register_pair() {
        Ok(RegisterPair::Bc) => Ok(RegisterPairIndirect::Bc),
        Ok(RegisterPair::De) => Ok(RegisterPairIndirect::De),
        _ => Err(AssemblyError::Parse(index)),
    }
}

fn stack_operand(reader: &mut Reader) -> (r: Result<RegisterPairOrStatus, AssemblyError>)
    requires
        old(reader).wf(),
    ensures
        r is Ok <==> stack_at(old(reader).all(), old(reader).position()) is Some,
        r is Ok ==> stack_at(old(reader).all(), old(reader).position()) == Some(
            (r.unwrap(), final(reader).position()),
        ),
        moved_on(*old(reader), *final(reader)),
        fails_within(r, old(reader).all().len() as int),
        fails_in_syntax(r),
{
    proof {
        reader.lemma_wf();
    }
    let index = reader.read_amount_bytes();
    let saved = *reader;
    let word = read_word(reader);
    if word_is3(word, 0x50, 0x53, 0x57) {
        return Ok(RegisterPairOrStatus::StatusWord);
    }
    *reader = saved;
    match reader.expect_register_pair() {
        Ok(RegisterPair::Bc) => Ok(RegisterPairOrStatus::Bc),
        Ok(RegisterPair::De) => Ok(RegisterPairOrStatus::De),
        Ok(RegisterPair::Hl) => Ok(RegisterPairOrStatus::Hl),
        _ => Err(AssemblyError::Parse(index)),
    }
}

fn data8_operand(reader: &mut Reader) -> (r: Result<u8, AssemblyError>)
    requires
        old(reader).wf(),
    ensures
        r is Ok <==> data8_at(old(reader).all(), old(reader).position()) is Some,
        r is Ok ==> data8_at(old(reader).all(), old(reader).position()) == Some(
            (r.unwrap(), final(reader).position()),
        ),
        moved_on(*old(reader), *final(reader)),
        fails_within(r, old(reader).all().len() as int),
        fails_in_syntax(r),
{
    proof {
        reader.lemma_wf();
    }
    let index = reader.read_amount_bytes();
    match read_literal(reader) {
        Some(literal) => match to_u8(&literal) {
            Some(v) => Ok(v),
            None => Err(AssemblyError::NumberOutOfRange(index)),
        },
        None => Err(AssemblyError::Parse(index)),
    }
}

fn restart_operand(reader: &mut Reader) -> (r: Result<RestartNumber, AssemblyError>)
    requires
        old(reader).wf(),
    ensures
        r is Ok <==> restart_at(old(reader).all(), old(reader).position()) is Some,
        r is Ok ==> restart_at(old(reader).all(), old(reader).position()) == Some(
            (r.unwrap(), final(reader).position()),
        ),
        moved_on(*old(reader), *final(reader)),
        fails_within(r, old(reader).all().len() as int),
        fails_in_syntax(r),
{
    proof {
        reader.lemma_wf();
    }
    let index = reader.read_amount_bytes();
    match read_literal(reader) {
        Some(literal) => match to_restart_number(&literal) {
            Some(n) => Ok(n),
            None => Err(AssemblyError::NumberOutOfRange(index)),
        },
        None => Err(AssemblyError::Parse(index)),
    }
}

/// A 16-bit operand: a number, which starts with a decimal digit, or a
/// label, whose name is returned for later lookup.
fn address_operand(reader: &mut Reader) -> (r: Result<(u16, Option<Vec<u8>>), AssemblyError>)
    requires
        old(reader).wf(),
    ensures
        r is Ok <==> address_at(old(reader).all(), old(reader).position()) is Some,
        r is Ok ==> address_at(old(reader).all(), old(reader).position()) == Some(
            (r.unwrap().0, target_view(r.unwrap().1), final(reader).position()),
        ),
        moved_on(*old(reader), *final(reader)),
        fails_within(r, old(reader).all().len() as int),
        fails_in_syntax(r),
{
    proof {
        reader.lemma_wf();
    }
    let index = reader.read_amount_bytes();
    match reader.peek() {
        Some(b) => {
            if b >= 0x30 && b <= 0x39 {
                match read_literal(reader) {
                    Some(literal) => match to_u16(&literal) {
                        Some(v) => Ok((v, None)),
                        None => Err(AssemblyError::NumberOutOfRange(index)),
                    },
                    None => Err(AssemblyError::Parse(index)),
                }
            } else {
                match read_label_ref(reader) {
                    Some(name) => Ok((0, Some(name))),
                    None => Err(AssemblyError::Parse(index)),
                }
            }
        },
        None => Err(AssemblyError::Parse(index)),
    }
}

/// The instruction a mnemonic names, with zero operands.
fn classify(word: &[u8]) -> (r: Option<Instruction>)
    ensures
        r == template(word@),
        r is Some ==> word@.len() > 0,
{
    proof {
        reveal(template);
    }
    if word_is3(word, 0x4E, 0x4F, 0x50) {
        return Some(Instruction::Nop);
    }
    if word_is3(word, 0x48, 0x4C, 0x54) {
        return Some(Instruction::Hlt);
    }
    if word_is3(word, 0x52, 0x45, 0x54) {
        return Some(Instruction::Ret);
    }
    if word_is3(word, 0x52, 0x4C, 0x43) {
        return Some(Instruction::Rlc);
    }
    if word_is3(word, 0x52, 0x52, 0x43) {
        return Some(Instruction::Rrc);
    }
    if word_is3(word, 0x52, 0x41, 0x4C) {
        return Some(Instruction::Ral);
    }
    if word_is3(word, 0x52, 0x41, 0x52) {
        return Some(Instruction::Rar);
    }
    if word_is3(word, 0x44, 0x41, 0x41) {
        return Some(Instruction::Daa);
    }
    if word_is3(word, 0x43, 0x4D, 0x41) {
        return Some(Instruction::Cma);
    }
    if word_is3(word, 0x43, 0x4D, 0x43) {
        return Some(Instruction::Cmc);
    }
    if word_is3(word, 0x53, 0x54, 0x43) {
        return Some(Instruction::Stc);
    }
    if word_is4(word, 0x58, 0x43, 0x48, 0x47) {
        return Some(Instruction::Xchg);
    }
    if word_is4(word, 0x58, 0x54, 0x48, 0x4C) {
        return Some(Instruction::Xthl);
    }
    if word_is4(word, 0x53, 0x50, 0x48, 0x4C) {
        return Some(Instruction::Sphl);
    }
    if word_is4(word, 0x50, 0x43, 0x48, 0x4C) {
        return Some(Instruction::Pchl);
    }
    if word_is2(word, 0x45, 0x49) {
        return Some(Instruction::Ei);
    }
    if word_is2(word, 0x44, 0x49) {
        return Some(Instruction::Di);
    }
    if word_is3(word, 0x52, 0x4E, 0x5A) {
        return Some(Instruction::Rcc(Condition::NoZero));
    }
    if word_is2(word, 0x52, 0x5A) {
        return Some(Instruction::Rcc(Condition::Zero));
    }
    if word_is3(word, 0x52, 0x4E, 0x43) {
        return Some(Instruction::Rcc(Condition::NoCarry));
    }
    if word_is2(word, 0x52, 0x43) {
        return Some(Instruction::Rcc(Condition::Carry));
    }
    if word_is3(word, 0x52, 0x50, 0x4F) {
        return Some(Instruction::Rcc(Condition::ParityOdd));
    }
    if word_is3(word, 0x52, 0x50, 0x45) {
        return Some(Instruction::Rcc(Condition::ParityEven));
    }
    if word_is2(word, 0x52, 0x50) {
        return Some(Instruction::Rcc(Condition::Positive));
    }
    if word_is2(word, 0x52, 0x4D) {
        return Some(Instruction::Rcc(Condition::Minus));
    }
    if word_is3(word, 0x41, 0x44, 0x44) {
        return Some(Instruction::Add(Register::B));
    }
    if word_is3(word, 0x41, 0x44, 0x43) {
        return Some(Instruction::Adc(Register::B));
    }
    if word_is3(word, 0x53, 0x55, 0x42) {
        return Some(Instruction::Sub(Register::B));
    }
    if word_is3(word, 0x53, 0x42, 0x42) {
        return Some(Instruction::Sbb(Register::B));
    }
    if word_is3(word, 0x41, 0x4E, 0x41) {
        return Some(Instruction::Ana(Register::B));
    }
    if word_is3(word, 0x58, 0x52, 0x41) {
        return Some(Instruction::Xra(Register::B));
    }
    if word_is3(word, 0x4F, 0x52, 0x41) {
        return Some(Instruction::Ora(Register::B));
    }
    if word_is3(word, 0x43, 0x4D, 0x50) {
        return Some(Instruction::Cmp(Register::B));
    }
    if word_is3(word, 0x49, 0x4E, 0x52) {
        return Some(Instruction::Inr(Register::B));
    }
    if word_is3(word, 0x44, 0x43, 0x52) {
        return Some(Instruction::Dcr(Register::B));
    }
    if word_is3(word, 0x4D, 0x4F, 0x56) {
        return Some(Instruction::Mov(Register::B, Register::B));
    }
    if word_is3(word, 0x4D, 0x56, 0x49) {
        return Some(Instruction::Mvi(Register::B, 0));
    }
    if word_is3(word, 0x41, 0x44, 0x49) {
        return Some(Instruction::Adi(0));
    }
    if word_is3(word, 0x41, 0x43, 0x49) {
        return Some(Instruction::Aci(0));
    }
    if word_is3(word, 0x53, 0x55, 0x49) {
        return Some(Instruction::Sui(0));
    }
    if word_is3(word, 0x53, 0x42, 0x49) {
        return Some(Instruction::Sbi(0));
    }
    if word_is3(word, 0x41, 0x4E, 0x49) {
        return Some(Instruction::Ani(0));
    }
    if word_is3(word, 0x58, 0x52, 0x49) {
        return Some(Instruction::Xri(0));
    }
    if word_is3(word, 0x4F, 0x52, 0x49) {
        return Some(Instruction::Ori(0));
    }
    if word_is3(word, 0x43, 0x50, 0x49) {
        return Some(Instruction::Cpi(0));
    }
    if word_is2(word, 0x49, 0x4E) {
        return Some(Instruction::In(0));
    }
    if word_is3(word, 0x4F, 0x55, 0x54) {
        return Some(Instruction::Out(0));
    }
    if word_is3(word, 0x52, 0x53, 0x54) {
        return Some(Instruction::Rst(RestartNumber::R0));
    }
    if word_is3(word, 0x49, 0x4E, 0x58) {
        return Some(Instruction::Inx(RegisterPair::Bc));
    }
    if word_is3(word, 0x44, 0x43, 0x58) {
        return Some(Instruction::Dcx(RegisterPair::Bc));
    }
    if word_is3(word, 0x44, 0x41, 0x44) {
        return Some(Instruction::Dad(RegisterPair::Bc));
    }
    if word_is3(word, 0x4C, 0x58, 0x49) {
        return Some(Instruction::Lxi(RegisterPair::Bc, Data16 { low: 0, high: 0 }));
    }
    if word_is4(word, 0x4C, 0x44, 0x41, 0x58) {
        return Some(Instruction::Ldax(RegisterPairIndirect::Bc));
    }
    if word_is4(word, 0x53, 0x54, 0x41, 0x58) {
        return Some(Instruction::Stax(RegisterPairIndirect::Bc));
    }
    if word_is4(word, 0x50, 0x55, 0x53, 0x48) {
        return Some(Instruction::Push(RegisterPairOrStatus::Bc));
    }
    if word_is3(word, 0x50, 0x4F, 0x50) {
        return Some(Instruction::Pop(RegisterPairOrStatus::Bc));
    }
    if word_is3(word, 0x4C, 0x44, 0x41) {
        return Some(Instruction::Lda(0));
    }
    if word_is3(word, 0x53, 0x54, 0x41) {
        return Some(Instruction::Sta(0));
    }
    if word_is4(word, 0x4C, 0x48, 0x4C, 0x44) {
        return Some(Instruction::Lhld(0));
    }
    if word_is4(word, 0x53, 0x48, 0x4C, 0x44) {
        return Some(Instruction::Shld(0));
    }
    if word_is3(word, 0x4A, 0x4D, 0x50) {
        return Some(Instruction::Jmp(0));
    }
    if word_is4(word, 0x43, 0x41, 0x4C, 0x4C) {
        return Some(Instruction::Call(0));
    }
    if word_is3(word, 0x4A, 0x4E, 0x5A) {
        return Some(Instruction::Jcc(Condition::NoZero, 0));
    }
    if word_is3(word, 0x43, 0x4E, 0x5A) {
        return Some(Instruction::Ccc(Condition::NoZero, 0));
    }
    if word_is2(word, 0x4A, 0x5A) {
        return Some(Instruction::Jcc(Condition::Zero, 0));
    }
    if word_is2(word, 0x43, 0x5A) {
        return Some(Instruction::Ccc(Condition::Zero, 0));
    }
    if word_is3(word, 0x4A, 0x4E, 0x43) {
        return Some(Instruction::Jcc(Condition::NoCarry, 0));
    }
    if word_is3(word, 0x43, 0x4E, 0x43) {
        return Some(Instruction::Ccc(Condition::NoCarry, 0));
    }
    if word_is2(word, 0x4A, 0x43) {
        return Some(Instruction::Jcc(Condition::Carry, 0));
    }
    if word_is2(word, 0x43, 0x43) {
        return Some(Instruction::Ccc(Condition::Carry, 0));
    }
    if word_is3(word, 0x4A, 0x50, 0x4F) {
        return Some(Instruction::Jcc(Condition::ParityOdd, 0));
    }
    if word_is3(word, 0x43, 0x50, 0x4F) {
        return Some(Instruction::Ccc(Condition::ParityOdd, 0));
    }
    if word_is3(word, 0x4A, 0x50, 0x45) {
        return Some(Instruction::Jcc(Condition::ParityEven, 0));
    }
    if word_is3(word, 0x43, 0x50, 0x45) {
        return Some(Instruction::Ccc(Condition::ParityEven, 0));
    }
    if word_is2(word, 0x4A, 0x50) {
        return Some(Instruction::Jcc(Condition::Positive, 0));
    }
    if word_is2(word, 0x43, 0x50) {
        return Some(Instruction::Ccc(Condition::Positive, 0));
    }
    if word_is2(word, 0x4A, 0x4D) {
        return Some(Instruction::Jcc(Condition::Minus, 0));
    }
    if word_is2(word, 0x43, 0x4D) {
        return Some(Instruction::Ccc(Condition::Minus, 0));
    }
    None
}

/// Reads the operands of a form without operands or with register operands.
#[verifier::spinoff_prover]
#[verifier::rlimit(60)]
fn parse_register_operands(reader: &mut Reader, form: Instruction) -> (r: Result<
    ParsedInstruction,
    AssemblyError,
>)
    requires
        old(reader).wf(),
        form is Adc || form is Add || form is Ana || form is Cma || form is Cmc || form is Cmp
            || form is Daa || form is Dcr || form is Di || form is Ei || form is Hlt || form is Inr
            || form is Mov || form is Mvi || form is Nop || form is Ora || form is Pchl
            || form is Ral || form is Rar || form is Rcc || form is Ret || form is Rlc
            || form is Rrc || form is Sbb || form is Sphl || form is Stc || form is Sub
            || form is Xchg || form is Xra || form is Xthl,
    ensures
        moved_on(*old(reader), *final(reader)),
        fails_within(r, old(reader).all().len() as int),
        fails_in_syntax(r),
        r is Ok <==> operands_at(old(reader).all(), old(reader).position(), form) is Some,
        r is Ok ==> operands_at(old(reader).all(), old(reader).position(), form) == Some(
            (r.unwrap().instruction, target_view(r.unwrap().target), final(reader).position()),
        ),
{
    match form {
        Instruction::Nop => Ok(plain(form)),
        Instruction::Hlt => Ok(plain(form)),
        Instruction::Ret => Ok(plain(form)),
        Instruction::Rlc => Ok(plain(form)),
        Instruction::Rrc => Ok(plain(form)),
        Instruction::Ral => Ok(plain(form)),
        Instruction::Rar => Ok(plain(form)),
        Instruction::Daa => Ok(plain(form)),
        Instruction::Cma => Ok(plain(form)),
        Instruction::Cmc => Ok(plain(form)),
        Instruction::Stc => Ok(plain(form)),
        Instruction::Xchg => Ok(plain(form)),
        Instruction::Xthl => Ok(plain(form)),
        Instruction::Sphl => Ok(plain(form)),
        Instruction::Pchl => Ok(plain(form)),
        Instruction::Ei => Ok(plain(form)),
        Instruction::Di => Ok(plain(form)),
        Instruction::Rcc(_) => Ok(plain(form)),
        Instruction::Add(_) => {
            let r = register_operand(reader)?;
            Ok(plain(Instruction::Add(r)))
        },
        Instruction::Adc(_) => {
            let r = register_operand(reader)?;
            Ok(plain(Instruction::Adc(r)))
        },
        Instruction::Sub(_) => {
            let r = register_operand(reader)?;
            Ok(plain(Instruction::Sub(r)))
        },
        Instruction::Sbb(_) => {
            let r = register_operand(reader)?;
            Ok(plain(Instruction::Sbb(r)))
        },
        Instruction::Ana(_) => {
            let r = register_operand(reader)?;
            Ok(plain(Instruction::Ana(r)))
        },
        Instruction::Xra(_) => {
            let r = register_operand(reader)?;
            Ok(plain(Instruction::Xra(r)))
        },
        Instruction::Ora(_) => {
            let r = register_operand(reader)?;
            Ok(plain(Instruction::Ora(r)))
        },
        Instruction::Cmp(_) => {
            let r = register_operand(reader)?;
            Ok(plain(Instruction::Cmp(r)))
        },
        Instruction::Inr(_) => {
            let r = register_operand(reader)?;
            Ok(plain(Instruction::Inr(r)))
        },
        Instruction::Dcr(_) => {
            let r = register_operand(reader)?;
            Ok(plain(Instruction::Dcr(r)))
        },
        Instruction::Mov(..) => {
            let d = register_operand(reader)?;
            comma(reader)?;
            let r = register_operand(reader)?;
            Ok(plain(Instruction::Mov(d, r)))
        },
        Instruction::Mvi(..) => {
            let d = register_operand(reader)?;
            comma(reader)?;
            let x = data8_operand(reader)?;
            Ok(plain(Instruction::Mvi(d, x)))
        },
        _ => Err(AssemblyError::Parse(reader.read_amount_bytes())),
    }
}

/// Reads the operands of a form with a byte, a restart number or a register pair.
#[verifier::spinoff_prover]
#[verifier::rlimit(60)]
fn parse_data_operands(reader: &mut Reader, form: Instruction) -> (r: Result<
    ParsedInstruction,
    AssemblyError,
>)
    requires
        old(reader).wf(),
        form is Aci || form is Adi || form is Ani || form is Cpi || form is Dad || form is Dcx
            || form is In || form is Inx || form is Ldax || form is Lxi || form is Ori
            || form is Out || form is Pop || form is Push || form is Rst || form is Sbi
            || form is Stax || form is Sui || form is Xri,
    ensures
        moved_on(*old(reader), *final(reader)),
        fails_within(r, old(reader).all().len() as int),
        fails_in_syntax(r),
        r is Ok <==> operands_at(old(reader).all(), old(reader).position(), form) is Some,
        r is Ok ==> operands_at(old(reader).all(), old(reader).position(), form) == Some(
            (r.unwrap().instruction, target_view(r.unwrap().target), final(reader).position()),
        ),
{
    match form {
        Instruction::Adi(_) => {
            let x = data8_operand(reader)?;
            Ok(plain(Instruction::Adi(x)))
        },
        Instruction::Aci(_) => {
            let x = data8_operand(reader)?;
            Ok(plain(Instruction::Aci(x)))
        },
        Instruction::Sui(_) => {
            let x = data8_operand(reader)?;
            Ok(plain(Instruction::Sui(x)))
        },
        Instruction::Sbi(_) => {
            let x = data8_operand(reader)?;
            Ok(plain(Instruction::Sbi(x)))
        },
        Instruction::Ani(_) => {
            let x = data8_operand(reader)?;
            Ok(plain(Instruction::Ani(x)))
        },
        Instruction::Xri(_) => {
            let x = data8_operand(reader)?;
            Ok(plain(Instruction::Xri(x)))
        },
        Instruction::Ori(_) => {
            let x = data8_operand(reader)?;
            Ok(plain(Instruction::Ori(x)))
        },
        Instruction::Cpi(_) => {
            let x = data8_operand(reader)?;
            Ok(plain(Instruction::Cpi(x)))
        },
        Instruction::In(_) => {
            let x = data8_operand(reader)?;
            Ok(plain(Instruction::In(x)))
        },
        Instruction::Out(_) => {
            let x = data8_operand(reader)?;
            Ok(plain(Instruction::Out(x)))
        },
        Instruction::Rst(_) => {
            let n = restart_operand(reader)?;
            Ok(plain(Instruction::Rst(n)))
        },
        Instruction::Inx(_) => {
            let rp = pair_operand(reader)?;
            Ok(plain(Instruction::Inx(rp)))
        },
        Instruction::Dcx(_) => {
            let rp = pair_operand(reader)?;
            Ok(plain(Instruction::Dcx(rp)))
        },
        Instruction::Dad(_) => {
            let rp = pair_operand(reader)?;
            Ok(plain(Instruction::Dad(rp)))
        },
        Instruction::Lxi(..) => {
            let rp = pair_operand(reader)?;
            comma(reader)?;
            let (value, target) = address_operand(reader)?;
            Ok(ParsedInstruction { instruction: Instruction::Lxi(rp, Data16::from_value(value)), target })
        },
        Instruction::Ldax(_) => {
            let rp = indirect_operand(reader)?;
            Ok(plain(Instruction::Ldax(rp)))
        },
        Instruction::Stax(_) => {
            let rp = indirect_operand(reader)?;
            Ok(plain(Instruction::Stax(rp)))
        },
        Instruction::Push(_) => {
            let rp = stack_operand(reader)?;
            Ok(plain(Instruction::Push(rp)))
        },
        Instruction::Pop(_) => {
            let rp = stack_operand(reader)?;
            Ok(plain(Instruction::Pop(rp)))
        },
        _ => Err(AssemblyError::Parse(reader.read_amount_bytes())),
    }
}

/// Reads the 16-bit operand of a direct-address or branch form.
#[verifier::spinoff_prover]
#[verifier::rlimit(60)]
fn parse_address_operands(reader: &mut Reader, form: Instruction) -> (r: Result<
    ParsedInstruction,
    AssemblyError,
>)
    requires
        old(reader).wf(),
        form is Call || form is Ccc || form is Jcc || form is Jmp || form is Lda || form is Lhld
            || form is Shld || form is Sta,
    ensures
        moved_on(*old(reader), *final(reader)),
        fails_within(r, old(reader).all().len() as int),
        fails_in_syntax(r),
        r is Ok <==> operands_at(old(reader).all(), old(reader).position(), form) is Some,
        r is Ok ==> operands_at(old(reader).all(), old(reader).position(), form) == Some(
            (r.unwrap().instruction, target_view(r.unwrap().target), final(reader).position()),
        ),
{
    match form {
        Instruction::Lda(_) => {
            let (value, target) = address_operand(reader)?;
            Ok(ParsedInstruction { instruction: Instruction::Lda(value), target })
        },
        Instruction::Sta(_) => {
            let (value, target) = address_operand(reader)?;
            Ok(ParsedInstruction { instruction: Instruction::Sta(value), target })
        },
        Instruction::Lhld(_) => {
            let (value, target) = address_operand(reader)?;
            Ok(ParsedInstruction { instruction: Instruction::Lhld(value), target })
        },
        Instruction::Shld(_) => {
            let (value, target) = address_operand(reader)?;
            Ok(ParsedInstruction { instruction: Instruction::Shld(value), target })
        },
        Instruction::Jmp(_) => {
            let (value, target) = address_operand(reader)?;
            Ok(ParsedInstruction { instruction: Instruction::Jmp(value), target })
        },
        Instruction::Call(_) => {
            let (value, target) = address_operand(reader)?;
            Ok(ParsedInstruction { instruction: Instruction::Call(value), target })
        },
        Instruction::Jcc(c, _) => {
            let (value, target) = address_operand(reader)?;
            Ok(ParsedInstruction { instruction: Instruction::Jcc(c, value), target })
        },
        Instruction::Ccc(c, _) => {
            let (value, target) = address_operand(reader)?;
            Ok(ParsedInstruction { instruction: Instruction::Ccc(c, value), target })
        },
        _ => Err(AssemblyError::Parse(reader.read_amount_bytes())),
    }
}

/// Reads the operands of an instruction of form `form`.
fn parse_operands(reader: &mut Reader, form: Instruction) -> (r: Result<
    ParsedInstruction,
    AssemblyError,
>)
    requires
        old(reader).wf(),
    ensures
        moved_on(*old(reader), *final(reader)),
        fails_within(r, old(reader).all().len() as int),
        fails_in_syntax(r),
        r is Ok <==> operands_at(old(reader).all(), old(reader).position(), form) is Some,
        r is Ok ==> operands_at(old(reader).all(), old(reader).position(), form) == Some(
            (r.unwrap().instruction, target_view(r.unwrap().target), final(reader).position()),
        ),
{
    if matches!(form, Instruction::Adc(..) | Instruction::Add(..) | Instruction::Ana(..)
        | Instruction::Cma | Instruction::Cmc | Instruction::Cmp(..) | Instruction::Daa
        | Instruction::Dcr(..) | Instruction::Di | Instruction::Ei | Instruction::Hlt
        | Instruction::Inr(..) | Instruction::Mov(..) | Instruction::Mvi(..) | Instruction::Nop
        | Instruction::Ora(..) | Instruction::Pchl | Instruction::Ral | Instruction::Rar
        | Instruction::Rcc(..) | Instruction::Ret | Instruction::Rlc | Instruction::Rrc
        | Instruction::Sbb(..) | Instruction::Sphl | Instruction::Stc | Instruction::Sub(..)
        | Instruction::Xchg | Instruction::Xra(..) | Instruction::Xthl) {
        parse_register_operands(reader, form)
    } else if matches!(form, Instruction::Call(..) | Instruction::Ccc(..) | Instruction::Jcc(..)
        | Instruction::Jmp(..) | Instruction::Lda(..) | Instruction::Lhld(..)
        | Instruction::Shld(..) | Instruction::Sta(..)) {
        parse_address_operands(reader, form)
    } else {
        parse_data_operands(reader, form)
    }
}

/// Reads an instruction: its mnemonic, then its operands.
fn parse_instruction(reader: &mut Reader) -> (r: Result<ParsedInstruction, AssemblyError>)
    requires
        old(reader).wf(),
    ensures
        moved_on(*old(reader), *final(reader)),
        fails_within(r, old(reader).all().len() as int),
        fails_in_syntax(r),
        r is Ok <==> instruction_at(old(reader).all(), old(reader).position()) is Some,
        r is Ok ==> instruction_at(old(reader).all(), old(reader).position()) == Some(
            (r.unwrap().instruction, target_view(r.unwrap().target), final(reader).position()),
        ),
{
    proof {
        reader.lemma_wf();
    }
    let index = reader.read_amount_bytes();
    let word = read_word(reader);
    reader.skip_ws();
    let form = match classify(word) {
        Some(form) => form,
        None => return Err(AssemblyError::Parse(index)),
    };
    parse_operands(reader, form)
}

/// The run of upper-case letters at `a`.
pub open spec fn word_at(s: Seq<u8>, a: int) -> Seq<u8> {
    s.subrange(a, upper_end(s, a))
}

/// A label definition at `p`: its name, and where the whitespace after
/// its colon ends.
pub open spec fn label_def_at(s: Seq<u8>, p: int) -> Option<(Seq<u8>, int)> {
    let e = alnum_end(s, p + 1);
    if 0 <= p < s.len() && (is_upper(s[p]) || s[p] == 0x40 || s[p] == 0x3F) && e < s.len() && s[e]
        == 0x3A {
        Some((s.subrange(p, e), ws_end(s, e + 1)))
    } else {
        None
    }
}

/// Where a line goes on after the label definition at `p`, if any.
pub open spec fn after_label(s: Seq<u8>, p: int) -> int {
    match label_def_at(s, p) {
        Some((_, after)) => after,
        None => p,
    }
}

/// `label` is the label definition at `p`, or `None` where there is none.
pub open spec fn label_part(s: Seq<u8>, p: int, label: Option<LabelSegment>) -> bool {
    match label_def_at(s, p) {
        Some((name, _)) => match label {
            Some(l) => l.name@ == name && l.index == p,
            None => false,
        },
        None => label is None,
    }
}

/// The end of a line from `e` on: whitespace, an optional comment, a line
/// terminator (CR LF, LF or CR) and the whitespace after it. Where the
/// next line starts.
pub open spec fn line_break_at(s: Seq<u8>, e: int) -> Option<int> {
    let m = ws_end(s, e);
    let c = if 0 <= m < s.len() && s[m] == 0x3B {
        line_end(s, m + 1)
    } else {
        m
    };
    if 0 <= c < s.len() && is_nl(s[c]) {
        let after = if s[c] == 0x0D && c + 1 < s.len() && s[c + 1] == 0x0A {
            c + 2
        } else {
            c + 1
        };
        Some(ws_end(s, after))
    } else {
        None
    }
}

/// `line` is the code line that starts at `pos`, and the next line starts
/// at `next`.
pub open spec fn line_at(s: Seq<u8>, pos: int, line: CodeLine, next: int) -> bool {
    let ls = ws_end(s, pos);
    let a = after_label(s, ls);
    &&& ls < s.len()
    &&& label_part(s, ls, line.label)
    &&& word_at(s, a) != seq![0x45u8, 0x4Eu8, 0x44u8]
    &&& if 0 <= a < s.len() && !(s[a] == 0x3B || is_nl(s[a])) {
        match line.code {
            Some(c) => c.index == a && match instruction_at(s, a) {
                Some((i, t, e)) => i == c.instruction.instruction && t == target_view(
                    c.instruction.target,
                ) && line_break_at(s, e) == Some(next),
                None => false,
            },
            None => false,
        }
    } else {
        line.code is None && line_break_at(s, a) == Some(next)
    }
}

/// The `END` line starts at `pos`, with `label`, and only whitespace,
/// line terminators and comments follow it.
pub open spec fn end_line_at(s: Seq<u8>, pos: int, label: Option<LabelSegment>) -> bool {
    let ls = ws_end(s, pos);
    let a = after_label(s, ls);
    &&& ls < s.len()
    &&& label_part(s, ls, label)
    &&& word_at(s, a) == seq![0x45u8, 0x4Eu8, 0x44u8]
    &&& blank_end(s, upper_end(s, a), false) == s.len()
}

/// The `ORG` line, if the first line after blank lines and comments is
/// one, and where the first code line starts.
pub open spec fn origin_part(s: Seq<u8>, origin: Option<OriginLine>, first: int) -> bool {
    let start = blank_end(s, 0, false);
    let a = after_label(s, start);
    if word_at(s, a) == seq![0x4Fu8, 0x52u8, 0x47u8] {
        match origin {
            Some(o) => label_part(s, start, o.label) && o.index == a && match literal_at(
                s,
                ws_end(s, upper_end(s, a)),
            ) {
                Some((Some(v), e)) => o.address == v && line_break_at(s, e) == Some(first),
                _ => false,
            },
            None => false,
        }
    } else {
        origin is None && first == start
    }
}

/// The lines of `file` start at the offsets `ps` and tile the source: the
/// `ORG` line, each code line, then the `END` line.
pub open spec fn lines_at(s: Seq<u8>, file: SourceFile, ps: Seq<int>) -> bool {
    &&& ps.len() == file.lines@.len() + 1
    &&& origin_part(s, file.origin_line, ps[0])
    &&& forall|k: int|
        0 <= k < file.lines@.len() ==> line_at(s, ps[k], #[trigger] file.lines@[k], ps[k + 1])
    &&& end_line_at(s, ps[file.lines@.len() as int], file.end_label)
}

/// `file` is what `source` says, line by line.
pub open spec fn file_written(s: Seq<u8>, file: SourceFile) -> bool {
    exists|ps: Seq<int>| lines_at(s, file, ps)
}

/// Where a code segment's instruction is the one written in the source at
/// its offset: its mnemonic, then its operands.
pub open spec fn code_in_source(c: Option<CodeSegment>, source: Seq<u8>) -> bool {
    match c {
        Some(seg) => seg.index < source.len() && match instruction_at(source, seg.index as int) {
            Some((i, t, _)) => i == seg.instruction.instruction && t == target_view(
                seg.instruction.target,
            ),
            None => false,
        },
        None => true,
    }
}

/// Every label of the file names the source bytes at its offset, and
/// every instruction is the one written at its offset.
pub open spec fn taken_from(file: SourceFile, source: Seq<u8>) -> bool {
    &&& match file.origin_line {
        Some(o) => label_in_source(o.label, source),
        None => true,
    }
    &&& forall|k: int|
        0 <= k < file.lines@.len() ==> label_in_source((#[trigger] file.lines@[k]).label, source)
            && code_in_source(file.lines@[k].code, source)
    &&& label_in_source(file.end_label, source)
}

/// Two label segments with the same name and offset.
pub open spec fn same_label(a: Option<LabelSegment>, b: Option<LabelSegment>) -> bool {
    match (a, b) {
        (Some(x), Some(y)) => x.name@ == y.name@ && x.index == y.index,
        (None, None) => true,
        _ => false,
    }
}

/// Two code segments with the same instruction, label reference and offset.
pub open spec fn same_code(a: Option<CodeSegment>, b: Option<CodeSegment>) -> bool {
    match (a, b) {
        (Some(x), Some(y)) => x.index == y.index && x.instruction.instruction
            == y.instruction.instruction && target_view(x.instruction.target) == target_view(
            y.instruction.target,
        ),
        (None, None) => true,
        _ => false,
    }
}

/// Two files that say the same, line by line.
pub open spec fn same_file(a: SourceFile, b: SourceFile) -> bool {
    &&& match (a.origin_line, b.origin_line) {
        (Some(x), Some(y)) => same_label(x.label, y.label) && x.address == y.address && x.index
            == y.index,
        (None, None) => true,
        _ => false,
    }
    &&& a.lines@.len() == b.lines@.len()
    &&& forall|k: int|
        0 <= k < a.lines@.len() ==> same_label(a.lines@[k].label, b.lines@[k].label) && same_code(
            #[trigger] a.lines@[k].code,
            b.lines@[k].code,
        )
    &&& same_label(a.end_label, b.end_label)
}

proof fn lemma_label_part_unique(s: Seq<u8>, p: int, a: Option<LabelSegment>, b: Option<LabelSegment>)
    requires
        label_part(s, p, a),
        label_part(s, p, b),
    ensures
        same_label(a, b),
{
}

proof fn lemma_positions_agree(
    s: Seq<u8>,
    f1: SourceFile,
    q1: Seq<int>,
    f2: SourceFile,
    q2: Seq<int>,
    k: int,
)
    requires
        lines_at(s, f1, q1),
        lines_at(s, f2, q2),
        0 <= k <= f1.lines@.len(),
        k <= f2.lines@.len(),
    ensures
        q1[k] == q2[k],
    decreases k,
{
    if k > 0 {
        lemma_positions_agree(s, f1, q1, f2, q2, k - 1);
        assert(line_at(s, q1[k - 1], f1.lines@[k - 1], q1[k]));
        assert(line_at(s, q2[k - 1], f2.lines@[k - 1], q2[k]));
    }
}

/// A source is written by one file at most, up to what the files say.
pub proof fn lemma_written_unique(s: Seq<u8>, f1: SourceFile, f2: SourceFile)
    requires
        file_written(s, f1),
        file_written(s, f2),
    ensures
        same_file(f1, f2),
{
    let q1 = choose|q: Seq<int>| lines_at(s, f1, q);
    let q2 = choose|q: Seq<int>| lines_at(s, f2, q);
    let n1 = f1.lines@.len() as int;
    let n2 = f2.lines@.len() as int;
    if n1 < n2 {
        lemma_positions_agree(s, f1, q1, f2, q2, n1);
        assert(line_at(s, q2[n1], f2.lines@[n1], q2[n1 + 1]));
    } else if n2 < n1 {
        lemma_positions_agree(s, f1, q1, f2, q2, n2);
        assert(line_at(s, q1[n2], f1.lines@[n2], q1[n2 + 1]));
    }
    assert forall|k: int| 0 <= k < n1 implies same_label(f1.lines@[k].label, f2.lines@[k].label)
        && same_code(#[trigger] f1.lines@[k].code, f2.lines@[k].code) by {
        lemma_positions_agree(s, f1, q1, f2, q2, k);
        assert(line_at(s, q1[k], f1.lines@[k], q1[k + 1]));
        assert(line_at(s, q2[k], f2.lines@[k], q2[k + 1]));
        lemma_label_part_unique(s, ws_end(s, q1[k]), f1.lines@[k].label, f2.lines@[k].label);
    }
    lemma_positions_agree(s, f1, q1, f2, q2, n1);
    lemma_label_part_unique(s, ws_end(s, q1[n1]), f1.end_label, f2.end_label);
    let start = blank_end(s, 0, false);
    match (f1.origin_line, f2.origin_line) {
        (Some(x), Some(y)) => lemma_label_part_unique(s, start, x.label, y.label),
        _ => {},
    }
}

/// Reads an optional label definition and the whitespace after it.
fn read_label_segment(reader: &mut Reader) -> (r: Option<LabelSegment>)
    requires
        old(reader).wf(),
    ensures
        moved_on(*old(reader), *final(reader)),
        label_in_source(r, old(reader).all()),
        label_part(old(reader).all(), old(reader).position(), r),
        final(reader).position() == after_label(old(reader).all(), old(reader).position()),
{
    proof {
        reader.lemma_wf();
        if reader.position() < reader.all().len() {
            crate::coding::reader::lemma_alnum_end_bounds(reader.all(), reader.position() + 1);
        }
    }
    let index = reader.read_amount_bytes();
    match reader.expect_label_name() {
        Ok(name) => {
            let name = copy_bytes(name);
            reader.skip_ws();
            Some(LabelSegment { name, index })
        },
        Err(_) => None,
    }
}

/// Reads the end of a line: whitespace, an optional comment and a line
/// terminator.
fn end_of_line(reader: &mut Reader) -> (r: Result<(), AssemblyError>)
    requires
        old(reader).wf(),
    ensures
        moved_on(*old(reader), *final(reader)),
        r is Ok <==> line_break_at(old(reader).all(), old(reader).position()) is Some,
        r is Ok ==> line_break_at(old(reader).all(), old(reader).position()) == Some(
            final(reader).position(),
        ),
        fails_within(r, old(reader).all().len() as int),
        fails_in_syntax(r),
        r.is_ok() ==> old(reader).position() < final(reader).position(),
{
    proof {
        reader.lemma_wf();
    }
    proof {
        reader.lemma_wf();
        crate::coding::reader::lemma_ws_end_bounds(reader.all(), reader.position());
        crate::coding::reader::lemma_ws_end_stop(reader.all(), reader.position());
        let m = ws_end(reader.all(), reader.position());
        if m < reader.all().len() {
            crate::coding::reader::lemma_line_end_bounds(reader.all(), m + 1);
            crate::coding::reader::lemma_line_end_stop(reader.all(), m + 1);
        }
    }
    let _ = reader.skip_ws_comment();
    let index = reader.read_amount_bytes();
    match reader.expect_nl() {
        Ok(()) => Ok(()),
        Err(_) => Err(AssemblyError::Parse(index)),
    }
}

/// Parses a whole source file: blank and comment lines, an optional `ORG`
/// line, code lines, and an `END` line followed by nothing but
/// whitespace and comments. It succeeds exactly on the sources that some
/// file is written in, and then gives that file: every label and
/// instruction is the one written at its offset, and the lines cover the
/// source up to its `END` line.
pub fn parse_source(source: &[u8]) -> (r: Result<SourceFile, AssemblyError>)
    ensures
        r is Ok ==> taken_from(r.unwrap(), source@),
        r is Ok ==> file_written(source@, r.unwrap()),
        (exists|f: SourceFile| file_written(source@, f)) ==> r is Ok,
        fails_within(r, source@.len() as int),
        fails_in_syntax(r),
{
    let ghost s = source@;
    let ghost witness: Option<(SourceFile, Seq<int>)> = if exists|w: (SourceFile, Seq<int>)|
        lines_at(s, w.0, w.1) {
        Some(choose|w: (SourceFile, Seq<int>)| lines_at(s, w.0, w.1))
    } else {
        None
    };
    proof {
        if exists|f: SourceFile| file_written(s, f) {
            let f = choose|f: SourceFile| file_written(s, f);
            let ps = choose|ps: Seq<int>| lines_at(s, f, ps);
            assert(lines_at(s, (f, ps).0, (f, ps).1));
        }
    }
    let mut reader = Reader::new(source);
    reader.skip_ws_nl_comments();
    let mut origin_line: Option<OriginLine> = None;
    let saved = reader;
    let label = read_label_segment(&mut reader);
    let index = reader.read_amount_bytes();
    let word = read_word(&mut reader);
    if word_is3(word, 0x4F, 0x52, 0x47) {
        reader.skip_ws();
        let number_index = reader.read_amount_bytes();
        proof {
            reader.lemma_wf();
        }
        let address = match read_literal(&mut reader) {
            Some(literal) => match to_u16(&literal) {
                Some(v) => v,
                None => return Err(AssemblyError::NumberOutOfRange(number_index)),
            },
            None => return Err(AssemblyError::Parse(number_index)),
        };
        match end_of_line(&mut reader) {
            Ok(()) => {},
            Err(e) => return Err(e),
        }
        origin_line = Some(OriginLine { label, address, index });
    } else {
        reader = saved;
    }
    let mut lines: Vec<CodeLine> = Vec::new();
    let ghost mut ps: Seq<int> = seq![reader.position()];
    loop
        invariant
            reader.wf(),
            reader.all() == s,
            s == source@,
            match origin_line {
                Some(o) => label_in_source(o.label, s),
                None => true,
            },
            forall|k: int|
                0 <= k < lines@.len() ==> label_in_source((#[trigger] lines@[k]).label, s)
                    && code_in_source(lines@[k].code, s),
            ps.len() == lines@.len() + 1,
            ps[lines@.len() as int] == reader.position(),
            origin_part(s, origin_line, ps[0]),
            forall|k: int| 0 <= k < lines@.len() ==> line_at(s, ps[k], #[trigger] lines@[k], ps[k + 1]),
            match witness {
                Some((f, q)) => lines_at(s, f, q) && lines@.len() <= f.lines@.len() && q[lines@.len()
                    as int] == reader.position(),
                None => !(exists|f: SourceFile| file_written(s, f)),
            },
        decreases s.len() - reader.position(),
    {
        proof {
            reader.lemma_wf();
            if witness is Some {
                let (f, q) = witness.unwrap();
                let k = lines@.len() as int;
                if k < f.lines@.len() {
                    assert(line_at(s, q[k], f.lines@[k], q[k + 1]));
                }
            }
        }
        let ghost pos = reader.position();
        reader.skip_ws();
        let line_start = reader.read_amount_bytes();
        if reader.at_end() {
            return Err(AssemblyError::Parse(line_start));
        }
        let label = read_label_segment(&mut reader);
        let after_label = reader;
        let word = read_word(&mut reader);
        if word_is3(word, 0x45, 0x4E, 0x44) {
            reader.skip_ws_nl_comments();
            let end_index = reader.read_amount_bytes();
            if !reader.at_end() {
                return Err(AssemblyError::Parse(end_index));
            }
            let file = SourceFile { origin_line, lines, end_label: label };
            proof {
                assert(lines_at(s, file, ps));
            }
            return Ok(file);
        }
        reader = after_label;
        proof {
            reader.lemma_wf();
        }
        let code = match reader.peek() {
            Some(b) => {
                if b == 0x3B || b == 0x0A || b == 0x0D {
                    None
                } else {
                    let code_index = reader.read_amount_bytes();
                    let instruction = match parse_instruction(&mut reader) {
                        Ok(i) => i,
                        Err(e) => return Err(e),
                    };
                    Some(CodeSegment { instruction, index: code_index })
                }
            },
            None => None,
        };
        match end_of_line(&mut reader) {
            Ok(()) => {},
            Err(e) => return Err(e),
        }
        let line = CodeLine { label, code };
        proof {
            assert(line_at(s, pos, line, reader.position()));
            ps = ps.push(reader.position());
        }
        lines.push(line);
        proof {
            reader.lemma_wf();
        }
    }
}

} // verus!
