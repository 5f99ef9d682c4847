//! One decoder per instruction family. Each recognises the family's
//! opcodes at the reader's position, consumes the whole instruction and
//! returns it, or leaves the reader as it was.
use vstd::prelude::*;

use std::ops::Range;

use crate::coding::reader::Reader;
use crate::coding::{decode_op, parse_outcome};
use crate::instruction::{
    Condition, Data16, Instruction, Register, RegisterPair, RegisterPairIndirect,
    RegisterPairOrStatus, RestartNumber,
};

verus! {

/// The mask of the low `width` bits of a byte.
pub open spec fn low_mask(width: u8) -> u8 {
    if width >= 8 {
        0xFF
    } else if width == 7 {
        0x7F
    } else if width == 6 {
        0x3F
    } else if width == 5 {
        0x1F
    } else if width == 4 {
        0x0F
    } else if width == 3 {
        0x07
    } else if width == 2 {
        0x03
    } else if width == 1 {
        0x01
    } else {
        0
    }
}

/// Bits `range.start` up to (not including) `range.end` of `byte`, shifted down.
pub fn extract_bits(byte: u8, range: Range<u8>) -> (r: u8)
    requires
        range.start <= range.end <= 8,
    ensures
        r == (byte >> range.start) & low_mask((range.end - range.start) as u8),
{
    let width = range.end - range.start;
    let mask: u8 = if width >= 8 {
        0xFF
    } else if width == 7 {
        0x7F
    } else if width == 6 {
        0x3F
    } else if width == 5 {
        0x1F
    } else if width == 4 {
        0x0F
    } else if width == 3 {
        0x07
    } else if width == 2 {
        0x03
    } else if width == 1 {
        0x01
    } else {
        0
    };
    if range.start >= 8 {
        let shift = range.start;
        assert((byte >> shift) & 0u8 == 0u8) by (bit_vector);
        return 0;
    }
    (byte >> range.start) & mask
}

/// The opcode fields `x`, `y` and `z`.
fn opcode_fields(opcode: u8) -> (r: (u8, u8, u8))
    ensures
        r.0 == opcode / 64,
        r.1 == (opcode / 8) % 8,
        r.2 == opcode % 8,
{
    let x = extract_bits(opcode, 6..8);
    let y = extract_bits(opcode, 3..6);
    let z = extract_bits(opcode, 0..3);
    assert((opcode >> 6u8) & 0x03u8 == opcode / 64) by (bit_vector);
    assert((opcode >> 3u8) & 0x07u8 == (opcode / 8) % 8) by (bit_vector);
    assert((opcode >> 0u8) & 0x07u8 == opcode % 8) by (bit_vector);
    (x, y, z)
}

pub fn parse_noop(stream: &mut Reader) -> (r: Option<Instruction>)
    requires
        old(stream).wf(),
    ensures
        parse_outcome(*old(stream), *final(stream), r, |i: Instruction| i is Nop),
{
    proof {
        reveal(decode_op);
        stream.lemma_wf();
    }
    let opcode = match stream.peek() {
        Some(b) => b,
        None => return None,
    };
    if !(opcode == 0b0000_0000) {
        return None;
    }
    let bytes = match stream.peek_n(1) {
        Some(b) => b,
        None => return None,
    };
    let instruction = Instruction::Nop;
    stream.skip_n(1);
    Some(instruction)
}

pub fn parse_lxi(stream: &mut Reader) -> (r: Option<Instruction>)
    requires
        old(stream).wf(),
    ensures
        parse_outcome(*old(stream), *final(stream), r, |i: Instruction| i is Lxi),
{
    proof {
        reveal(decode_op);
        stream.lemma_wf();
    }
    let opcode = match stream.peek() {
        Some(b) => b,
        None => return None,
    };
    let (x, y, z) = opcode_fields(opcode);
    if !(x == 0 && z == 1 && y % 2 == 0) {
        return None;
    }
    let bytes = match stream.peek_n(3) {
        Some(b) => b,
        None => return None,
    };
    let instruction = Instruction::Lxi(RegisterPair::decode_code(y / 2), Data16::new(bytes[1], bytes[2]));
    stream.skip_n(3);
    Some(instruction)
}

pub fn parse_stax(stream: &mut Reader) -> (r: Option<Instruction>)
    requires
        old(stream).wf(),
    ensures
        parse_outcome(*old(stream), *final(stream), r, |i: Instruction| i is Stax),
{
    proof {
        reveal(decode_op);
        stream.lemma_wf();
    }
    let opcode = match stream.peek() {
        Some(b) => b,
        None => return None,
    };
    let (x, y, z) = opcode_fields(opcode);
    if !(x == 0 && z == 2 && (y == 0 || y == 2)) {
        return None;
    }
    let bytes = match stream.peek_n(1) {
        Some(b) => b,
        None => return None,
    };
    let rp = if y == 0 {
        RegisterPairIndirect::Bc
    } else {
        RegisterPairIndirect::De
    };
    let instruction = Instruction::Stax(rp);
    stream.skip_n(1);
    Some(instruction)
}

pub fn parse_inx(stream: &mut Reader) -> (r: Option<Instruction>)
    requires
        old(stream).wf(),
    ensures
        parse_outcome(*old(stream), *final(stream), r, |i: Instruction| i is Inx),
{
    proof {
        reveal(decode_op);
        stream.lemma_wf();
    }
    let opcode = match stream.peek() {
        Some(b) => b,
        None => return None,
    };
    let (x, y, z) = opcode_fields(opcode);
    if !(x == 0 && z == 3 && y % 2 == 0) {
        return None;
    }
    let bytes = match stream.peek_n(1) {
        Some(b) => b,
        None => return None,
    };
    let instruction = Instruction::Inx(RegisterPair::decode_code(y / 2));
    stream.skip_n(1);
    Some(instruction)
}

pub fn parse_inr(stream: &mut Reader) -> (r: Option<Instruction>)
    requires
        old(stream).wf(),
    ensures
        parse_outcome(*old(stream), *final(stream), r, |i: Instruction| i is Inr),
{
    proof {
        reveal(decode_op);
        stream.lemma_wf();
    }
    let opcode = match stream.peek() {
        Some(b) => b,
        None => return None,
    };
    let (x, y, z) = opcode_fields(opcode);
    if !(x == 0 && z == 4) {
        return None;
    }
    let bytes = match stream.peek_n(1) {
        Some(b) => b,
        None => return None,
    };
    let instruction = Instruction::Inr(Register::decode_code(y));
    stream.skip_n(1);
    Some(instruction)
}

pub fn parse_dcr(stream: &mut Reader) -> (r: Option<Instruction>)
    requires
        old(stream).wf(),
    ensures
        parse_outcome(*old(stream), *final(stream), r, |i: Instruction| i is Dcr),
{
    proof {
        reveal(decode_op);
        stream.lemma_wf();
    }
    let opcode = match stream.peek() {
        Some(b) => b,
        None => return None,
    };
    let (x, y, z) = opcode_fields(opcode);
    if !(x == 0 && z == 5) {
        return None;
    }
    let bytes = match stream.peek_n(1) {
        Some(b) => b,
        None => return None,
    };
    let instruction = Instruction::Dcr(Register::decode_code(y));
    stream.skip_n(1);
    Some(instruction)
}

pub fn parse_mvi(stream: &mut Reader) -> (r: Option<Instruction>)
    requires
        old(stream).wf(),
    ensures
        parse_outcome(*old(stream), *final(stream), r, |i: Instruction| i is Mvi),
{
    proof {
        reveal(decode_op);
        stream.lemma_wf();
    }
    let opcode = match stream.peek() {
        Some(b) => b,
        None => return None,
    };
    let (x, y, z) = opcode_fields(opcode);
    if !(x == 0 && z == 6) {
        return None;
    }
    let bytes = match stream.peek_n(2) {
        Some(b) => b,
        None => return None,
    };
    let instruction = Instruction::Mvi(Register::decode_code(y), bytes[1]);
    stream.skip_n(2);
    Some(instruction)
}

pub fn parse_dad(stream: &mut Reader) -> (r: Option<Instruction>)
    requires
        old(stream).wf(),
    ensures
        parse_outcome(*old(stream), *final(stream), r, |i: Instruction| i is Dad),
{
    proof {
        reveal(decode_op);
        stream.lemma_wf();
    }
    let opcode = match stream.peek() {
        Some(b) => b,
        None => return None,
    };
    let (x, y, z) = opcode_fields(opcode);
    if !(x == 0 && z == 1 && y % 2 == 1) {
        return None;
    }
    let bytes = match stream.peek_n(1) {
        Some(b) => b,
        None => return None,
    };
    let instruction = Instruction::Dad(RegisterPair::decode_code(y / 2));
    stream.skip_n(1);
    Some(instruction)
}

pub fn parse_ldax(stream: &mut Reader) -> (r: Option<Instruction>)
    requires
        old(stream).wf(),
    ensures
        parse_outcome(*old(stream), *final(stream), r, |i: Instruction| i is Ldax),
{
    proof {
        reveal(decode_op);
        stream.lemma_wf();
    }
    let opcode = match stream.peek() {
        Some(b) => b,
        None => return None,
    };
    let (x, y, z) = opcode_fields(opcode);
    if !(x == 0 && z == 2 && (y == 1 || y == 3)) {
        return None;
    }
    let bytes = match stream.peek_n(1) {
        Some(b) => b,
        None => return None,
    };
    let rp = if y == 1 {
        RegisterPairIndirect::Bc
    } else {
        RegisterPairIndirect::De
    };
    let instruction = Instruction::Ldax(rp);
    stream.skip_n(1);
    Some(instruction)
}

pub fn parse_dcx(stream: &mut Reader) -> (r: Option<Instruction>)
    requires
        old(stream).wf(),
    ensures
        parse_outcome(*old(stream), *final(stream), r, |i: Instruction| i is Dcx),
{
    proof {
        reveal(decode_op);
        stream.lemma_wf();
    }
    let opcode = match stream.peek() {
        Some(b) => b,
        None => return None,
    };
    let (x, y, z) = opcode_fields(opcode);
    if !(x == 0 && z == 3 && y % 2 == 1) {
        return None;
    }
    let bytes = match stream.peek_n(1) {
        Some(b) => b,
        None => return None,
    };
    let instruction = Instruction::Dcx(RegisterPair::decode_code(y / 2));
    stream.skip_n(1);
    Some(instruction)
}

pub fn parse_rlc(stream: &mut Reader) -> (r: Option<Instruction>)
    requires
        old(stream).wf(),
    ensures
        parse_outcome(*old(stream), *final(stream), r, |i: Instruction| i is Rlc),
{
    proof {
        reveal(decode_op);
        stream.lemma_wf();
    }
    let opcode = match stream.peek() {
        Some(b) => b,
        None => return None,
    };
    if !(opcode == 0b0000_0111) {
        return None;
    }
    let bytes = match stream.peek_n(1) {
        Some(b) => b,
        None => return None,
    };
    let instruction = Instruction::Rlc;
    stream.skip_n(1);
    Some(instruction)
}

pub fn parse_rrc(stream: &mut Reader) -> (r: Option<Instruction>)
    requires
        old(stream).wf(),
    ensures
        parse_outcome(*old(stream), *final(stream), r, |i: Instruction| i is Rrc),
{
    proof {
        reveal(decode_op);
        stream.lemma_wf();
    }
    let opcode = match stream.peek() {
        Some(b) => b,
        None => return None,
    };
    if !(opcode == 0b0000_1111) {
        return None;
    }
    let bytes = match stream.peek_n(1) {
        Some(b) => b,
        None => return None,
    };
    let instruction = Instruction::Rrc;
    stream.skip_n(1);
    Some(instruction)
}

pub fn parse_ral(stream: &mut Reader) -> (r: Option<Instruction>)
    requires
        old(stream).wf(),
    ensures
        parse_outcome(*old(stream), *final(stream), r, |i: Instruction| i is Ral),
{
    proof {
        reveal(decode_op);
        stream.lemma_wf();
    }
    let opcode = match stream.peek() {
        Some(b) => b,
        None => return None,
    };
    if !(opcode == 0b0001_0111) {
        return None;
    }
    let bytes = match stream.peek_n(1) {
        Some(b) => b,
        None => return None,
    };
    let instruction = Instruction::Ral;
    stream.skip_n(1);
    Some(instruction)
}

pub fn parse_rar(stream: &mut Reader) -> (r: Option<Instruction>)
    requires
        old(stream).wf(),
    ensures
        parse_outcome(*old(stream), *final(stream), r, |i: Instruction| i is Rar),
{
    proof {
        reveal(decode_op);
        stream.lemma_wf();
    }
    let opcode = match stream.peek() {
        Some(b) => b,
        None => return None,
    };
    if !(opcode == 0b0001_1111) {
        return None;
    }
    let bytes = match stream.peek_n(1) {
        Some(b) => b,
        None => return None,
    };
    let instruction = Instruction::Rar;
    stream.skip_n(1);
    Some(instruction)
}

pub fn parse_shld(stream: &mut Reader) -> (r: Option<Instruction>)
    requires
        old(stream).wf(),
    ensures
        parse_outcome(*old(stream), *final(stream), r, |i: Instruction| i is Shld),
{
    proof {
        reveal(decode_op);
        stream.lemma_wf();
    }
    let opcode = match stream.peek() {
        Some(b) => b,
        None => return None,
    };
    let (x, y, z) = opcode_fields(opcode);
    if !(opcode == 0b0010_0010) {
        return None;
    }
    let bytes = match stream.peek_n(3) {
        Some(b) => b,
        None => return None,
    };
    let instruction = Instruction::Shld(Data16::new(bytes[1], bytes[2]).value());
    stream.skip_n(3);
    Some(instruction)
}

pub fn parse_daa(stream: &mut Reader) -> (r: Option<Instruction>)
    requires
        old(stream).wf(),
    ensures
        parse_outcome(*old(stream), *final(stream), r, |i: Instruction| i is Daa),
{
    proof {
        reveal(decode_op);
        stream.lemma_wf();
    }
    let opcode = match stream.peek() {
        Some(b) => b,
        None => return None,
    };
    if !(opcode == 0b0010_0111) {
        return None;
    }
    let bytes = match stream.peek_n(1) {
        Some(b) => b,
        None => return None,
    };
    let instruction = Instruction::Daa;
    stream.skip_n(1);
    Some(instruction)
}

pub fn parse_lhld(stream: &mut Reader) -> (r: Option<Instruction>)
    requires
        old(stream).wf(),
    ensures
        parse_outcome(*old(stream), *final(stream), r, |i: Instruction| i is Lhld),
{
    proof {
        reveal(decode_op);
        stream.lemma_wf();
    }
    let opcode = match stream.peek() {
        Some(b) => b,
        None => return None,
    };
    let (x, y, z) = opcode_fields(opcode);
    if !(opcode == 0b0010_1010) {
        return None;
    }
    let bytes = match stream.peek_n(3) {
        Some(b) => b,
        None => return None,
    };
    let instruction = Instruction::Lhld(Data16::new(bytes[1], bytes[2]).value());
    stream.skip_n(3);
    Some(instruction)
}

pub fn parse_cma(stream: &mut Reader) -> (r: Option<Instruction>)
    requires
        old(stream).wf(),
    ensures
        parse_outcome(*old(stream), *final(stream), r, |i: Instruction| i is Cma),
{
    proof {
        reveal(decode_op);
        stream.lemma_wf();
    }
    let opcode = match stream.peek() {
        Some(b) => b,
        None => return None,
    };
    if !(opcode == 0b0010_1111) {
        return None;
    }
    let bytes = match stream.peek_n(1) {
        Some(b) => b,
        None => return None,
    };
    let instruction = Instruction::Cma;
    stream.skip_n(1);
    Some(instruction)
}

pub fn parse_sta(stream: &mut Reader) -> (r: Option<Instruction>)
    requires
        old(stream).wf(),
    ensures
        parse_outcome(*old(stream), *final(stream), r, |i: Instruction| i is Sta),
{
    proof {
        reveal(decode_op);
        stream.lemma_wf();
    }
    let opcode = match stream.peek() {
        Some(b) => b,
        None => return None,
    };
    let (x, y, z) = opcode_fields(opcode);
    if !(opcode == 0b0011_0010) {
        return None;
    }
    let bytes = match stream.peek_n(3) {
        Some(b) => b,
        None => return None,
    };
    let instruction = Instruction::Sta(Data16::new(bytes[1], bytes[2]).value());
    stream.skip_n(3);
    Some(instruction)
}

pub fn parse_stc(stream: &mut Reader) -> (r: Option<Instruction>)
    requires
        old(stream).wf(),
    ensures
        parse_outcome(*old(stream), *final(stream), r, |i: Instruction| i is Stc),
{
    proof {
        reveal(decode_op);
        stream.lemma_wf();
    }
    let opcode = match stream.peek() {
        Some(b) => b,
        None => return None,
    };
    if !(opcode == 0b0011_0111) {
        return None;
    }
    let bytes = match stream.peek_n(1) {
        Some(b) => b,
        None => return None,
    };
    let instruction = Instruction::Stc;
    stream.skip_n(1);
    Some(instruction)
}

pub fn parse_lda(stream: &mut Reader) -> (r: Option<Instruction>)
    requires
        old(stream).wf(),
    ensures
        parse_outcome(*old(stream), *final(stream), r, |i: Instruction| i is Lda),
{
    proof {
        reveal(decode_op);
        stream.lemma_wf();
    }
    let opcode = match stream.peek() {
        Some(b) => b,
        None => return None,
    };
    let (x, y, z) = opcode_fields(opcode);
    if !(opcode == 0b0011_1010) {
        return None;
    }
    let bytes = match stream.peek_n(3) {
        Some(b) => b,
        None => return None,
    };
    let instruction = Instruction::Lda(Data16::new(bytes[1], bytes[2]).value());
    stream.skip_n(3);
    Some(instruction)
}

pub fn parse_cmc(stream: &mut Reader) -> (r: Option<Instruction>)
    requires
        old(stream).wf(),
    ensures
        parse_outcome(*old(stream), *final(stream), r, |i: Instruction| i is Cmc),
{
    proof {
        reveal(decode_op);
        stream.lemma_wf();
    }
    let opcode = match stream.peek() {
        Some(b) => b,
        None => return None,
    };
    if !(opcode == 0b0011_1111) {
        return None;
    }
    let bytes = match stream.peek_n(1) {
        Some(b) => b,
        None => return None,
    };
    let instruction = Instruction::Cmc;
    stream.skip_n(1);
    Some(instruction)
}

pub fn parse_mov(stream: &mut Reader) -> (r: Option<Instruction>)
    requires
        old(stream).wf(),
    ensures
        parse_outcome(*old(stream), *final(stream), r, |i: Instruction| i is Mov),
{
    proof {
        reveal(decode_op);
        stream.lemma_wf();
    }
    let opcode = match stream.peek() {
        Some(b) => b,
        None => return None,
    };
    let (x, y, z) = opcode_fields(opcode);
    if !(x == 1 && opcode != 0b0111_0110) {
        return None;
    }
    let bytes = match stream.peek_n(1) {
        Some(b) => b,
        None => return None,
    };
    let instruction = Instruction::Mov(Register::decode_code(y), Register::decode_code(z));
    stream.skip_n(1);
    Some(instruction)
}

pub fn parse_hlt(stream: &mut Reader) -> (r: Option<Instruction>)
    requires
        old(stream).wf(),
    ensures
        parse_outcome(*old(stream), *final(stream), r, |i: Instruction| i is Hlt),
{
    proof {
        reveal(decode_op);
        stream.lemma_wf();
    }
    let opcode = match stream.peek() {
        Some(b) => b,
        None => return None,
    };
    if !(opcode == 0b0111_0110) {
        return None;
    }
    let bytes = match stream.peek_n(1) {
        Some(b) => b,
        None => return None,
    };
    let instruction = Instruction::Hlt;
    stream.skip_n(1);
    Some(instruction)
}

pub fn parse_add(stream: &mut Reader) -> (r: Option<Instruction>)
    requires
        old(stream).wf(),
    ensures
        parse_outcome(*old(stream), *final(stream), r, |i: Instruction| i is Add),
{
    proof {
        reveal(decode_op);
        stream.lemma_wf();
    }
    let opcode = match stream.peek() {
        Some(b) => b,
        None => return None,
    };
    let (x, y, z) = opcode_fields(opcode);
    if !(x == 2 && y == 0) {
        return None;
    }
    let bytes = match stream.peek_n(1) {
        Some(b) => b,
        None => return None,
    };
    let instruction = Instruction::Add(Register::decode_code(z));
    stream.skip_n(1);
    Some(instruction)
}

pub fn parse_adc(stream: &mut Reader) -> (r: Option<Instruction>)
    requires
        old(stream).wf(),
    ensures
        parse_outcome(*old(stream), *final(stream), r, |i: Instruction| i is Adc),
{
    proof {
        reveal(decode_op);
        stream.lemma_wf();
    }
    let opcode = match stream.peek() {
        Some(b) => b,
        None => return None,
    };
    let (x, y, z) = opcode_fields(opcode);
    if !(x == 2 && y == 1) {
        return None;
    }
    let bytes = match stream.peek_n(1) {
        Some(b) => b,
        None => return None,
    };
    let instruction = Instruction::Adc(Register::decode_code(z));
    stream.skip_n(1);
    Some(instruction)
}

pub fn parse_sub(stream: &mut Reader) -> (r: Option<Instruction>)
    requires
        old(stream).wf(),
    ensures
        parse_outcome(*old(stream), *final(stream), r, |i: Instruction| i is Sub),
{
    proof {
        reveal(decode_op);
        stream.lemma_wf();
    }
    let opcode = match stream.peek() {
        Some(b) => b,
        None => return None,
    };
    let (x, y, z) = opcode_fields(opcode);
    if !(x == 2 && y == 2) {
        return None;
    }
    let bytes = match stream.peek_n(1) {
        Some(b) => b,
        None => return None,
    };
    let instruction = Instruction::Sub(Register::decode_code(z));
    stream.skip_n(1);
    Some(instruction)
}

pub fn parse_sbb(stream: &mut Reader) -> (r: Option<Instruction>)
    requires
        old(stream).wf(),
    ensures
        parse_outcome(*old(stream), *final(stream), r, |i: Instruction| i is Sbb),
{
    proof {
        reveal(decode_op);
        stream.lemma_wf();
    }
    let opcode = match stream.peek() {
        Some(b) => b,
        None => return None,
    };
    let (x, y, z) = opcode_fields(opcode);
    if !(x == 2 && y == 3) {
        return None;
    }
    let bytes = match stream.peek_n(1) {
        Some(b) => b,
        None => return None,
    };
    let instruction = Instruction::Sbb(Register::decode_code(z));
    stream.skip_n(1);
    Some(instruction)
}

pub fn parse_ana(stream: &mut Reader) -> (r: Option<Instruction>)
    requires
        old(stream).wf(),
    ensures
        parse_outcome(*old(stream), *final(stream), r, |i: Instruction| i is Ana),
{
    proof {
        reveal(decode_op);
        stream.lemma_wf();
    }
    let opcode = match stream.peek() {
        Some(b) => b,
        None => return None,
    };
    let (x, y, z) = opcode_fields(opcode);
    if !(x == 2 && y == 4) {
        return None;
    }
    let bytes = match stream.peek_n(1) {
        Some(b) => b,
        None => return None,
    };
    let instruction = Instruction::Ana(Register::decode_code(z));
    stream.skip_n(1);
    Some(instruction)
}

pub fn parse_xra(stream: &mut Reader) -> (r: Option<Instruction>)
    requires
        old(stream).wf(),
    ensures
        parse_outcome(*old(stream), *final(stream), r, |i: Instruction| i is Xra),
{
    proof {
        reveal(decode_op);
        stream.lemma_wf();
    }
    let opcode = match stream.peek() {
        Some(b) => b,
        None => return None,
    };
    let (x, y, z) = opcode_fields(opcode);
    if !(x == 2 && y == 5) {
        return None;
    }
    let bytes = match stream.peek_n(1) {
        Some(b) => b,
        None => return None,
    };
    let instruction = Instruction::Xra(Register::decode_code(z));
    stream.skip_n(1);
    Some(instruction)
}

pub fn parse_ora(stream: &mut Reader) -> (r: Option<Instruction>)
    requires
        old(stream).wf(),
    ensures
        parse_outcome(*old(stream), *final(stream), r, |i: Instruction| i is Ora),
{
    proof {
        reveal(decode_op);
        stream.lemma_wf();
    }
    let opcode = match stream.peek() {
        Some(b) => b,
        None => return None,
    };
    let (x, y, z) = opcode_fields(opcode);
    if !(x == 2 && y == 6) {
        return None;
    }
    let bytes = match stream.peek_n(1) {
        Some(b) => b,
        None => return None,
    };
    let instruction = Instruction::Ora(Register::decode_code(z));
    stream.skip_n(1);
    Some(instruction)
}

pub fn parse_cmp(stream: &mut Reader) -> (r: Option<Instruction>)
    requires
        old(stream).wf(),
    ensures
        parse_outcome(*old(stream), *final(stream), r, |i: Instruction| i is Cmp),
{
    proof {
        reveal(decode_op);
        stream.lemma_wf();
    }
    let opcode = match stream.peek() {
        Some(b) => b,
        None => return None,
    };
    let (x, y, z) = opcode_fields(opcode);
    if !(x == 2 && y == 7) {
        return None;
    }
    let bytes = match stream.peek_n(1) {
        Some(b) => b,
        None => return None,
    };
    let instruction = Instruction::Cmp(Register::decode_code(z));
    stream.skip_n(1);
    Some(instruction)
}

pub fn parse_rcc(stream: &mut Reader) -> (r: Option<Instruction>)
    requires
        old(stream).wf(),
    ensures
        parse_outcome(*old(stream), *final(stream), r, |i: Instruction| i is Rcc),
{
    proof {
        reveal(decode_op);
        stream.lemma_wf();
    }
    let opcode = match stream.peek() {
        Some(b) => b,
        None => return None,
    };
    let (x, y, z) = opcode_fields(opcode);
    if !(x == 3 && z == 0) {
        return None;
    }
    let bytes = match stream.peek_n(1) {
        Some(b) => b,
        None => return None,
    };
    let instruction = Instruction::Rcc(Condition::decode_code(y));
    stream.skip_n(1);
    Some(instruction)
}

pub fn parse_pop(stream: &mut Reader) -> (r: Option<Instruction>)
    requires
        old(stream).wf(),
    ensures
        parse_outcome(*old(stream), *final(stream), r, |i: Instruction| i is Pop),
{
    proof {
        reveal(decode_op);
        stream.lemma_wf();
    }
    let opcode = match stream.peek() {
        Some(b) => b,
        None => return None,
    };
    let (x, y, z) = opcode_fields(opcode);
    if !(x == 3 && z == 1 && y % 2 == 0) {
        return None;
    }
    let bytes = match stream.peek_n(1) {
        Some(b) => b,
        None => return None,
    };
    let instruction = Instruction::Pop(RegisterPairOrStatus::decode_code(y / 2));
    stream.skip_n(1);
    Some(instruction)
}

pub fn parse_jcc(stream: &mut Reader) -> (r: Option<Instruction>)
    requires
        old(stream).wf(),
    ensures
        parse_outcome(*old(stream), *final(stream), r, |i: Instruction| i is Jcc),
{
    proof {
        reveal(decode_op);
        stream.lemma_wf();
    }
    let opcode = match stream.peek() {
        Some(b) => b,
        None => return None,
    };
    let (x, y, z) = opcode_fields(opcode);
    if !(x == 3 && z == 2) {
        return None;
    }
    let bytes = match stream.peek_n(3) {
        Some(b) => b,
        None => return None,
    };
    let instruction = Instruction::Jcc(Condition::decode_code(y), Data16::new(bytes[1], bytes[2]).value());
    stream.skip_n(3);
    Some(instruction)
}

pub fn parse_jmp(stream: &mut Reader) -> (r: Option<Instruction>)
    requires
        old(stream).wf(),
    ensures
        parse_outcome(*old(stream), *final(stream), r, |i: Instruction| i is Jmp),
{
    proof {
        reveal(decode_op);
        stream.lemma_wf();
    }
    let opcode = match stream.peek() {
        Some(b) => b,
        None => return None,
    };
    let (x, y, z) = opcode_fields(opcode);
    if !(opcode == 0b1100_0011) {
        return None;
    }
    let bytes = match stream.peek_n(3) {
        Some(b) => b,
        None => return None,
    };
    let instruction = Instruction::Jmp(Data16::new(bytes[1], bytes[2]).value());
    stream.skip_n(3);
    Some(instruction)
}

pub fn parse_ccc(stream: &mut Reader) -> (r: Option<Instruction>)
    requires
        old(stream).wf(),
    ensures
        parse_outcome(*old(stream), *final(stream), r, |i: Instruction| i is Ccc),
{
    proof {
        reveal(decode_op);
        stream.lemma_wf();
    }
    let opcode = match stream.peek() {
        Some(b) => b,
        None => return None,
    };
    let (x, y, z) = opcode_fields(opcode);
    if !(x == 3 && z == 4) {
        return None;
    }
    let bytes = match stream.peek_n(3) {
        Some(b) => b,
        None => return None,
    };
    let instruction = Instruction::Ccc(Condition::decode_code(y), Data16::new(bytes[1], bytes[2]).value());
    stream.skip_n(3);
    Some(instruction)
}

pub fn parse_push(stream: &mut Reader) -> (r: Option<Instruction>)
    requires
        old(stream).wf(),
    ensures
        parse_outcome(*old(stream), *final(stream), r, |i: Instruction| i is Push),
{
    proof {
        reveal(decode_op);
        stream.lemma_wf();
    }
    let opcode = match stream.peek() {
        Some(b) => b,
        None => return None,
    };
    let (x, y, z) = opcode_fields(opcode);
    if !(x == 3 && z == 5 && y % 2 == 0) {
        return None;
    }
    let bytes = match stream.peek_n(1) {
        Some(b) => b,
        None => return None,
    };
    let instruction = Instruction::Push(RegisterPairOrStatus::decode_code(y / 2));
    stream.skip_n(1);
    Some(instruction)
}

pub fn parse_adi(stream: &mut Reader) -> (r: Option<Instruction>)
    requires
        old(stream).wf(),
    ensures
        parse_outcome(*old(stream), *final(stream), r, |i: Instruction| i is Adi),
{
    proof {
        reveal(decode_op);
        stream.lemma_wf();
    }
    let opcode = match stream.peek() {
        Some(b) => b,
        None => return None,
    };
    let (x, y, z) = opcode_fields(opcode);
    if !(opcode == 0b1100_0110) {
        return None;
    }
    let bytes = match stream.peek_n(2) {
        Some(b) => b,
        None => return None,
    };
    let instruction = Instruction::Adi(bytes[1]);
    stream.skip_n(2);
    Some(instruction)
}

pub fn parse_aci(stream: &mut Reader) -> (r: Option<Instruction>)
    requires
        old(stream).wf(),
    ensures
        parse_outcome(*old(stream), *final(stream), r, |i: Instruction| i is Aci),
{
    proof {
        reveal(decode_op);
        stream.lemma_wf();
    }
    let opcode = match stream.peek() {
        Some(b) => b,
        None => return None,
    };
    let (x, y, z) = opcode_fields(opcode);
    if !(opcode == 0b1100_1110) {
        return None;
    }
    let bytes = match stream.peek_n(2) {
        Some(b) => b,
        None => return None,
    };
    let instruction = Instruction::Aci(bytes[1]);
    stream.skip_n(2);
    Some(instruction)
}

pub fn parse_sui(stream: &mut Reader) -> (r: Option<Instruction>)
    requires
        old(stream).wf(),
    ensures
        parse_outcome(*old(stream), *final(stream), r, |i: Instruction| i is Sui),
{
    proof {
        reveal(decode_op);
        stream.lemma_wf();
    }
    let opcode = match stream.peek() {
        Some(b) => b,
        None => return None,
    };
    let (x, y, z) = opcode_fields(opcode);
    if !(opcode == 0b1101_0110) {
        return None;
    }
    let bytes = match stream.peek_n(2) {
        Some(b) => b,
        None => return None,
    };
    let instruction = Instruction::Sui(bytes[1]);
    stream.skip_n(2);
    Some(instruction)
}

pub fn parse_sbi(stream: &mut Reader) -> (r: Option<Instruction>)
    requires
        old(stream).wf(),
    ensures
        parse_outcome(*old(stream), *final(stream), r, |i: Instruction| i is Sbi),
{
    proof {
        reveal(decode_op);
        stream.lemma_wf();
    }
    let opcode = match stream.peek() {
        Some(b) => b,
        None => return None,
    };
    let (x, y, z) = opcode_fields(opcode);
    if !(opcode == 0b1101_1110) {
        return None;
    }
    let bytes = match stream.peek_n(2) {
        Some(b) => b,
        None => return None,
    };
    let instruction = Instruction::Sbi(bytes[1]);
    stream.skip_n(2);
    Some(instruction)
}

pub fn parse_ani(stream: &mut Reader) -> (r: Option<Instruction>)
    requires
        old(stream).wf(),
    ensures
        parse_outcome(*old(stream), *final(stream), r, |i: Instruction| i is Ani),
{
    proof {
        reveal(decode_op);
        stream.lemma_wf();
    }
    let opcode = match stream.peek() {
        Some(b) => b,
        None => return None,
    };
    let (x, y, z) = opcode_fields(opcode);
    if !(opcode == 0b1110_0110) {
        return None;
    }
    let bytes = match stream.peek_n(2) {
        Some(b) => b,
        None => return None,
    };
    let instruction = Instruction::Ani(bytes[1]);
    stream.skip_n(2);
    Some(instruction)
}

pub fn parse_xri(stream: &mut Reader) -> (r: Option<Instruction>)
    requires
        old(stream).wf(),
    ensures
        parse_outcome(*old(stream), *final(stream), r, |i: Instruction| i is Xri),
{
    proof {
        reveal(decode_op);
        stream.lemma_wf();
    }
    let opcode = match stream.peek() {
        Some(b) => b,
        None => return None,
    };
    let (x, y, z) = opcode_fields(opcode);
    if !(opcode == 0b1110_1110) {
        return None;
    }
    let bytes = match stream.peek_n(2) {
        Some(b) => b,
        None => return None,
    };
    let instruction = Instruction::Xri(bytes[1]);
    stream.skip_n(2);
    Some(instruction)
}

pub fn parse_ori(stream: &mut Reader) -> (r: Option<Instruction>)
    requires
        old(stream).wf(),
    ensures
        parse_outcome(*old(stream), *final(stream), r, |i: Instruction| i is Ori),
{
    proof {
        reveal(decode_op);
        stream.lemma_wf();
    }
    let opcode = match stream.peek() {
        Some(b) => b,
        None => return None,
    };
    let (x, y, z) = opcode_fields(opcode);
    if !(opcode == 0b1111_0110) {
        return None;
    }
    let bytes = match stream.peek_n(2) {
        Some(b) => b,
        None => return None,
    };
    let instruction = Instruction::Ori(bytes[1]);
    stream.skip_n(2);
    Some(instruction)
}

pub fn parse_cpi(stream: &mut Reader) -> (r: Option<Instruction>)
    requires
        old(stream).wf(),
    ensures
        parse_outcome(*old(stream), *final(stream), r, |i: Instruction| i is Cpi),
{
    proof {
        reveal(decode_op);
        stream.lemma_wf();
    }
    let opcode = match stream.peek() {
        Some(b) => b,
        None => return None,
    };
    let (x, y, z) = opcode_fields(opcode);
    if !(opcode == 0b1111_1110) {
        return None;
    }
    let bytes = match stream.peek_n(2) {
        Some(b) => b,
        None => return None,
    };
    let instruction = Instruction::Cpi(bytes[1]);
    stream.skip_n(2);
    Some(instruction)
}

pub fn parse_rst(stream: &mut Reader) -> (r: Option<Instruction>)
    requires
        old(stream).wf(),
    ensures
        parse_outcome(*old(stream), *final(stream), r, |i: Instruction| i is Rst),
{
    proof {
        reveal(decode_op);
        stream.lemma_wf();
    }
    let opcode = match stream.peek() {
        Some(b) => b,
        None => return None,
    };
    let (x, y, z) = opcode_fields(opcode);
    if !(x == 3 && z == 7) {
        return None;
    }
    let bytes = match stream.peek_n(1) {
        Some(b) => b,
        None => return None,
    };
    let instruction = Instruction::Rst(RestartNumber::decode_code(y));
    stream.skip_n(1);
    Some(instruction)
}

pub fn parse_ret(stream: &mut Reader) -> (r: Option<Instruction>)
    requires
        old(stream).wf(),
    ensures
        parse_outcome(*old(stream), *final(stream), r, |i: Instruction| i is Ret),
{
    proof {
        reveal(decode_op);
        stream.lemma_wf();
    }
    let opcode = match stream.peek() {
        Some(b) => b,
        None => return None,
    };
    if !(opcode == 0b1100_1001) {
        return None;
    }
    let bytes = match stream.peek_n(1) {
        Some(b) => b,
        None => return None,
    };
    let instruction = Instruction::Ret;
    stream.skip_n(1);
    Some(instruction)
}

pub fn parse_call(stream: &mut Reader) -> (r: Option<Instruction>)
    requires
        old(stream).wf(),
    ensures
        parse_outcome(*old(stream), *final(stream), r, |i: Instruction| i is Call),
{
    proof {
        reveal(decode_op);
        stream.lemma_wf();
    }
    let opcode = match stream.peek() {
        Some(b) => b,
        None => return None,
    };
    let (x, y, z) = opcode_fields(opcode);
    if !(opcode == 0b1100_1101) {
        return None;
    }
    let bytes = match stream.peek_n(3) {
        Some(b) => b,
        None => return None,
    };
    let instruction = Instruction::Call(Data16::new(bytes[1], bytes[2]).value());
    stream.skip_n(3);
    Some(instruction)
}

pub fn parse_out(stream: &mut Reader) -> (r: Option<Instruction>)
    requires
        old(stream).wf(),
    ensures
        parse_outcome(*old(stream), *final(stream), r, |i: Instruction| i is Out),
{
    proof {
        reveal(decode_op);
        stream.lemma_wf();
    }
    let opcode = match stream.peek() {
        Some(b) => b,
        None => return None,
    };
    let (x, y, z) = opcode_fields(opcode);
    if !(opcode == 0b1101_0011) {
        return None;
    }
    let bytes = match stream.peek_n(2) {
        Some(b) => b,
        None => return None,
    };
    let instruction = Instruction::Out(bytes[1]);
    stream.skip_n(2);
    Some(instruction)
}

pub fn parse_in(stream: &mut Reader) -> (r: Option<Instruction>)
    requires
        old(stream).wf(),
    ensures
        parse_outcome(*old(stream), *final(stream), r, |i: Instruction| i is In),
{
    proof {
        reveal(decode_op);
        stream.lemma_wf();
    }
    let opcode = match stream.peek() {
        Some(b) => b,
        None => return None,
    };
    let (x, y, z) = opcode_fields(opcode);
    if !(opcode == 0b1101_1011) {
        return None;
    }
    let bytes = match stream.peek_n(2) {
        Some(b) => b,
        None => return None,
    };
    let instruction = Instruction::In(bytes[1]);
    stream.skip_n(2);
    Some(instruction)
}

pub fn parse_xthl(stream: &mut Reader) -> (r: Option<Instruction>)
    requires
        old(stream).wf(),
    ensures
        parse_outcome(*old(stream), *final(stream), r, |i: Instruction| i is Xthl),
{
    proof {
        reveal(decode_op);
        stream.lemma_wf();
    }
    let opcode = match stream.peek() {
        Some(b) => b,
        None => return None,
    };
    if !(opcode == 0b1110_0011) {
        return None;
    }
    let bytes = match stream.peek_n(1) {
        Some(b) => b,
        None => return None,
    };
    let instruction = Instruction::Xthl;
    stream.skip_n(1);
    Some(instruction)
}

pub fn parse_pchl(stream: &mut Reader) -> (r: Option<Instruction>)
    requires
        old(stream).wf(),
    ensures
        parse_outcome(*old(stream), *final(stream), r, |i: Instruction| i is Pchl),
{
    proof {
        reveal(decode_op);
        stream.lemma_wf();
    }
    let opcode = match stream.peek() {
        Some(b) => b,
        None => return None,
    };
    if !(opcode == 0b1110_1001) {
        return None;
    }
    let bytes = match stream.peek_n(1) {
        Some(b) => b,
        None => return None,
    };
    let instruction = Instruction::Pchl;
    stream.skip_n(1);
    Some(instruction)
}

pub fn parse_xchg(stream: &mut Reader) -> (r: Option<Instruction>)
    requires
        old(stream).wf(),
    ensures
        parse_outcome(*old(stream), *final(stream), r, |i: Instruction| i is Xchg),
{
    proof {
        reveal(decode_op);
        stream.lemma_wf();
    }
    let opcode = match stream.peek() {
        Some(b) => b,
        None => return None,
    };
    if !(opcode == 0b1110_1011) {
        return None;
    }
    let bytes = match stream.peek_n(1) {
        Some(b) => b,
        None => return None,
    };
    let instruction = Instruction::Xchg;
    stream.skip_n(1);
    Some(instruction)
}

pub fn parse_di(stream: &mut Reader) -> (r: Option<Instruction>)
    requires
        old(stream).wf(),
    ensures
        parse_outcome(*old(stream), *final(stream), r, |i: Instruction| i is Di),
{
    proof {
        reveal(decode_op);
        stream.lemma_wf();
    }
    let opcode = match stream.peek() {
        Some(b) => b,
        None => return None,
    };
    if !(opcode == 0b1111_0011) {
        return None;
    }
    let bytes = match stream.peek_n(1) {
        Some(b) => b,
        None => return None,
    };
    let instruction = Instruction::Di;
    stream.skip_n(1);
    Some(instruction)
}

pub fn parse_sphl(stream: &mut Reader) -> (r: Option<Instruction>)
    requires
        old(stream).wf(),
    ensures
        parse_outcome(*old(stream), *final(stream), r, |i: Instruction| i is Sphl),
{
    proof {
        reveal(decode_op);
        stream.lemma_wf();
    }
    let opcode = match stream.peek() {
        Some(b) => b,
        None => return None,
    };
    if !(opcode == 0b1111_1001) {
        return None;
    }
    let bytes = match stream.peek_n(1) {
        Some(b) => b,
        None => return None,
    };
    let instruction = Instruction::Sphl;
    stream.skip_n(1);
    Some(instruction)
}

pub fn parse_ei(stream: &mut Reader) -> (r: Option<Instruction>)
    requires
        old(stream).wf(),
    ensures
        parse_outcome(*old(stream), *final(stream), r, |i: Instruction| i is Ei),
{
    proof {
        reveal(decode_op);
        stream.lemma_wf();
    }
    let opcode = match stream.peek() {
        Some(b) => b,
        None => return None,
    };
    if !(opcode == 0b1111_1011) {
        return None;
    }
    let bytes = match stream.peek_n(1) {
        Some(b) => b,
        None => return None,
    };
    let instruction = Instruction::Ei;
    stream.skip_n(1);
    Some(instruction)
}

} // verus!
