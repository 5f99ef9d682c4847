//! The instruction codec: the byte layout of every instruction, and the
//! encoder and decoder that follow it.
//!
//! An opcode byte is read as three fields, `x` (bits 6-7), `y` (bits 3-5)
//! and `z` (bits 0-2); `y` splits further into `p` (bits 4-5) and `q`
//! (bit 3). Multi-byte operands follow the opcode, low byte first.
use vstd::prelude::*;

use crate::coding::reader::Reader;
use crate::instruction::{
    Condition, Data16, Instruction, InstructionOrData, Register, RegisterPair,
    RegisterPairIndirect, RegisterPairOrStatus, RestartNumber,
};
pub mod decode;
pub mod encode;
pub mod reader;

verus! {

/// The opcode byte with fields `x`, `y` and `z`.
pub open spec fn opc(x: int, y: int, z: int) -> u8 {
    (64 * x + 8 * y + z) as u8
}

pub open spec fn low_byte(a: u16) -> u8 {
    (a % 256) as u8
}

pub open spec fn high_byte(a: u16) -> u8 {
    (a / 256) as u8
}

/// The 16-bit value of a little-endian byte pair.
pub open spec fn addr_of(lo: u8, hi: u8) -> u16 {
    (lo + 256 * hi) as u16
}

/// An opcode followed by a little-endian address.
pub open spec fn with_addr(op: u8, a: u16) -> Seq<u8> {
    seq![op, low_byte(a), high_byte(a)]
}

/// The bytes of an instruction.
pub open spec fn encoding(i: Instruction) -> Seq<u8> {
    match i {
        Instruction::Mov(d, s) => seq![opc(1, d.code() as int, s.code() as int)],
        Instruction::Mvi(d, v) => seq![opc(0, d.code() as int, 6), v],
        Instruction::Lxi(rp, v) => seq![opc(0, 2 * rp.code(), 1), v.low, v.high],
        Instruction::Lda(a) => with_addr(0x3A, a),
        Instruction::Sta(a) => with_addr(0x32, a),
        Instruction::Lhld(a) => with_addr(0x2A, a),
        Instruction::Shld(a) => with_addr(0x22, a),
        Instruction::Ldax(rp) => seq![opc(0, 2 * rp.code() + 1, 2)],
        Instruction::Stax(rp) => seq![opc(0, 2 * rp.code(), 2)],
        Instruction::Xchg => seq![0xEBu8],
        Instruction::Add(r) => seq![opc(2, 0, r.code() as int)],
        Instruction::Adc(r) => seq![opc(2, 1, r.code() as int)],
        Instruction::Sub(r) => seq![opc(2, 2, r.code() as int)],
        Instruction::Sbb(r) => seq![opc(2, 3, r.code() as int)],
        Instruction::Ana(r) => seq![opc(2, 4, r.code() as int)],
        Instruction::Xra(r) => seq![opc(2, 5, r.code() as int)],
        Instruction::Ora(r) => seq![opc(2, 6, r.code() as int)],
        Instruction::Cmp(r) => seq![opc(2, 7, r.code() as int)],
        Instruction::Adi(v) => seq![0xC6u8, v],
        Instruction::Aci(v) => seq![0xCEu8, v],
        Instruction::Sui(v) => seq![0xD6u8, v],
        Instruction::Sbi(v) => seq![0xDEu8, v],
        Instruction::Ani(v) => seq![0xE6u8, v],
        Instruction::Xri(v) => seq![0xEEu8, v],
        Instruction::Ori(v) => seq![0xF6u8, v],
        Instruction::Cpi(v) => seq![0xFEu8, v],
        Instruction::Inr(r) => seq![opc(0, r.code() as int, 4)],
        Instruction::Dcr(r) => seq![opc(0, r.code() as int, 5)],
        Instruction::Inx(rp) => seq![opc(0, 2 * rp.code(), 3)],
        Instruction::Dcx(rp) => seq![opc(0, 2 * rp.code() + 1, 3)],
        Instruction::Dad(rp) => seq![opc(0, 2 * rp.code() + 1, 1)],
        Instruction::Daa => seq![0x27u8],
        Instruction::Rlc => seq![0x07u8],
        Instruction::Rrc => seq![0x0Fu8],
        Instruction::Ral => seq![0x17u8],
        Instruction::Rar => seq![0x1Fu8],
        Instruction::Cma => seq![0x2Fu8],
        Instruction::Cmc => seq![0x3Fu8],
        Instruction::Stc => seq![0x37u8],
        Instruction::Jmp(a) => with_addr(0xC3, a),
        Instruction::Jcc(c, a) => with_addr(opc(3, c.code() as int, 2), a),
        Instruction::Call(a) => with_addr(0xCD, a),
        Instruction::Ccc(c, a) => with_addr(opc(3, c.code() as int, 4), a),
        Instruction::Ret => seq![0xC9u8],
        Instruction::Rcc(c) => seq![opc(3, c.code() as int, 0)],
        Instruction::Rst(n) => seq![opc(3, n.code() as int, 7)],
        Instruction::Pchl => seq![0xE9u8],
        Instruction::Push(rp) => seq![opc(3, 2 * rp.code(), 5)],
        Instruction::Pop(rp) => seq![opc(3, 2 * rp.code(), 1)],
        Instruction::Xthl => seq![0xE3u8],
        Instruction::Sphl => seq![0xF9u8],
        Instruction::In(p) => seq![0xDBu8, p],
        Instruction::Out(p) => seq![0xD3u8, p],
        Instruction::Ei => seq![0xFBu8],
        Instruction::Di => seq![0xF3u8],
        Instruction::Hlt => seq![0x76u8],
        Instruction::Nop => seq![0x00u8],
    }
}

/// The byte length of an instruction: 3 with an address or a 16-bit
/// immediate, 2 with an 8-bit immediate or a port, 1 otherwise.
pub open spec fn instruction_size(i: Instruction) -> nat {
    match i {
        Instruction::Lxi(..) | Instruction::Lda(..) | Instruction::Sta(..) | Instruction::Lhld(..)
        | Instruction::Shld(..) | Instruction::Jmp(..) | Instruction::Jcc(..) | Instruction::Call(..)
        | Instruction::Ccc(..) => 3,
        Instruction::Mvi(..) | Instruction::Adi(..) | Instruction::Aci(..) | Instruction::Sui(..)
        | Instruction::Sbi(..) | Instruction::Ani(..) | Instruction::Xri(..) | Instruction::Ori(..)
        | Instruction::Cpi(..) | Instruction::In(..) | Instruction::Out(..) => 2,
        _ => 1,
    }
}

/// Every instruction but `MOV M,M`, whose byte is that of `HLT`.
pub open spec fn well_formed(i: Instruction) -> bool {
    i != Instruction::Mov(Register::M, Register::M)
}

/// The register-operand arithmetic and logical group, by `y`.
pub open spec fn alu_register(y: u8, r: Register) -> Instruction {
    if y == 0 {
        Instruction::Add(r)
    } else if y == 1 {
        Instruction::Adc(r)
    } else if y == 2 {
        Instruction::Sub(r)
    } else if y == 3 {
        Instruction::Sbb(r)
    } else if y == 4 {
        Instruction::Ana(r)
    } else if y == 5 {
        Instruction::Xra(r)
    } else if y == 6 {
        Instruction::Ora(r)
    } else {
        Instruction::Cmp(r)
    }
}

/// The immediate-operand arithmetic and logical group, by `y`.
pub open spec fn alu_immediate(y: u8, v: u8) -> Instruction {
    if y == 0 {
        Instruction::Adi(v)
    } else if y == 1 {
        Instruction::Aci(v)
    } else if y == 2 {
        Instruction::Sui(v)
    } else if y == 3 {
        Instruction::Sbi(v)
    } else if y == 4 {
        Instruction::Ani(v)
    } else if y == 5 {
        Instruction::Xri(v)
    } else if y == 6 {
        Instruction::Ori(v)
    } else {
        Instruction::Cpi(v)
    }
}

/// The instruction that opcode `op` starts, with `lo` and `hi` the bytes
/// that follow it; `None` for the undocumented opcodes.
#[verifier::opaque]
pub open spec fn decode_op(op: u8, lo: u8, hi: u8) -> Option<Instruction> {
    let x = op / 64;
    let y = (op / 8) % 8;
    let z = op % 8;
    let p = y / 2;
    let q = y % 2;
    let a = addr_of(lo, hi);
    if x == 1 {
        if op == 0x76 {
            Some(Instruction::Hlt)
        } else {
            Some(Instruction::Mov(Register::from_code(y), Register::from_code(z)))
        }
    } else if x == 2 {
        Some(alu_register(y, Register::from_code(z)))
    } else if x == 0 {
        if z == 0 {
            if y == 0 {
                Some(Instruction::Nop)
            } else {
                None
            }
        } else if z == 1 {
            if q == 0 {
                Some(Instruction::Lxi(RegisterPair::from_code(p), Data16 { low: lo, high: hi }))
            } else {
                Some(Instruction::Dad(RegisterPair::from_code(p)))
            }
        } else if z == 2 {
            if y == 0 {
                Some(Instruction::Stax(RegisterPairIndirect::Bc))
            } else if y == 1 {
                Some(Instruction::Ldax(RegisterPairIndirect::Bc))
            } else if y == 2 {
                Some(Instruction::Stax(RegisterPairIndirect::De))
            } else if y == 3 {
                Some(Instruction::Ldax(RegisterPairIndirect::De))
            } else if y == 4 {
                Some(Instruction::Shld(a))
            } else if y == 5 {
                Some(Instruction::Lhld(a))
            } else if y == 6 {
                Some(Instruction::Sta(a))
            } else {
                Some(Instruction::Lda(a))
            }
        } else if z == 3 {
            if q == 0 {
                Some(Instruction::Inx(RegisterPair::from_code(p)))
            } else {
                Some(Instruction::Dcx(RegisterPair::from_code(p)))
            }
        } else if z == 4 {
            Some(Instruction::Inr(Register::from_code(y)))
        } else if z == 5 {
            Some(Instruction::Dcr(Register::from_code(y)))
        } else if z == 6 {
            Some(Instruction::Mvi(Register::from_code(y), lo))
        } else {
            if y == 0 {
                Some(Instruction::Rlc)
            } else if y == 1 {
                Some(Instruction::Rrc)
            } else if y == 2 {
                Some(Instruction::Ral)
            } else if y == 3 {
                Some(Instruction::Rar)
            } else if y == 4 {
                Some(Instruction::Daa)
            } else if y == 5 {
                Some(Instruction::Cma)
            } else if y == 6 {
                Some(Instruction::Stc)
            } else {
                Some(Instruction::Cmc)
            }
        }
    } else {
        if z == 0 {
            Some(Instruction::Rcc(Condition::from_code(y)))
        } else if z == 1 {
            if q == 0 {
                Some(Instruction::Pop(RegisterPairOrStatus::from_code(p)))
            } else if p == 0 {
                Some(Instruction::Ret)
            } else if p == 1 {
                None
            } else if p == 2 {
                Some(Instruction::Pchl)
            } else {
                Some(Instruction::Sphl)
            }
        } else if z == 2 {
            Some(Instruction::Jcc(Condition::from_code(y), a))
        } else if z == 3 {
            if y == 0 {
                Some(Instruction::Jmp(a))
            } else if y == 1 {
                None
            } else if y == 2 {
                Some(Instruction::Out(lo))
            } else if y == 3 {
                Some(Instruction::In(lo))
            } else if y == 4 {
                Some(Instruction::Xthl)
            } else if y == 5 {
                Some(Instruction::Xchg)
            } else if y == 6 {
                Some(Instruction::Di)
            } else {
                Some(Instruction::Ei)
            }
        } else if z == 4 {
            Some(Instruction::Ccc(Condition::from_code(y), a))
        } else if z == 5 {
            if q == 0 {
                Some(Instruction::Push(RegisterPairOrStatus::from_code(p)))
            } else if p == 0 {
                Some(Instruction::Call(a))
            } else {
                None
            }
        } else if z == 6 {
            Some(alu_immediate(y, lo))
        } else {
            Some(Instruction::Rst(RestartNumber::from_code(y)))
        }
    }
}

/// The byte at `k`, or zero past the end.
pub open spec fn byte_at(s: Seq<u8>, k: int) -> u8 {
    if 0 <= k < s.len() {
        s[k]
    } else {
        0
    }
}

/// The instruction at the start of `s` and its length, or `None` where no
/// documented opcode starts `s` or its operands are cut off.
pub open spec fn decode_spec(s: Seq<u8>) -> Option<(Instruction, nat)> {
    if s.len() == 0 {
        None
    } else {
        match decode_op(s[0], byte_at(s, 1), byte_at(s, 2)) {
            Some(i) => if instruction_size(i) <= s.len() {
                Some((i, instruction_size(i)))
            } else {
                None
            },
            None => None,
        }
    }
}

/// What a family decoder does: where the next instruction belongs to the
/// family (`family` holds of it), it is returned and consumed; otherwise
/// nothing is returned and the reader is unchanged.
pub open spec fn parse_outcome<'a>(
    old: Reader<'a>,
    new: Reader<'a>,
    r: Option<Instruction>,
    family: spec_fn(Instruction) -> bool,
) -> bool {
    match decode_spec(old.rest()) {
        Some((i, n)) => if family(i) {
            r == Some(i) && new.advanced(old, n as int)
        } else {
            r.is_none() && new == old
        },
        None => r.is_none() && new == old,
    }
}

/// The bytes of a program.
pub open spec fn program_bytes(items: Seq<InstructionOrData>) -> Seq<u8>
    decreases items.len(),
{
    if items.len() == 0 {
        seq![]
    } else {
        program_bytes(items.drop_last()) + match items.last() {
            InstructionOrData::Instruction(i) => encoding(i),
            InstructionOrData::Data(d) => seq![d],
        }
    }
}

proof fn lemma_opc_fields(x: int, y: int, z: int)
    requires
        0 <= x < 4,
        0 <= y < 8,
        0 <= z < 8,
    ensures
        opc(x, y, z) / 64 == x,
        (opc(x, y, z) / 8) % 8 == y,
        opc(x, y, z) % 8 == z,
        (y % 2 == 0) ==> ((opc(x, y, z) / 8) % 8) / 2 == y / 2,
{
    assert(64 * x + 8 * y + z < 256);
    assert((64 * x + 8 * y + z) / 64 == x) by (nonlinear_arith)
        requires
            0 <= x < 4,
            0 <= y < 8,
            0 <= z < 8,
    ;
    assert((64 * x + 8 * y + z) / 8 == 8 * x + y) by (nonlinear_arith)
        requires
            0 <= x < 4,
            0 <= y < 8,
            0 <= z < 8,
    ;
    assert((8 * x + y) % 8 == y) by (nonlinear_arith)
        requires
            0 <= x < 4,
            0 <= y < 8,
    ;
    assert((64 * x + 8 * y + z) % 8 == z) by (nonlinear_arith)
        requires
            0 <= x < 4,
            0 <= y < 8,
            0 <= z < 8,
    ;
}

proof fn lemma_addr(a: u16)
    ensures
        addr_of(low_byte(a), high_byte(a)) == a,
{
}

/// An instruction's encoding is as long as its family says, which is 1, 2 or 3.
pub proof fn lemma_encoding_length(i: Instruction)
    ensures
        encoding(i).len() == instruction_size(i),
        1 <= instruction_size(i) <= 3,
{
}

proof fn lemma_decode_mov(d: Register, r: Register, lo: u8, hi: u8)
    requires
        !(d == Register::M && r == Register::M),
    ensures
        decode_op(opc(1, d.code() as int, r.code() as int), lo, hi) == Some(Instruction::Mov(d, r)),
{
    reveal(decode_op);
    lemma_opc_fields(1, d.code() as int, r.code() as int);
}

proof fn lemma_decode_alu(y: int, r: Register, lo: u8, hi: u8)
    requires
        0 <= y < 8,
    ensures
        decode_op(opc(2, y, r.code() as int), lo, hi) == Some(alu_register(y as u8, r)),
{
    reveal(decode_op);
    lemma_opc_fields(2, y, r.code() as int);
}

proof fn lemma_decode_row0(y: int, z: int, lo: u8, hi: u8)
    requires
        0 <= y < 8,
        1 <= z < 8,
    ensures
        z == 1 && y % 2 == 0 ==> decode_op(opc(0, y, z), lo, hi) == Some(
            Instruction::Lxi(RegisterPair::from_code((y / 2) as u8), Data16 { low: lo, high: hi }),
        ),
        z == 1 && y % 2 == 1 ==> decode_op(opc(0, y, z), lo, hi) == Some(
            Instruction::Dad(RegisterPair::from_code((y / 2) as u8)),
        ),
        z == 2 && y == 0 ==> decode_op(opc(0, y, z), lo, hi) == Some(
            Instruction::Stax(RegisterPairIndirect::Bc),
        ),
        z == 2 && y == 1 ==> decode_op(opc(0, y, z), lo, hi) == Some(
            Instruction::Ldax(RegisterPairIndirect::Bc),
        ),
        z == 2 && y == 2 ==> decode_op(opc(0, y, z), lo, hi) == Some(
            Instruction::Stax(RegisterPairIndirect::De),
        ),
        z == 2 && y == 3 ==> decode_op(opc(0, y, z), lo, hi) == Some(
            Instruction::Ldax(RegisterPairIndirect::De),
        ),
        z == 3 && y % 2 == 0 ==> decode_op(opc(0, y, z), lo, hi) == Some(
            Instruction::Inx(RegisterPair::from_code((y / 2) as u8)),
        ),
        z == 3 && y % 2 == 1 ==> decode_op(opc(0, y, z), lo, hi) == Some(
            Instruction::Dcx(RegisterPair::from_code((y / 2) as u8)),
        ),
        z == 4 ==> decode_op(opc(0, y, z), lo, hi) == Some(
            Instruction::Inr(Register::from_code(y as u8)),
        ),
        z == 5 ==> decode_op(opc(0, y, z), lo, hi) == Some(
            Instruction::Dcr(Register::from_code(y as u8)),
        ),
        z == 6 ==> decode_op(opc(0, y, z), lo, hi) == Some(
            Instruction::Mvi(Register::from_code(y as u8), lo),
        ),
{
    reveal(decode_op);
    lemma_opc_fields(0, y, z);
}

proof fn lemma_decode_row3(y: int, z: int, lo: u8, hi: u8)
    requires
        0 <= y < 8,
        0 <= z < 8,
    ensures
        z == 0 ==> decode_op(opc(3, y, z), lo, hi) == Some(
            Instruction::Rcc(Condition::from_code(y as u8)),
        ),
        z == 1 && y % 2 == 0 ==> decode_op(opc(3, y, z), lo, hi) == Some(
            Instruction::Pop(RegisterPairOrStatus::from_code((y / 2) as u8)),
        ),
        z == 2 ==> decode_op(opc(3, y, z), lo, hi) == Some(
            Instruction::Jcc(Condition::from_code(y as u8), addr_of(lo, hi)),
        ),
        z == 4 ==> decode_op(opc(3, y, z), lo, hi) == Some(
            Instruction::Ccc(Condition::from_code(y as u8), addr_of(lo, hi)),
        ),
        z == 5 && y % 2 == 0 ==> decode_op(opc(3, y, z), lo, hi) == Some(
            Instruction::Push(RegisterPairOrStatus::from_code((y / 2) as u8)),
        ),
        z == 7 ==> decode_op(opc(3, y, z), lo, hi) == Some(
            Instruction::Rst(RestartNumber::from_code(y as u8)),
        ),
{
    reveal(decode_op);
    lemma_opc_fields(3, y, z);
}

proof fn lemma_decode_fixed(lo: u8, hi: u8)
    ensures
        decode_op(0x3A, lo, hi) == Some(Instruction::Lda(addr_of(lo, hi))),
        decode_op(0x32, lo, hi) == Some(Instruction::Sta(addr_of(lo, hi))),
        decode_op(0x2A, lo, hi) == Some(Instruction::Lhld(addr_of(lo, hi))),
        decode_op(0x22, lo, hi) == Some(Instruction::Shld(addr_of(lo, hi))),
        decode_op(0xC3, lo, hi) == Some(Instruction::Jmp(addr_of(lo, hi))),
        decode_op(0xCD, lo, hi) == Some(Instruction::Call(addr_of(lo, hi))),
        decode_op(0xEB, lo, hi) == Some(Instruction::Xchg),
        decode_op(0xC6, lo, hi) == Some(Instruction::Adi(lo)),
        decode_op(0xCE, lo, hi) == Some(Instruction::Aci(lo)),
        decode_op(0xD6, lo, hi) == Some(Instruction::Sui(lo)),
        decode_op(0xDE, lo, hi) == Some(Instruction::Sbi(lo)),
        decode_op(0xE6, lo, hi) == Some(Instruction::Ani(lo)),
        decode_op(0xEE, lo, hi) == Some(Instruction::Xri(lo)),
        decode_op(0xF6, lo, hi) == Some(Instruction::Ori(lo)),
        decode_op(0xFE, lo, hi) == Some(Instruction::Cpi(lo)),
        decode_op(0x27, lo, hi) == Some(Instruction::Daa),
        decode_op(0x07, lo, hi) == Some(Instruction::Rlc),
        decode_op(0x0F, lo, hi) == Some(Instruction::Rrc),
        decode_op(0x17, lo, hi) == Some(Instruction::Ral),
        decode_op(0x1F, lo, hi) == Some(Instruction::Rar),
        decode_op(0x2F, lo, hi) == Some(Instruction::Cma),
        decode_op(0x3F, lo, hi) == Some(Instruction::Cmc),
        decode_op(0x37, lo, hi) == Some(Instruction::Stc),
        decode_op(0xC9, lo, hi) == Some(Instruction::Ret),
        decode_op(0xE9, lo, hi) == Some(Instruction::Pchl),
        decode_op(0xE3, lo, hi) == Some(Instruction::Xthl),
        decode_op(0xF9, lo, hi) == Some(Instruction::Sphl),
        decode_op(0xDB, lo, hi) == Some(Instruction::In(lo)),
        decode_op(0xD3, lo, hi) == Some(Instruction::Out(lo)),
        decode_op(0xFB, lo, hi) == Some(Instruction::Ei),
        decode_op(0xF3, lo, hi) == Some(Instruction::Di),
        decode_op(0x76, lo, hi) == Some(Instruction::Hlt),
        decode_op(0x00, lo, hi) == Some(Instruction::Nop),
{
    reveal(decode_op);
}

proof fn lemma_decode_op_registers(i: Instruction, lo: u8, hi: u8)
    requires
        well_formed(i),
        i is Mov || i is Mvi || i is Inr || i is Dcr || i is Add || i is Adc || i is Sub || i is Sbb
            || i is Ana || i is Xra || i is Ora || i is Cmp,
        instruction_size(i) >= 2 ==> lo == encoding(i)[1],
    ensures
        decode_op(encoding(i)[0], lo, hi) == Some(i),
{
    match i {
        Instruction::Mov(d, r) => lemma_decode_mov(d, r, lo, hi),
        Instruction::Mvi(d, _) => lemma_decode_row0(d.code() as int, 6, lo, hi),
        Instruction::Inr(r) => lemma_decode_row0(r.code() as int, 4, lo, hi),
        Instruction::Dcr(r) => lemma_decode_row0(r.code() as int, 5, lo, hi),
        Instruction::Add(r) => lemma_decode_alu(0, r, lo, hi),
        Instruction::Adc(r) => lemma_decode_alu(1, r, lo, hi),
        Instruction::Sub(r) => lemma_decode_alu(2, r, lo, hi),
        Instruction::Sbb(r) => lemma_decode_alu(3, r, lo, hi),
        Instruction::Ana(r) => lemma_decode_alu(4, r, lo, hi),
        Instruction::Xra(r) => lemma_decode_alu(5, r, lo, hi),
        Instruction::Ora(r) => lemma_decode_alu(6, r, lo, hi),
        Instruction::Cmp(r) => lemma_decode_alu(7, r, lo, hi),
        _ => {},
    }
}

proof fn lemma_decode_op_pairs(i: Instruction, lo: u8, hi: u8)
    requires
        i is Lxi || i is Ldax || i is Stax || i is Inx || i is Dcx || i is Dad || i is Push
            || i is Pop,
        instruction_size(i) >= 2 ==> lo == encoding(i)[1],
        instruction_size(i) >= 3 ==> hi == encoding(i)[2],
    ensures
        decode_op(encoding(i)[0], lo, hi) == Some(i),
{
    match i {
        Instruction::Lxi(rp, _) => lemma_decode_row0(2 * rp.code(), 1, lo, hi),
        Instruction::Ldax(rp) => lemma_decode_row0(2 * rp.code() + 1, 2, lo, hi),
        Instruction::Stax(rp) => lemma_decode_row0(2 * rp.code(), 2, lo, hi),
        Instruction::Inx(rp) => lemma_decode_row0(2 * rp.code(), 3, lo, hi),
        Instruction::Dcx(rp) => lemma_decode_row0(2 * rp.code() + 1, 3, lo, hi),
        Instruction::Dad(rp) => lemma_decode_row0(2 * rp.code() + 1, 1, lo, hi),
        Instruction::Push(rp) => lemma_decode_row3(2 * rp.code(), 5, lo, hi),
        Instruction::Pop(rp) => lemma_decode_row3(2 * rp.code(), 1, lo, hi),
        _ => {},
    }
}

proof fn lemma_decode_op_branches(i: Instruction, lo: u8, hi: u8)
    requires
        i is Jcc || i is Ccc || i is Rcc || i is Rst,
        instruction_size(i) >= 2 ==> lo == encoding(i)[1],
        instruction_size(i) >= 3 ==> hi == encoding(i)[2],
    ensures
        decode_op(encoding(i)[0], lo, hi) == Some(i),
{
    match i {
        Instruction::Jcc(c, a) => {
            lemma_decode_row3(c.code() as int, 2, lo, hi);
            lemma_addr(a);
        },
        Instruction::Ccc(c, a) => {
            lemma_decode_row3(c.code() as int, 4, lo, hi);
            lemma_addr(a);
        },
        Instruction::Rcc(c) => lemma_decode_row3(c.code() as int, 0, lo, hi),
        Instruction::Rst(n) => lemma_decode_row3(n.code() as int, 7, lo, hi),
        _ => {},
    }
}

proof fn lemma_decode_op_fixed(i: Instruction, lo: u8, hi: u8)
    requires
        !(i is Mov || i is Mvi || i is Inr || i is Dcr || i is Add || i is Adc || i is Sub || i is Sbb
            || i is Ana || i is Xra || i is Ora || i is Cmp || i is Lxi || i is Ldax || i is Stax
            || i is Inx || i is Dcx || i is Dad || i is Push || i is Pop || i is Jcc || i is Ccc
            || i is Rcc || i is Rst),
        instruction_size(i) >= 2 ==> lo == encoding(i)[1],
        instruction_size(i) >= 3 ==> hi == encoding(i)[2],
    ensures
        decode_op(encoding(i)[0], lo, hi) == Some(i),
{
    lemma_decode_fixed(lo, hi);
    match i {
        Instruction::Lda(a) => lemma_addr(a),
        Instruction::Sta(a) => lemma_addr(a),
        Instruction::Lhld(a) => lemma_addr(a),
        Instruction::Shld(a) => lemma_addr(a),
        Instruction::Jmp(a) => lemma_addr(a),
        Instruction::Call(a) => lemma_addr(a),
        _ => {},
    }
}

/// The first byte of an instruction's encoding, read with the bytes that
/// follow it, decodes to the instruction.
proof fn lemma_decode_op_encoding(i: Instruction, lo: u8, hi: u8)
    requires
        well_formed(i),
        instruction_size(i) >= 2 ==> lo == encoding(i)[1],
        instruction_size(i) >= 3 ==> hi == encoding(i)[2],
    ensures
        decode_op(encoding(i)[0], lo, hi) == Some(i),
{
    if i is Mov || i is Mvi || i is Inr || i is Dcr || i is Add || i is Adc || i is Sub || i is Sbb
        || i is Ana || i is Xra || i is Ora || i is Cmp {
        lemma_decode_op_registers(i, lo, hi);
    } else if i is Lxi || i is Ldax || i is Stax || i is Inx || i is Dcx || i is Dad || i is Push
        || i is Pop {
        lemma_decode_op_pairs(i, lo, hi);
    } else if i is Jcc || i is Ccc || i is Rcc || i is Rst {
        lemma_decode_op_branches(i, lo, hi);
    } else {
        lemma_decode_op_fixed(i, lo, hi);
    }
}

/// Decoding the encoding of a well-formed instruction, followed by any
/// bytes, gives back the instruction and the length of its encoding.
pub proof fn lemma_decode_encode(i: Instruction, rest: Seq<u8>)
    requires
        well_formed(i),
    ensures
        decode_spec(encoding(i) + rest) == Some((i, encoding(i).len())),
{
    let e = encoding(i);
    let s = e + rest;
    lemma_encoding_length(i);
    assert(s[0] == e[0]);
    if instruction_size(i) >= 2 {
        assert(byte_at(s, 1) == e[1]);
    }
    if instruction_size(i) >= 3 {
        assert(byte_at(s, 2) == e[2]);
    }
    lemma_decode_op_encoding(i, byte_at(s, 1), byte_at(s, 2));
}

/// Decoding exactly the encoding of a well-formed instruction gives it back.
pub proof fn lemma_round_trip(i: Instruction)
    requires
        well_formed(i),
    ensures
        decode_spec(encoding(i)) == Some((i, encoding(i).len())),
{
    lemma_decode_encode(i, seq![]);
    assert(encoding(i) + seq![] =~= encoding(i));
}

/// The byte length of an instruction's encoding.
pub fn instruction_length(instruction: &Instruction) -> (r: u16)
    ensures
        r == instruction_size(*instruction),
        r == encoding(*instruction).len(),
{
    proof {
        lemma_encoding_length(*instruction);
    }
    match instruction {
        Instruction::Lxi(..) | Instruction::Lda(..) | Instruction::Sta(..) | Instruction::Lhld(..)
        | Instruction::Shld(..) | Instruction::Jmp(..) | Instruction::Jcc(..) | Instruction::Call(..)
        | Instruction::Ccc(..) => 3,
        Instruction::Mvi(..) | Instruction::Adi(..) | Instruction::Aci(..) | Instruction::Sui(..)
        | Instruction::Sbi(..) | Instruction::Ani(..) | Instruction::Xri(..) | Instruction::Ori(..)
        | Instruction::Cpi(..) | Instruction::In(..) | Instruction::Out(..) => 2,
        _ => 1,
    }
}

/// Appends the bytes of every item of a program to `buffer`.
pub fn encode_program(buffer: &mut Vec<u8>, items: &[InstructionOrData])
    ensures
        final(buffer)@ == old(buffer)@ + program_bytes(items@),
{
    let mut i: usize = 0;
    while i < items.len()
        invariant
            i <= items@.len(),
            buffer@ == old(buffer)@ + program_bytes(items@.subrange(0, i as int)),
        decreases items.len() - i,
    {
        let ghost before = buffer@;
        match items[i] {
            InstructionOrData::Instruction(instruction) => encode(buffer, instruction),
            InstructionOrData::Data(data) => buffer.push(data),
        }
        proof {
            let next = items@.subrange(0, i + 1);
            assert(next.drop_last() =~= items@.subrange(0, i as int));
            assert(buffer@ =~= old(buffer)@ + program_bytes(next));
        }
        i = i + 1;
    }
    assert(items@.subrange(0, i as int) =~= items@);
}

/// Appends the bytes of `instruction` to `buffer`.
pub fn encode(buffer: &mut Vec<u8>, instruction: Instruction)
    ensures
        final(buffer)@ == old(buffer)@ + encoding(instruction),
{
    match instruction {
        Instruction::Nop => encode::encode_noop(buffer),
        Instruction::Lxi(rp, data) => encode::encode_lxi(buffer, rp, data),
        Instruction::Stax(rp) => encode::encode_stax(buffer, rp),
        Instruction::Inx(rp) => encode::encode_inx(buffer, rp),
        Instruction::Inr(ddd) => encode::encode_inr(buffer, ddd),
        Instruction::Dcr(ddd) => encode::encode_dcr(buffer, ddd),
        Instruction::Mvi(ddd, data) => encode::encode_mvi(buffer, ddd, data),
        Instruction::Dad(rp) => encode::encode_dad(buffer, rp),
        Instruction::Ldax(rp) => encode::encode_ldax(buffer, rp),
        Instruction::Dcx(rp) => encode::encode_dcx(buffer, rp),
        Instruction::Rlc => encode::encode_rlc(buffer),
        Instruction::Rrc => encode::encode_rrc(buffer),
        Instruction::Ral => encode::encode_ral(buffer),
        Instruction::Rar => encode::encode_rar(buffer),
        Instruction::Shld(addr) => encode::encode_shld(buffer, addr),
        Instruction::Daa => encode::encode_daa(buffer),
        Instruction::Lhld(addr) => encode::encode_lhld(buffer, addr),
        Instruction::Cma => encode::encode_cma(buffer),
        Instruction::Sta(addr) => encode::encode_sta(buffer, addr),
        Instruction::Stc => encode::encode_stc(buffer),
        Instruction::Lda(addr) => encode::encode_lda(buffer, addr),
        Instruction::Cmc => encode::encode_cmc(buffer),
        Instruction::Mov(ddd, sss) => encode::encode_mov(buffer, ddd, sss),
        Instruction::Hlt => encode::encode_hlt(buffer),
        Instruction::Add(sss) => encode::encode_add(buffer, sss),
        Instruction::Adc(sss) => encode::encode_adc(buffer, sss),
        Instruction::Sub(sss) => encode::encode_sub(buffer, sss),
        Instruction::Sbb(sss) => encode::encode_sbb(buffer, sss),
        Instruction::Ana(sss) => encode::encode_ana(buffer, sss),
        Instruction::Xra(sss) => encode::encode_xra(buffer, sss),
        Instruction::Ora(sss) => encode::encode_ora(buffer, sss),
        Instruction::Cmp(sss) => encode::encode_cmp(buffer, sss),
        Instruction::Rcc(cc) => encode::encode_rcc(buffer, cc),
        Instruction::Pop(rp) => encode::encode_pop(buffer, rp),
        Instruction::Jcc(cc, addr) => encode::encode_jcc(buffer, cc, addr),
        Instruction::Jmp(addr) => encode::encode_jmp(buffer, addr),
        Instruction::Ccc(cc, addr) => encode::encode_ccc(buffer, cc, addr),
        Instruction::Push(rp) => encode::encode_push(buffer, rp),
        Instruction::Adi(data) => encode::encode_adi(buffer, data),
        Instruction::Aci(data) => encode::encode_aci(buffer, data),
        Instruction::Sui(data) => encode::encode_sui(buffer, data),
        Instruction::Sbi(data) => encode::encode_sbi(buffer, data),
        Instruction::Ani(data) => encode::encode_ani(buffer, data),
        Instruction::Xri(data) => encode::encode_xri(buffer, data),
        Instruction::Ori(data) => encode::encode_ori(buffer, data),
        Instruction::Cpi(data) => encode::encode_cpi(buffer, data),
        Instruction::Rst(n) => encode::encode_rst(buffer, n),
        Instruction::Ret => encode::encode_ret(buffer),
        Instruction::Call(addr) => encode::encode_call(buffer, addr),
        Instruction::Out(port) => encode::encode_out(buffer, port),
        Instruction::In(port) => encode::encode_in(buffer, port),
        Instruction::Xthl => encode::encode_xthl(buffer),
        Instruction::Pchl => encode::encode_pchl(buffer),
        Instruction::Xchg => encode::encode_xchg(buffer),
        Instruction::Di => encode::encode_di(buffer),
        Instruction::Sphl => encode::encode_sphl(buffer),
        Instruction::Ei => encode::encode_ei(buffer),
    }
}

/// Decodes the instruction at the reader's position and consumes it. Fixed
/// opcodes are tried first, so `0x76` is `HLT` and not `MOV M,M`. Returns
/// `None`, and leaves the reader unchanged, where no documented opcode
/// starts the input or its operands are cut off.
pub fn decode(stream: &mut Reader) -> (r: Option<Instruction>)
    requires
        old(stream).wf(),
    ensures
        match decode_spec(old(stream).rest()) {
            Some((i, n)) => r == Some(i) && final(stream).advanced(*old(stream), n as int),
            None => r.is_none() && *final(stream) == *old(stream),
        },
{
    if let Some(i) = decode::parse_noop(stream) {
        return Some(i);
    }
    if let Some(i) = decode::parse_hlt(stream) {
        return Some(i);
    }
    if let Some(i) = decode::parse_rlc(stream) {
        return Some(i);
    }
    if let Some(i) = decode::parse_rrc(stream) {
        return Some(i);
    }
    if let Some(i) = decode::parse_ral(stream) {
        return Some(i);
    }
    if let Some(i) = decode::parse_rar(stream) {
        return Some(i);
    }
    if let Some(i) = decode::parse_daa(stream) {
        return Some(i);
    }
    if let Some(i) = decode::parse_cma(stream) {
        return Some(i);
    }
    if let Some(i) = decode::parse_stc(stream) {
        return Some(i);
    }
    if let Some(i) = decode::parse_cmc(stream) {
        return Some(i);
    }
    if let Some(i) = decode::parse_ret(stream) {
        return Some(i);
    }
    if let Some(i) = decode::parse_pchl(stream) {
        return Some(i);
    }
    if let Some(i) = decode::parse_sphl(stream) {
        return Some(i);
    }
    if let Some(i) = decode::parse_xthl(stream) {
        return Some(i);
    }
    if let Some(i) = decode::parse_xchg(stream) {
        return Some(i);
    }
    if let Some(i) = decode::parse_di(stream) {
        return Some(i);
    }
    if let Some(i) = decode::parse_ei(stream) {
        return Some(i);
    }
    if let Some(i) = decode::parse_mov(stream) {
        return Some(i);
    }
    if let Some(i) = decode::parse_inr(stream) {
        return Some(i);
    }
    if let Some(i) = decode::parse_dcr(stream) {
        return Some(i);
    }
    if let Some(i) = decode::parse_mvi(stream) {
        return Some(i);
    }
    if let Some(i) = decode::parse_add(stream) {
        return Some(i);
    }
    if let Some(i) = decode::parse_adc(stream) {
        return Some(i);
    }
    if let Some(i) = decode::parse_sub(stream) {
        return Some(i);
    }
    if let Some(i) = decode::parse_sbb(stream) {
        return Some(i);
    }
    if let Some(i) = decode::parse_ana(stream) {
        return Some(i);
    }
    if let Some(i) = decode::parse_xra(stream) {
        return Some(i);
    }
    if let Some(i) = decode::parse_ora(stream) {
        return Some(i);
    }
    if let Some(i) = decode::parse_cmp(stream) {
        return Some(i);
    }
    if let Some(i) = decode::parse_lxi(stream) {
        return Some(i);
    }
    if let Some(i) = decode::parse_stax(stream) {
        return Some(i);
    }
    if let Some(i) = decode::parse_inx(stream) {
        return Some(i);
    }
    if let Some(i) = decode::parse_dad(stream) {
        return Some(i);
    }
    if let Some(i) = decode::parse_ldax(stream) {
        return Some(i);
    }
    if let Some(i) = decode::parse_dcx(stream) {
        return Some(i);
    }
    if let Some(i) = decode::parse_pop(stream) {
        return Some(i);
    }
    if let Some(i) = decode::parse_push(stream) {
        return Some(i);
    }
    if let Some(i) = decode::parse_rcc(stream) {
        return Some(i);
    }
    if let Some(i) = decode::parse_jcc(stream) {
        return Some(i);
    }
    if let Some(i) = decode::parse_ccc(stream) {
        return Some(i);
    }
    if let Some(i) = decode::parse_rst(stream) {
        return Some(i);
    }
    if let Some(i) = decode::parse_adi(stream) {
        return Some(i);
    }
    if let Some(i) = decode::parse_aci(stream) {
        return Some(i);
    }
    if let Some(i) = decode::parse_sui(stream) {
        return Some(i);
    }
    if let Some(i) = decode::parse_sbi(stream) {
        return Some(i);
    }
    if let Some(i) = decode::parse_ani(stream) {
        return Some(i);
    }
    if let Some(i) = decode::parse_xri(stream) {
        return Some(i);
    }
    if let Some(i) = decode::parse_ori(stream) {
        return Some(i);
    }
    if let Some(i) = decode::parse_cpi(stream) {
        return Some(i);
    }
    if let Some(i) = decode::parse_shld(stream) {
        return Some(i);
    }
    if let Some(i) = decode::parse_lhld(stream) {
        return Some(i);
    }
    if let Some(i) = decode::parse_sta(stream) {
        return Some(i);
    }
    if let Some(i) = decode::parse_lda(stream) {
        return Some(i);
    }
    if let Some(i) = decode::parse_jmp(stream) {
        return Some(i);
    }
    if let Some(i) = decode::parse_call(stream) {
        return Some(i);
    }
    if let Some(i) = decode::parse_out(stream) {
        return Some(i);
    }
    if let Some(i) = decode::parse_in(stream) {
        return Some(i);
    }
    None
}

} // verus!
