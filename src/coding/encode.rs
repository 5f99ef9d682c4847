//! One encoder per instruction family. Each appends the instruction's
//! bytes to a buffer.
use vstd::prelude::*;

use crate::coding::encoding;
use crate::instruction::{
    Address, Condition, Data16, Data8, Instruction, Port, Register, RegisterPair,
    RegisterPairIndirect, RegisterPairOrStatus, RestartNumber,
};

verus! {

fn write_opcode(stream: &mut Vec<u8>, opcode: u8)
    ensures
        final(stream)@ == old(stream)@.push(opcode),
{
    stream.push(opcode);
}

/// Writes `opcode` with the pair's code in bits 4-5.
fn write_opcode_rp(stream: &mut Vec<u8>, opcode: u8, rp: RegisterPair)
    requires
        opcode < 0xC0,
        opcode % 64 < 16,
    ensures
        final(stream)@ == old(stream)@.push((opcode + 16 * rp.code()) as u8),
{
    let code = rp.repr();
    write_opcode(stream, opcode + code * 16);
}

fn write_opcode_rp_indirect(stream: &mut Vec<u8>, opcode: u8, rp: RegisterPairIndirect)
    requires
        opcode < 0xC0,
        opcode % 64 < 16,
    ensures
        final(stream)@ == old(stream)@.push((opcode + 16 * rp.code()) as u8),
{
    let code = rp.repr();
    write_opcode(stream, opcode + code * 16);
}

fn write_opcode_rp_or_status(stream: &mut Vec<u8>, opcode: u8, rp: RegisterPairOrStatus)
    requires
        opcode % 64 < 16,
    ensures
        final(stream)@ == old(stream)@.push((opcode + 16 * rp.code()) as u8),
{
    let code = rp.repr();
    write_opcode(stream, opcode + code * 16);
}

/// Writes `opcode` with the register's code in bits 3-5.
fn write_opcode_ddd(stream: &mut Vec<u8>, opcode: u8, ddd: Register)
    requires
        opcode % 64 < 8,
    ensures
        final(stream)@ == old(stream)@.push((opcode + 8 * ddd.code()) as u8),
{
    let code = ddd.repr();
    write_opcode(stream, opcode + code * 8);
}

/// Writes `opcode` with the register's code in bits 0-2.
fn write_opcode_sss(stream: &mut Vec<u8>, opcode: u8, sss: Register)
    requires
        opcode % 8 == 0,
    ensures
        final(stream)@ == old(stream)@.push((opcode + sss.code()) as u8),
{
    let code = sss.repr();
    write_opcode(stream, opcode + code);
}

fn write_opcode_ddd_sss(stream: &mut Vec<u8>, opcode: u8, ddd: Register, sss: Register)
    requires
        opcode % 64 == 0,
    ensures
        final(stream)@ == old(stream)@.push((opcode + 8 * ddd.code() + sss.code()) as u8),
{
    let d = ddd.repr();
    let s = sss.repr();
    write_opcode(stream, opcode + d * 8 + s);
}

/// Writes `opcode` with the condition's code in bits 3-5.
fn write_opcode_cc(stream: &mut Vec<u8>, opcode: u8, cc: Condition)
    requires
        opcode % 64 < 8,
    ensures
        final(stream)@ == old(stream)@.push((opcode + 8 * cc.code()) as u8),
{
    let code = cc.repr();
    write_opcode(stream, opcode + code * 8);
}

fn write_opcode_restart_number(stream: &mut Vec<u8>, opcode: u8, n: RestartNumber)
    requires
        opcode % 64 < 8,
    ensures
        final(stream)@ == old(stream)@.push((opcode + 8 * n.code()) as u8),
{
    let code = n.repr();
    write_opcode(stream, opcode + code * 8);
}

fn write_data_8(stream: &mut Vec<u8>, data: Data8)
    ensures
        final(stream)@ == old(stream)@.push(data),
{
    stream.push(data);
}

/// Writes the low byte, then the high byte.
fn write_data_16(stream: &mut Vec<u8>, data: Data16)
    ensures
        final(stream)@ == old(stream)@.push(data.low).push(data.high),
{
    stream.push(data.low);
    stream.push(data.high);
}

fn write_addr(stream: &mut Vec<u8>, addr: Address)
    ensures
        final(stream)@ == old(stream)@.push((addr % 256) as u8).push((addr / 256) as u8),
{
    let data = Data16::from_value(addr);
    write_data_16(stream, data);
}

fn write_port(stream: &mut Vec<u8>, port: Port)
    ensures
        final(stream)@ == old(stream)@.push(port),
{
    stream.push(port);
}

pub fn encode_noop(stream: &mut Vec<u8>)
    ensures
        final(stream)@ == old(stream)@ + encoding(Instruction::Nop),
{
    write_opcode(stream, 0b0000_0000);
    assert(stream@ =~= old(stream)@ + encoding(Instruction::Nop));
}

pub fn encode_lxi(stream: &mut Vec<u8>, rp: RegisterPair, data: Data16)
    ensures
        final(stream)@ == old(stream)@ + encoding(Instruction::Lxi(rp, data)),
{
    write_opcode_rp(stream, 0b0000_0001, rp);
    write_data_16(stream, data);
    assert(stream@ =~= old(stream)@ + encoding(Instruction::Lxi(rp, data)));
}

pub fn encode_stax(stream: &mut Vec<u8>, rp: RegisterPairIndirect)
    ensures
        final(stream)@ == old(stream)@ + encoding(Instruction::Stax(rp)),
{
    write_opcode_rp_indirect(stream, 0b0000_0010, rp);
    assert(stream@ =~= old(stream)@ + encoding(Instruction::Stax(rp)));
}

pub fn encode_inx(stream: &mut Vec<u8>, rp: RegisterPair)
    ensures
        final(stream)@ == old(stream)@ + encoding(Instruction::Inx(rp)),
{
    write_opcode_rp(stream, 0b0000_0011, rp);
    assert(stream@ =~= old(stream)@ + encoding(Instruction::Inx(rp)));
}

pub fn encode_inr(stream: &mut Vec<u8>, ddd: Register)
    ensures
        final(stream)@ == old(stream)@ + encoding(Instruction::Inr(ddd)),
{
    write_opcode_ddd(stream, 0b0000_0100, ddd);
    assert(stream@ =~= old(stream)@ + encoding(Instruction::Inr(ddd)));
}

pub fn encode_dcr(stream: &mut Vec<u8>, ddd: Register)
    ensures
        final(stream)@ == old(stream)@ + encoding(Instruction::Dcr(ddd)),
{
    write_opcode_ddd(stream, 0b0000_0101, ddd);
    assert(stream@ =~= old(stream)@ + encoding(Instruction::Dcr(ddd)));
}

pub fn encode_mvi(stream: &mut Vec<u8>, ddd: Register, data: Data8)
    ensures
        final(stream)@ == old(stream)@ + encoding(Instruction::Mvi(ddd, data)),
{
    write_opcode_ddd(stream, 0b0000_0110, ddd);
    write_data_8(stream, data);
    assert(stream@ =~= old(stream)@ + encoding(Instruction::Mvi(ddd, data)));
}

pub fn encode_dad(stream: &mut Vec<u8>, rp: RegisterPair)
    ensures
        final(stream)@ == old(stream)@ + encoding(Instruction::Dad(rp)),
{
    write_opcode_rp(stream, 0b0000_1001, rp);
    assert(stream@ =~= old(stream)@ + encoding(Instruction::Dad(rp)));
}

pub fn encode_ldax(stream: &mut Vec<u8>, rp: RegisterPairIndirect)
    ensures
        final(stream)@ == old(stream)@ + encoding(Instruction::Ldax(rp)),
{
    write_opcode_rp_indirect(stream, 0b0000_1010, rp);
    assert(stream@ =~= old(stream)@ + encoding(Instruction::Ldax(rp)));
}

pub fn encode_dcx(stream: &mut Vec<u8>, rp: RegisterPair)
    ensures
        final(stream)@ == old(stream)@ + encoding(Instruction::Dcx(rp)),
{
    write_opcode_rp(stream, 0b0000_1011, rp);
    assert(stream@ =~= old(stream)@ + encoding(Instruction::Dcx(rp)));
}

pub fn encode_rlc(stream: &mut Vec<u8>)
    ensures
        final(stream)@ == old(stream)@ + encoding(Instruction::Rlc),
{
    write_opcode(stream, 0b0000_0111);
    assert(stream@ =~= old(stream)@ + encoding(Instruction::Rlc));
}

pub fn encode_rrc(stream: &mut Vec<u8>)
    ensures
        final(stream)@ == old(stream)@ + encoding(Instruction::Rrc),
{
    write_opcode(stream, 0b0000_1111);
    assert(stream@ =~= old(stream)@ + encoding(Instruction::Rrc));
}

pub fn encode_ral(stream: &mut Vec<u8>)
    ensures
        final(stream)@ == old(stream)@ + encoding(Instruction::Ral),
{
    write_opcode(stream, 0b0001_0111);
    assert(stream@ =~= old(stream)@ + encoding(Instruction::Ral));
}

pub fn encode_rar(stream: &mut Vec<u8>)
    ensures
        final(stream)@ == old(stream)@ + encoding(Instruction::Rar),
{
    write_opcode(stream, 0b0001_1111);
    assert(stream@ =~= old(stream)@ + encoding(Instruction::Rar));
}

pub fn encode_shld(stream: &mut Vec<u8>, addr: Address)
    ensures
        final(stream)@ == old(stream)@ + encoding(Instruction::Shld(addr)),
{
    write_opcode(stream, 0b0010_0010);
    write_addr(stream, addr);
    assert(stream@ =~= old(stream)@ + encoding(Instruction::Shld(addr)));
}

pub fn encode_daa(stream: &mut Vec<u8>)
    ensures
        final(stream)@ == old(stream)@ + encoding(Instruction::Daa),
{
    write_opcode(stream, 0b0010_0111);
    assert(stream@ =~= old(stream)@ + encoding(Instruction::Daa));
}

pub fn encode_lhld(stream: &mut Vec<u8>, addr: Address)
    ensures
        final(stream)@ == old(stream)@ + encoding(Instruction::Lhld(addr)),
{
    write_opcode(stream, 0b0010_1010);
    write_addr(stream, addr);
    assert(stream@ =~= old(stream)@ + encoding(Instruction::Lhld(addr)));
}

pub fn encode_cma(stream: &mut Vec<u8>)
    ensures
        final(stream)@ == old(stream)@ + encoding(Instruction::Cma),
{
    write_opcode(stream, 0b0010_1111);
    assert(stream@ =~= old(stream)@ + encoding(Instruction::Cma));
}

pub fn encode_sta(stream: &mut Vec<u8>, addr: Address)
    ensures
        final(stream)@ == old(stream)@ + encoding(Instruction::Sta(addr)),
{
    write_opcode(stream, 0b0011_0010);
    write_addr(stream, addr);
    assert(stream@ =~= old(stream)@ + encoding(Instruction::Sta(addr)));
}

pub fn encode_stc(stream: &mut Vec<u8>)
    ensures
        final(stream)@ == old(stream)@ + encoding(Instruction::Stc),
{
    write_opcode(stream, 0b0011_0111);
    assert(stream@ =~= old(stream)@ + encoding(Instruction::Stc));
}

pub fn encode_lda(stream: &mut Vec<u8>, addr: Address)
    ensures
        final(stream)@ == old(stream)@ + encoding(Instruction::Lda(addr)),
{
    write_opcode(stream, 0b0011_1010);
    write_addr(stream, addr);
    assert(stream@ =~= old(stream)@ + encoding(Instruction::Lda(addr)));
}

pub fn encode_cmc(stream: &mut Vec<u8>)
    ensures
        final(stream)@ == old(stream)@ + encoding(Instruction::Cmc),
{
    write_opcode(stream, 0b0011_1111);
    assert(stream@ =~= old(stream)@ + encoding(Instruction::Cmc));
}

pub fn encode_mov(stream: &mut Vec<u8>, ddd: Register, sss: Register)
    ensures
        final(stream)@ == old(stream)@ + encoding(Instruction::Mov(ddd, sss)),
{
    write_opcode_ddd_sss(stream, 0b0100_0000, ddd, sss);
    assert(stream@ =~= old(stream)@ + encoding(Instruction::Mov(ddd, sss)));
}

pub fn encode_hlt(stream: &mut Vec<u8>)
    ensures
        final(stream)@ == old(stream)@ + encoding(Instruction::Hlt),
{
    write_opcode(stream, 0b0111_0110);
    assert(stream@ =~= old(stream)@ + encoding(Instruction::Hlt));
}

pub fn encode_add(stream: &mut Vec<u8>, sss: Register)
    ensures
        final(stream)@ == old(stream)@ + encoding(Instruction::Add(sss)),
{
    write_opcode_sss(stream, 0b1000_0000, sss);
    assert(stream@ =~= old(stream)@ + encoding(Instruction::Add(sss)));
}

pub fn encode_adc(stream: &mut Vec<u8>, sss: Register)
    ensures
        final(stream)@ == old(stream)@ + encoding(Instruction::Adc(sss)),
{
    write_opcode_sss(stream, 0b1000_1000, sss);
    assert(stream@ =~= old(stream)@ + encoding(Instruction::Adc(sss)));
}

pub fn encode_sub(stream: &mut Vec<u8>, sss: Register)
    ensures
        final(stream)@ == old(stream)@ + encoding(Instruction::Sub(sss)),
{
    write_opcode_sss(stream, 0b1001_0000, sss);
    assert(stream@ =~= old(stream)@ + encoding(Instruction::Sub(sss)));
}

pub fn encode_sbb(stream: &mut Vec<u8>, sss: Register)
    ensures
        final(stream)@ == old(stream)@ + encoding(Instruction::Sbb(sss)),
{
    write_opcode_sss(stream, 0b1001_1000, sss);
    assert(stream@ =~= old(stream)@ + encoding(Instruction::Sbb(sss)));
}

pub fn encode_ana(stream: &mut Vec<u8>, sss: Register)
    ensures
        final(stream)@ == old(stream)@ + encoding(Instruction::Ana(sss)),
{
    write_opcode_sss(stream, 0b1010_0000, sss);
    assert(stream@ =~= old(stream)@ + encoding(Instruction::Ana(sss)));
}

pub fn encode_xra(stream: &mut Vec<u8>, sss: Register)
    ensures
        final(stream)@ == old(stream)@ + encoding(Instruction::Xra(sss)),
{
    write_opcode_sss(stream, 0b1010_1000, sss);
    assert(stream@ =~= old(stream)@ + encoding(Instruction::Xra(sss)));
}

pub fn encode_ora(stream: &mut Vec<u8>, sss: Register)
    ensures
        final(stream)@ == old(stream)@ + encoding(Instruction::Ora(sss)),
{
    write_opcode_sss(stream, 0b1011_0000, sss);
    assert(stream@ =~= old(stream)@ + encoding(Instruction::Ora(sss)));
}

pub fn encode_cmp(stream: &mut Vec<u8>, sss: Register)
    ensures
        final(stream)@ == old(stream)@ + encoding(Instruction::Cmp(sss)),
{
    write_opcode_sss(stream, 0b1011_1000, sss);
    assert(stream@ =~= old(stream)@ + encoding(Instruction::Cmp(sss)));
}

pub fn encode_rcc(stream: &mut Vec<u8>, cc: Condition)
    ensures
        final(stream)@ == old(stream)@ + encoding(Instruction::Rcc(cc)),
{
    write_opcode_cc(stream, 0b1100_0000, cc);
    assert(stream@ =~= old(stream)@ + encoding(Instruction::Rcc(cc)));
}

pub fn encode_pop(stream: &mut Vec<u8>, rp: RegisterPairOrStatus)
    ensures
        final(stream)@ == old(stream)@ + encoding(Instruction::Pop(rp)),
{
    write_opcode_rp_or_status(stream, 0b1100_0001, rp);
    assert(stream@ =~= old(stream)@ + encoding(Instruction::Pop(rp)));
}

pub fn encode_jcc(stream: &mut Vec<u8>, cc: Condition, addr: Address)
    ensures
        final(stream)@ == old(stream)@ + encoding(Instruction::Jcc(cc, addr)),
{
    write_opcode_cc(stream, 0b1100_0010, cc);
    write_addr(stream, addr);
    assert(stream@ =~= old(stream)@ + encoding(Instruction::Jcc(cc, addr)));
}

pub fn encode_jmp(stream: &mut Vec<u8>, addr: Address)
    ensures
        final(stream)@ == old(stream)@ + encoding(Instruction::Jmp(addr)),
{
    write_opcode(stream, 0b1100_0011);
    write_addr(stream, addr);
    assert(stream@ =~= old(stream)@ + encoding(Instruction::Jmp(addr)));
}

pub fn encode_ccc(stream: &mut Vec<u8>, cc: Condition, addr: Address)
    ensures
        final(stream)@ == old(stream)@ + encoding(Instruction::Ccc(cc, addr)),
{
    write_opcode_cc(stream, 0b1100_0100, cc);
    write_addr(stream, addr);
    assert(stream@ =~= old(stream)@ + encoding(Instruction::Ccc(cc, addr)));
}

pub fn encode_push(stream: &mut Vec<u8>, rp: RegisterPairOrStatus)
    ensures
        final(stream)@ == old(stream)@ + encoding(Instruction::Push(rp)),
{
    write_opcode_rp_or_status(stream, 0b1100_0101, rp);
    assert(stream@ =~= old(stream)@ + encoding(Instruction::Push(rp)));
}

pub fn encode_adi(stream: &mut Vec<u8>, data: Data8)
    ensures
        final(stream)@ == old(stream)@ + encoding(Instruction::Adi(data)),
{
    write_opcode(stream, 0b1100_0110);
    write_data_8(stream, data);
    assert(stream@ =~= old(stream)@ + encoding(Instruction::Adi(data)));
}

pub fn encode_aci(stream: &mut Vec<u8>, data: Data8)
    ensures
        final(stream)@ == old(stream)@ + encoding(Instruction::Aci(data)),
{
    write_opcode(stream, 0b1100_1110);
    write_data_8(stream, data);
    assert(stream@ =~= old(stream)@ + encoding(Instruction::Aci(data)));
}

pub fn encode_sui(stream: &mut Vec<u8>, data: Data8)
    ensures
        final(stream)@ == old(stream)@ + encoding(Instruction::Sui(data)),
{
    write_opcode(stream, 0b1101_0110);
    write_data_8(stream, data);
    assert(stream@ =~= old(stream)@ + encoding(Instruction::Sui(data)));
}

pub fn encode_sbi(stream: &mut Vec<u8>, data: Data8)
    ensures
        final(stream)@ == old(stream)@ + encoding(Instruction::Sbi(data)),
{
    write_opcode(stream, 0b1101_1110);
    write_data_8(stream, data);
    assert(stream@ =~= old(stream)@ + encoding(Instruction::Sbi(data)));
}

pub fn encode_ani(stream: &mut Vec<u8>, data: Data8)
    ensures
        final(stream)@ == old(stream)@ + encoding(Instruction::Ani(data)),
{
    write_opcode(stream, 0b1110_0110);
    write_data_8(stream, data);
    assert(stream@ =~= old(stream)@ + encoding(Instruction::Ani(data)));
}

pub fn encode_xri(stream: &mut Vec<u8>, data: Data8)
    ensures
        final(stream)@ == old(stream)@ + encoding(Instruction::Xri(data)),
{
    write_opcode(stream, 0b1110_1110);
    write_data_8(stream, data);
    assert(stream@ =~= old(stream)@ + encoding(Instruction::Xri(data)));
}

pub fn encode_ori(stream: &mut Vec<u8>, data: Data8)
    ensures
        final(stream)@ == old(stream)@ + encoding(Instruction::Ori(data)),
{
    write_opcode(stream, 0b1111_0110);
    write_data_8(stream, data);
    assert(stream@ =~= old(stream)@ + encoding(Instruction::Ori(data)));
}

pub fn encode_cpi(stream: &mut Vec<u8>, data: Data8)
    ensures
        final(stream)@ == old(stream)@ + encoding(Instruction::Cpi(data)),
{
    write_opcode(stream, 0b1111_1110);
    write_data_8(stream, data);
    assert(stream@ =~= old(stream)@ + encoding(Instruction::Cpi(data)));
}

pub fn encode_rst(stream: &mut Vec<u8>, n: RestartNumber)
    ensures
        final(stream)@ == old(stream)@ + encoding(Instruction::Rst(n)),
{
    write_opcode_restart_number(stream, 0b1100_0111, n);
    assert(stream@ =~= old(stream)@ + encoding(Instruction::Rst(n)));
}

pub fn encode_ret(stream: &mut Vec<u8>)
    ensures
        final(stream)@ == old(stream)@ + encoding(Instruction::Ret),
{
    write_opcode(stream, 0b1100_1001);
    assert(stream@ =~= old(stream)@ + encoding(Instruction::Ret));
}

pub fn encode_call(stream: &mut Vec<u8>, addr: Address)
    ensures
        final(stream)@ == old(stream)@ + encoding(Instruction::Call(addr)),
{
    write_opcode(stream, 0b1100_1101);
    write_addr(stream, addr);
    assert(stream@ =~= old(stream)@ + encoding(Instruction::Call(addr)));
}

pub fn encode_out(stream: &mut Vec<u8>, port: Port)
    ensures
        final(stream)@ == old(stream)@ + encoding(Instruction::Out(port)),
{
    write_opcode(stream, 0b1101_0011);
    write_port(stream, port);
    assert(stream@ =~= old(stream)@ + encoding(Instruction::Out(port)));
}

pub fn encode_in(stream: &mut Vec<u8>, port: Port)
    ensures
        final(stream)@ == old(stream)@ + encoding(Instruction::In(port)),
{
    write_opcode(stream, 0b1101_1011);
    write_port(stream, port);
    assert(stream@ =~= old(stream)@ + encoding(Instruction::In(port)));
}

pub fn encode_xthl(stream: &mut Vec<u8>)
    ensures
        final(stream)@ == old(stream)@ + encoding(Instruction::Xthl),
{
    write_opcode(stream, 0b1110_0011);
    assert(stream@ =~= old(stream)@ + encoding(Instruction::Xthl));
}

pub fn encode_pchl(stream: &mut Vec<u8>)
    ensures
        final(stream)@ == old(stream)@ + encoding(Instruction::Pchl),
{
    write_opcode(stream, 0b1110_1001);
    assert(stream@ =~= old(stream)@ + encoding(Instruction::Pchl));
}

pub fn encode_xchg(stream: &mut Vec<u8>)
    ensures
        final(stream)@ == old(stream)@ + encoding(Instruction::Xchg),
{
    write_opcode(stream, 0b1110_1011);
    assert(stream@ =~= old(stream)@ + encoding(Instruction::Xchg));
}

pub fn encode_di(stream: &mut Vec<u8>)
    ensures
        final(stream)@ == old(stream)@ + encoding(Instruction::Di),
{
    write_opcode(stream, 0b1111_0011);
    assert(stream@ =~= old(stream)@ + encoding(Instruction::Di));
}

pub fn encode_sphl(stream: &mut Vec<u8>)
    ensures
        final(stream)@ == old(stream)@ + encoding(Instruction::Sphl),
{
    write_opcode(stream, 0b1111_1001);
    assert(stream@ =~= old(stream)@ + encoding(Instruction::Sphl));
}

pub fn encode_ei(stream: &mut Vec<u8>)
    ensures
        final(stream)@ == old(stream)@ + encoding(Instruction::Ei),
{
    write_opcode(stream, 0b1111_1011);
    assert(stream@ =~= old(stream)@ + encoding(Instruction::Ei));
}

} // verus!
