//! The machine's behaviour as functions on its abstract state: what one
//! instruction does, and what one cycle does.
use vstd::prelude::*;

use crate::coding::{decode_spec, instruction_size};
use crate::instruction::{
    Condition, Data16, Instruction, Register, RegisterPair,
};
use crate::machine::{
    ConditionRegisters, ExecutionResult, HaltReason, MachineState, RegisterMap,
};

verus! {

/// The number of bytes of memory.
pub const MEMORY_SIZE: usize = 65536;

/// The abstract state of a machine.
pub struct MachineView {
    pub state: MachineState,
    pub memory: Seq<u8>,
    pub registers: RegisterMap,
    pub conditions: ConditionRegisters,
    pub pc: u16,
    pub stdout: Seq<u8>,
}

impl MachineView {
    pub open spec fn wf(self) -> bool {
        self.memory.len() == MEMORY_SIZE
    }
}

/// The value of a byte pair, high byte first.
pub open spec fn pair_value(high: u8, low: u8) -> u16 {
    (high * 256 + low) as u16
}

pub open spec fn hl(v: MachineView) -> u16 {
    pair_value(v.registers.h, v.registers.l)
}

/// The value that a register selector reads; `M` reads memory at `HL`.
pub open spec fn read_register(regs: RegisterMap, mem: Seq<u8>, r: Register) -> u8 {
    match r {
        Register::A => regs.a,
        Register::B => regs.b,
        Register::C => regs.c,
        Register::D => regs.d,
        Register::E => regs.e,
        Register::H => regs.h,
        Register::L => regs.l,
        Register::M => mem[pair_value(regs.h, regs.l) as int],
    }
}

/// The registers and memory after writing `x` through a register selector.
pub open spec fn write_register(regs: RegisterMap, mem: Seq<u8>, r: Register, x: u8) -> (
    RegisterMap,
    Seq<u8>,
) {
    match r {
        Register::A => (RegisterMap { a: x, ..regs }, mem),
        Register::B => (RegisterMap { b: x, ..regs }, mem),
        Register::C => (RegisterMap { c: x, ..regs }, mem),
        Register::D => (RegisterMap { d: x, ..regs }, mem),
        Register::E => (RegisterMap { e: x, ..regs }, mem),
        Register::H => (RegisterMap { h: x, ..regs }, mem),
        Register::L => (RegisterMap { l: x, ..regs }, mem),
        Register::M => (regs, mem.update(pair_value(regs.h, regs.l) as int, x)),
    }
}

pub open spec fn read_pair(regs: RegisterMap, rp: RegisterPair) -> u16 {
    match rp {
        RegisterPair::Bc => pair_value(regs.b, regs.c),
        RegisterPair::De => pair_value(regs.d, regs.e),
        RegisterPair::Hl => pair_value(regs.h, regs.l),
        RegisterPair::Sp => regs.sp.spec_value(),
    }
}

pub open spec fn write_pair(regs: RegisterMap, rp: RegisterPair, x: u16) -> RegisterMap {
    let lo = (x % 256) as u8;
    let hi = (x / 256) as u8;
    match rp {
        RegisterPair::Bc => RegisterMap { b: hi, c: lo, ..regs },
        RegisterPair::De => RegisterMap { d: hi, e: lo, ..regs },
        RegisterPair::Hl => RegisterMap { h: hi, l: lo, ..regs },
        RegisterPair::Sp => RegisterMap { sp: Data16 { low: lo, high: hi }, ..regs },
    }
}

pub open spec fn reg8(v: MachineView, r: Register) -> u8 {
    read_register(v.registers, v.memory, r)
}

pub open spec fn with_reg8(v: MachineView, r: Register, x: u8) -> MachineView {
    let (regs, mem) = write_register(v.registers, v.memory, r, x);
    MachineView { registers: regs, memory: mem, ..v }
}

pub open spec fn pair16(v: MachineView, rp: RegisterPair) -> u16 {
    read_pair(v.registers, rp)
}

pub open spec fn with_pair16(v: MachineView, rp: RegisterPair, x: u16) -> MachineView {
    MachineView { registers: write_pair(v.registers, rp, x), ..v }
}

/// The little-endian word at `addr` and `addr + 1`.
pub open spec fn word_at(mem: Seq<u8>, addr: int) -> u16 {
    pair_value(mem[addr + 1], mem[addr])
}

/// Memory with the word `w` written little-endian at `addr`.
pub open spec fn with_word(mem: Seq<u8>, addr: int, w: u16) -> Seq<u8> {
    mem.update(addr, (w % 256) as u8).update(addr + 1, (w / 256) as u8)
}

pub open spec fn bit(b: bool) -> u8 {
    if b {
        1
    } else {
        0
    }
}

/// The number of set bits of a byte.
pub open spec fn popcount(b: u8) -> nat {
    (b % 2 + (b / 2) % 2 + (b / 4) % 2 + (b / 8) % 2 + (b / 16) % 2 + (b / 32) % 2 + (b / 64) % 2 + (
    b / 128) % 2) as nat
}

/// Even parity: an even number of set bits.
pub open spec fn parity_even(b: u8) -> bool {
    popcount(b) % 2 == 0
}

/// The flags byte of the status word: `S Z 0 AC 0 P 1 CY`, bit 7 first.
pub open spec fn status_byte(f: ConditionRegisters) -> u8 {
    (128 * bit(f.sign) + 64 * bit(f.zero) + 16 * bit(f.auxiliary_carry) + 4 * bit(f.parity) + 2
        + bit(f.carry)) as u8
}

/// The flags that a status byte restores.
pub open spec fn flags_of_status(b: u8) -> ConditionRegisters {
    ConditionRegisters {
        carry: b % 2 == 1,
        parity: (b / 4) % 2 == 1,
        auxiliary_carry: (b / 16) % 2 == 1,
        zero: (b / 64) % 2 == 1,
        sign: (b / 128) % 2 == 1,
    }
}

/// The program status word: `A` high, the flags byte low.
pub open spec fn psw(v: MachineView) -> u16 {
    pair_value(v.registers.a, status_byte(v.conditions))
}

/// Zero, sign and parity of `result`, carry and auxiliary carry as given.
pub open spec fn result_flags(result: u8, carry: bool, auxiliary_carry: bool) -> ConditionRegisters {
    ConditionRegisters {
        carry,
        auxiliary_carry,
        sign: result >= 128,
        zero: result == 0,
        parity: parity_even(result),
    }
}

/// `a + b + carry_in`, modulo 256.
pub open spec fn add_value(a: u8, b: u8, carry_in: bool) -> u8 {
    ((a + b + bit(carry_in)) % 256) as u8
}

/// The flags after `a + b + carry_in`.
pub open spec fn add_flags(a: u8, b: u8, carry_in: bool) -> ConditionRegisters {
    result_flags(
        add_value(a, b, carry_in),
        a + b + bit(carry_in) > 255,
        a % 16 + b % 16 + bit(carry_in) > 15,
    )
}

/// `a - b - borrow`, modulo 256.
pub open spec fn sub_value(a: u8, b: u8, borrow: bool) -> u8 {
    ((a - b - bit(borrow) + 256) % 256) as u8
}

/// The flags after `a - b - borrow`, computed as `a + !b + !borrow`: the
/// carry is the borrow (set when `b + borrow > a`), the auxiliary carry
/// is the nibble carry of that addition.
pub open spec fn sub_flags(a: u8, b: u8, borrow: bool) -> ConditionRegisters {
    result_flags(
        sub_value(a, b, borrow),
        a < b + bit(borrow),
        a % 16 + (255 - b) % 16 + (1 - bit(borrow)) > 15,
    )
}

/// The state with `A` and the flags replaced.
pub open spec fn with_a_flags(v: MachineView, a: u8, f: ConditionRegisters) -> MachineView {
    MachineView { registers: RegisterMap { a, ..v.registers }, conditions: f, ..v }
}

pub open spec fn with_carry(v: MachineView, carry: bool) -> MachineView {
    MachineView { conditions: ConditionRegisters { carry, ..v.conditions }, ..v }
}

pub open spec fn with_pc(v: MachineView, pc: u16) -> MachineView {
    MachineView { pc, ..v }
}

/// Whether a branch condition holds for the flags.
pub open spec fn condition_holds(c: Condition, f: ConditionRegisters) -> bool {
    match c {
        Condition::NoZero => !f.zero,
        Condition::Zero => f.zero,
        Condition::NoCarry => !f.carry,
        Condition::Carry => f.carry,
        Condition::ParityOdd => !f.parity,
        Condition::ParityEven => f.parity,
        Condition::Positive => !f.sign,
        Condition::Minus => f.sign,
    }
}

/// Pushing `w`: `SP` drops by two and the word lands at the new `SP`;
/// `None` (stack overflow) where `SP < 2`.
pub open spec fn push_spec(v: MachineView, w: u16) -> Option<MachineView> {
    let sp = v.registers.sp.spec_value();
    if sp < 2 {
        None
    } else {
        Some(
            MachineView {
                memory: with_word(v.memory, sp - 2, w),
                registers: RegisterMap {
                    sp: Data16 { low: ((sp - 2) % 256) as u8, high: ((sp - 2) / 256) as u8 },
                    ..v.registers
                },
                ..v
            },
        )
    }
}

/// Popping: the word at `SP`, with `SP` raised by two; `None` (stack
/// underflow) where `SP + 2` would pass `0xFFFF`.
pub open spec fn pop_spec(v: MachineView) -> Option<(MachineView, u16)> {
    let sp = v.registers.sp.spec_value();
    if sp > 0xFFFD {
        None
    } else {
        Some(
            (
                MachineView {
                    registers: RegisterMap {
                        sp: Data16 { low: ((sp + 2) % 256) as u8, high: ((sp + 2) / 256) as u8 },
                        ..v.registers
                    },
                    ..v
                },
                word_at(v.memory, sp as int),
            ),
        )
    }
}

/// The decimal digits of `n`, as ASCII.
pub open spec fn decimal(n: nat) -> Seq<u8>
    decreases n,
{
    if n < 10 {
        seq![(48 + n) as u8]
    } else {
        decimal(n / 10).push((48 + n % 10) as u8)
    }
}

/// Decimal adjust: the new `A`, carry and auxiliary carry.
pub open spec fn daa_spec(a: u8, carry: bool, auxiliary_carry: bool) -> (u8, bool, bool) {
    let low_adjust = a % 16 > 9 || auxiliary_carry;
    let a1: u8 = if low_adjust {
        ((a + 6) % 256) as u8
    } else {
        a
    };
    let ac = low_adjust && a % 16 > 9;
    let high_adjust = a1 / 16 > 9 || carry;
    let a2: u8 = if high_adjust {
        ((a1 + 0x60) % 256) as u8
    } else {
        a1
    };
    let cy = carry || (high_adjust && a1 + 0x60 > 255);
    (a2, cy, ac)
}

pub open spec fn alu_add(v: MachineView, x: u8, carry_in: bool) -> (MachineView, ExecutionResult) {
    let a = v.registers.a;
    (with_a_flags(v, add_value(a, x, carry_in), add_flags(a, x, carry_in)), ExecutionResult::Running)
}

pub open spec fn alu_sub(v: MachineView, x: u8, borrow: bool) -> (MachineView, ExecutionResult) {
    let a = v.registers.a;
    (with_a_flags(v, sub_value(a, x, borrow), sub_flags(a, x, borrow)), ExecutionResult::Running)
}

pub open spec fn alu_compare(v: MachineView, x: u8) -> (MachineView, ExecutionResult) {
    (MachineView { conditions: sub_flags(v.registers.a, x, false), ..v }, ExecutionResult::Running)
}

/// A logical operation's result in `A`; carry and auxiliary carry cleared.
pub open spec fn alu_logic(v: MachineView, result: u8) -> (MachineView, ExecutionResult) {
    (with_a_flags(v, result, result_flags(result, false, false)), ExecutionResult::Running)
}

pub open spec fn running(v: MachineView) -> (MachineView, ExecutionResult) {
    (v, ExecutionResult::Running)
}

/// The address of the instruction after `i` at `pc`.
pub open spec fn next_pc(pc: u16, i: Instruction) -> u16 {
    ((pc + instruction_size(i)) % 65536) as u16
}

/// Transfers to `target` after pushing the return address; a stack
/// overflow leaves the state unchanged.
pub open spec fn call_spec(v: MachineView, return_to: u16, target: u16) -> (
    MachineView,
    ExecutionResult,
) {
    match push_spec(v, return_to) {
        Some(w) => (with_pc(w, target), ExecutionResult::ControlTransfer),
        None => (v, ExecutionResult::StackOverflow),
    }
}

/// Transfers to a popped address; a stack underflow leaves the state unchanged.
pub open spec fn return_spec(v: MachineView) -> (MachineView, ExecutionResult) {
    match pop_spec(v) {
        Some((w, addr)) => (with_pc(w, addr), ExecutionResult::ControlTransfer),
        None => (v, ExecutionResult::StackUnderflow),
    }
}

/// What the data transfer group does.
pub open spec fn execute_transfer(v: MachineView, i: Instruction) -> (MachineView, ExecutionResult) {
    let a = v.registers.a;
    match i {
        Instruction::Mov(d, s) => running(with_reg8(v, d, reg8(v, s))),
        Instruction::Mvi(d, x) => running(with_reg8(v, d, x)),
        Instruction::Lxi(rp, x) => running(with_pair16(v, rp, x.spec_value())),
        Instruction::Lda(addr) => running(with_reg8(v, Register::A, v.memory[addr as int])),
        Instruction::Sta(addr) => running(MachineView { memory: v.memory.update(addr as int, a), ..v }),
        Instruction::Lhld(addr) => if addr == 0xFFFF {
            (v, ExecutionResult::MemoryOverflow)
        } else {
            running(with_pair16(v, RegisterPair::Hl, word_at(v.memory, addr as int)))
        },
        Instruction::Shld(addr) => if addr == 0xFFFF {
            (v, ExecutionResult::MemoryOverflow)
        } else {
            running(MachineView { memory: with_word(v.memory, addr as int, hl(v)), ..v })
        },
        Instruction::Ldax(rp) => running(
            with_reg8(v, Register::A, v.memory[pair16(v, rp.pair()) as int]),
        ),
        Instruction::Stax(rp) => running(
            MachineView { memory: v.memory.update(pair16(v, rp.pair()) as int, a), ..v },
        ),
        Instruction::Xchg => running(
            with_pair16(
                with_pair16(v, RegisterPair::De, hl(v)),
                RegisterPair::Hl,
                pair16(v, RegisterPair::De),
            ),
        ),
        _ => running(v),
    }
}

/// What the arithmetic group does.
pub open spec fn execute_arithmetic(v: MachineView, i: Instruction) -> (MachineView, ExecutionResult) {
    let a = v.registers.a;
    let cy = v.conditions.carry;
    match i {
        Instruction::Add(r) => alu_add(v, reg8(v, r), false),
        Instruction::Adi(x) => alu_add(v, x, false),
        Instruction::Adc(r) => alu_add(v, reg8(v, r), cy),
        Instruction::Aci(x) => alu_add(v, x, cy),
        Instruction::Sub(r) => alu_sub(v, reg8(v, r), false),
        Instruction::Sui(x) => alu_sub(v, x, false),
        Instruction::Sbb(r) => alu_sub(v, reg8(v, r), cy),
        Instruction::Sbi(x) => alu_sub(v, x, cy),
        Instruction::Inr(r) => {
            let x = reg8(v, r);
            let result = ((x + 1) % 256) as u8;
            running(
                MachineView {
                    conditions: result_flags(result, cy, x % 16 == 15),
                    ..with_reg8(v, r, result)
                },
            )
        },
        Instruction::Dcr(r) => {
            let x = reg8(v, r);
            let result = ((x + 255) % 256) as u8;
            running(
                MachineView {
                    conditions: result_flags(result, cy, x % 16 != 0),
                    ..with_reg8(v, r, result)
                },
            )
        },
        Instruction::Inx(rp) => running(
            with_pair16(v, rp, ((pair16(v, rp) + 1) % 65536) as u16),
        ),
        Instruction::Dcx(rp) => running(
            with_pair16(v, rp, ((pair16(v, rp) + 65535) % 65536) as u16),
        ),
        Instruction::Dad(rp) => {
            let sum = hl(v) + pair16(v, rp);
            running(
                with_carry(with_pair16(v, RegisterPair::Hl, (sum % 65536) as u16), sum > 65535),
            )
        },
        Instruction::Daa => {
            let (a2, cy2, ac2) = daa_spec(a, cy, v.conditions.auxiliary_carry);
            running(with_a_flags(v, a2, result_flags(a2, cy2, ac2)))
        },
        _ => running(v),
    }
}

/// What the logical group does.
pub open spec fn execute_logic(v: MachineView, i: Instruction) -> (MachineView, ExecutionResult) {
    let a = v.registers.a;
    let cy = v.conditions.carry;
    match i {
        Instruction::Ana(r) => alu_logic(v, a & reg8(v, r)),
        Instruction::Ani(x) => alu_logic(v, a & x),
        Instruction::Xra(r) => alu_logic(v, a ^ reg8(v, r)),
        Instruction::Xri(x) => alu_logic(v, a ^ x),
        Instruction::Ora(r) => alu_logic(v, a | reg8(v, r)),
        Instruction::Ori(x) => alu_logic(v, a | x),
        Instruction::Cmp(r) => alu_compare(v, reg8(v, r)),
        Instruction::Cpi(x) => alu_compare(v, x),
        Instruction::Rlc => running(
            with_carry(with_reg8(v, Register::A, ((a * 2) % 256 + a / 128) as u8), a >= 128),
        ),
        Instruction::Rrc => running(
            with_carry(with_reg8(v, Register::A, (a / 2 + (a % 2) * 128) as u8), a % 2 == 1),
        ),
        Instruction::Ral => running(
            with_carry(with_reg8(v, Register::A, ((a * 2) % 256 + bit(cy)) as u8), a >= 128),
        ),
        Instruction::Rar => running(
            with_carry(with_reg8(v, Register::A, (a / 2 + bit(cy) * 128) as u8), a % 2 == 1),
        ),
        Instruction::Cma => running(with_reg8(v, Register::A, (255 - a) as u8)),
        Instruction::Cmc => running(with_carry(v, !cy)),
        Instruction::Stc => running(with_carry(v, true)),
        _ => running(v),
    }
}

/// What the branch group does.
pub open spec fn execute_branch(v: MachineView, i: Instruction) -> (MachineView, ExecutionResult) {
    let next = next_pc(v.pc, i);
    match i {
        Instruction::Jmp(addr) => (with_pc(v, addr), ExecutionResult::ControlTransfer),
        Instruction::Jcc(c, addr) => if condition_holds(c, v.conditions) {
            (with_pc(v, addr), ExecutionResult::ControlTransfer)
        } else {
            running(v)
        },
        Instruction::Call(addr) => call_spec(v, next, addr),
        Instruction::Ccc(c, addr) => if condition_holds(c, v.conditions) {
            call_spec(v, next, addr)
        } else {
            running(v)
        },
        Instruction::Ret => return_spec(v),
        Instruction::Rcc(c) => if condition_holds(c, v.conditions) {
            return_spec(v)
        } else {
            running(v)
        },
        Instruction::Rst(n) => call_spec(v, next, (n.code() * 8) as u16),
        Instruction::Pchl => (with_pc(v, hl(v)), ExecutionResult::ControlTransfer),
        _ => running(v),
    }
}

/// What the stack, I/O and machine control group does. `input` is the
/// byte that the stdin port delivers, `None` at end of input.
pub open spec fn execute_control(v: MachineView, i: Instruction, input: Option<u8>) -> (
    MachineView,
    ExecutionResult,
) {
    let a = v.registers.a;
    match i {
        Instruction::Push(rp) => {
            let w = match rp.pair() {
                Some(p) => pair16(v, p),
                None => psw(v),
            };
            match push_spec(v, w) {
                Some(u) => running(u),
                None => (v, ExecutionResult::StackOverflow),
            }
        },
        Instruction::Pop(rp) => match pop_spec(v) {
            Some((u, w)) => match rp.pair() {
                Some(p) => running(with_pair16(u, p, w)),
                None => running(with_a_flags(u, (w / 256) as u8, flags_of_status((w % 256) as u8))),
            },
            None => (v, ExecutionResult::StackUnderflow),
        },
        Instruction::Xthl => {
            let sp = v.registers.sp.spec_value();
            if sp == 0xFFFF {
                (v, ExecutionResult::StackOverflow)
            } else {
                running(
                    with_pair16(
                        MachineView { memory: with_word(v.memory, sp as int, hl(v)), ..v },
                        RegisterPair::Hl,
                        word_at(v.memory, sp as int),
                    ),
                )
            }
        },
        Instruction::Sphl => running(with_pair16(v, RegisterPair::Sp, hl(v))),
        Instruction::In(port) => if port == 0 {
            match input {
                Some(b) => running(with_reg8(v, Register::A, b)),
                None => (v, ExecutionResult::Halt),
            }
        } else {
            running(with_reg8(v, Register::A, 0))
        },
        Instruction::Out(port) => if port == 0 {
            running(MachineView { stdout: v.stdout.push(a), ..v })
        } else if port == 1 {
            running(MachineView { stdout: v.stdout + decimal(a as nat), ..v })
        } else if port == 2 {
            running(MachineView { stdout: v.stdout + decimal(hl(v) as nat), ..v })
        } else {
            running(v)
        },
        Instruction::Hlt => (v, ExecutionResult::Halt),
        _ => running(v),
    }
}

pub open spec fn is_transfer(i: Instruction) -> bool {
    i is Mov || i is Mvi || i is Lxi || i is Lda || i is Sta || i is Lhld || i is Shld || i is Ldax
        || i is Stax || i is Xchg
}

pub open spec fn is_arithmetic(i: Instruction) -> bool {
    i is Add || i is Adi || i is Adc || i is Aci || i is Sub || i is Sui || i is Sbb || i is Sbi
        || i is Inr || i is Dcr || i is Inx || i is Dcx || i is Dad || i is Daa
}

pub open spec fn is_logic(i: Instruction) -> bool {
    i is Ana || i is Ani || i is Xra || i is Xri || i is Ora || i is Ori || i is Cmp || i is Cpi
        || i is Rlc || i is Rrc || i is Ral || i is Rar || i is Cma || i is Cmc || i is Stc
}

pub open spec fn is_branch(i: Instruction) -> bool {
    i is Jmp || i is Jcc || i is Call || i is Ccc || i is Ret || i is Rcc || i is Rst || i is Pchl
}

/// What executing `i` does to the state, and how execution continues.
/// The program counter changes only on a control transfer.
pub open spec fn execute_spec(v: MachineView, i: Instruction, input: Option<u8>) -> (
    MachineView,
    ExecutionResult,
) {
    if is_transfer(i) {
        execute_transfer(v, i)
    } else if is_arithmetic(i) {
        execute_arithmetic(v, i)
    } else if is_logic(i) {
        execute_logic(v, i)
    } else if is_branch(i) {
        execute_branch(v, i)
    } else {
        execute_control(v, i, input)
    }
}

/// The machine state that an execution result leads to.
pub open spec fn state_of(r: ExecutionResult) -> MachineState {
    match r {
        ExecutionResult::Running => MachineState::Running,
        ExecutionResult::ControlTransfer => MachineState::Running,
        ExecutionResult::Halt => MachineState::Halted(HaltReason::HaltInstruction),
        ExecutionResult::StackOverflow => MachineState::Halted(HaltReason::StackOverflow),
        ExecutionResult::StackUnderflow => MachineState::Halted(HaltReason::StackUnderflow),
        ExecutionResult::MemoryOverflow => MachineState::Halted(HaltReason::MemoryOverflow),
    }
}

/// The bytes from the program counter to the end of memory.
pub open spec fn code_at(v: MachineView) -> Seq<u8> {
    v.memory.subrange(v.pc as int, v.memory.len() as int)
}

/// One cycle: a halted machine stays as it is; otherwise the instruction
/// at the program counter is decoded and executed. The program counter
/// then moves past it unless the instruction transferred control or a
/// fault stopped it. An undecodable instruction halts the machine.
pub open spec fn cycle_spec(v: MachineView, input: Option<u8>) -> MachineView {
    match v.state {
        MachineState::Halted(_) => v,
        MachineState::Running => match decode_spec(code_at(v)) {
            None => MachineView {
                state: MachineState::Halted(HaltReason::InvalidInstruction),
                ..v
            },
            Some((i, n)) => {
                let (w, r) = execute_spec(v, i, input);
                let w2 = if r is Running || r is Halt {
                    with_pc(w, ((v.pc + n) % 65536) as u16)
                } else {
                    w
                };
                MachineView { state: state_of(r), ..w2 }
            },
        },
    }
}

} // verus!
