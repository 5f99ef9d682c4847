//! The executor, one instruction group at a time.
use vstd::prelude::*;

use crate::coding::instruction_length;
use crate::instruction::{Condition, Data16, Instruction, RegisterPair};
use crate::machine::semantics::{
    alu_logic, call_spec, condition_holds, execute_arithmetic, execute_branch, execute_control,
    execute_logic, execute_transfer, is_arithmetic, is_branch, is_logic, is_transfer,
    return_spec, with_a_flags, with_word,
};
use crate::machine::{
    add_with_flags, bit_of, flags_for, push_decimal, sub_with_flags, ConditionRegisters,
    ExecutionResult, Machine,
};

verus! {

/// Whether a branch condition holds for the flags.
pub fn condition_met(c: Condition, f: &ConditionRegisters) -> (r: bool)
    ensures
        r == condition_holds(c, *f),
{
    match c {
        Condition::NoZero => !f.zero,
        Condition::Zero => f.zero,
        Condition::NoCarry => !f.carry,
        Condition::Carry => f.carry,
        Condition::ParityOdd => !f.parity,
        Condition::ParityEven => f.parity,
        Condition::Positive => !f.sign,
        Condition::Minus => f.sign,
    }
}

impl Machine {
    pub(crate) fn execute_transfer(&mut self, instruction: Instruction) -> (r: ExecutionResult)
        requires
            old(self).wf(),
            is_transfer(instruction),
        ensures
            final(self).wf(),
            (final(self)@, r) == execute_transfer(old(self)@, instruction),
    {
        match instruction {
            Instruction::Mov(destination, source) => {
                let x = self.register_8(source);
                self.set_register_8(destination, x);
            },
            Instruction::Mvi(destination, data) => {
                self.set_register_8(destination, data);
            },
            Instruction::Lxi(register_pair, data) => {
                self.set_register_16(register_pair, data);
            },
            Instruction::Lda(address) => {
                let x = self.memory.read_8(address);
                self.registers.a = x;
            },
            Instruction::Sta(address) => {
                let a = self.registers.a;
                self.memory.write_8(address, a);
            },
            Instruction::Lhld(address) => {
                match self.memory.read_16(address) {
                    Some(word) => self.registers.set_16(RegisterPair::Hl, word),
                    None => return ExecutionResult::MemoryOverflow,
                }
            },
            Instruction::Shld(address) => {
                let hl = self.registers.get_16(RegisterPair::Hl);
                if self.memory.write_16(address, hl).is_none() {
                    return ExecutionResult::MemoryOverflow;
                }
                assert(self.memory@ =~= with_word(old(self)@.memory, address as int, hl.spec_value()));
            },
            Instruction::Ldax(register_pair_indirect) => {
                let address = self.registers.get_16(register_pair_indirect.to_register_pair());
                let x = self.memory.read_8(address.value());
                self.registers.a = x;
            },
            Instruction::Stax(register_pair_indirect) => {
                let address = self.registers.get_16(register_pair_indirect.to_register_pair());
                let a = self.registers.a;
                self.memory.write_8(address.value(), a);
            },
            Instruction::Xchg => {
                let hl = self.registers.get_16(RegisterPair::Hl);
                let de = self.registers.get_16(RegisterPair::De);
                self.registers.set_16(RegisterPair::De, hl);
                self.registers.set_16(RegisterPair::Hl, de);
            },
            _ => {},
        }
        ExecutionResult::Running
    }

    pub(crate) fn execute_arithmetic(&mut self, instruction: Instruction) -> (r: ExecutionResult)
        requires
            old(self).wf(),
            is_arithmetic(instruction),
        ensures
            final(self).wf(),
            (final(self)@, r) == execute_arithmetic(old(self)@, instruction),
    {
        let a = self.registers.a;
        let cy = self.conditions.carry;
        match instruction {
            Instruction::Add(register) => {
                let x = self.register_8(register);
                self.set_accumulator(add_with_flags(a, x, false));
            },
            Instruction::Adi(x) => self.set_accumulator(add_with_flags(a, x, false)),
            Instruction::Adc(register) => {
                let x = self.register_8(register);
                self.set_accumulator(add_with_flags(a, x, cy));
            },
            Instruction::Aci(x) => self.set_accumulator(add_with_flags(a, x, cy)),
            Instruction::Sub(register) => {
                let x = self.register_8(register);
                self.set_accumulator(sub_with_flags(a, x, false));
            },
            Instruction::Sui(x) => self.set_accumulator(sub_with_flags(a, x, false)),
            Instruction::Sbb(register) => {
                let x = self.register_8(register);
                self.set_accumulator(sub_with_flags(a, x, cy));
            },
            Instruction::Sbi(x) => self.set_accumulator(sub_with_flags(a, x, cy)),
            Instruction::Inr(register) => {
                let x = self.register_8(register);
                let result = ((x as u16 + 1) % 256) as u8;
                let flags = flags_for(result, cy, x % 16 == 15);
                self.set_register_8(register, result);
                self.conditions = flags;
            },
            Instruction::Dcr(register) => {
                let x = self.register_8(register);
                let result = ((x as u16 + 255) % 256) as u8;
                let flags = flags_for(result, cy, x % 16 != 0);
                self.set_register_8(register, result);
                self.conditions = flags;
            },
            Instruction::Inx(register_pair) => {
                let value = self.registers.get_16(register_pair).value();
                let result = ((value as u32 + 1) % 65536) as u16;
                self.registers.set_16(register_pair, Data16::from_value(result));
            },
            Instruction::Dcx(register_pair) => {
                let value = self.registers.get_16(register_pair).value();
                let result = ((value as u32 + 65535) % 65536) as u16;
                self.registers.set_16(register_pair, Data16::from_value(result));
            },
            Instruction::Dad(register_pair) => {
                let hl = self.registers.get_16(RegisterPair::Hl).value();
                let term = self.registers.get_16(register_pair).value();
                let sum = hl as u32 + term as u32;
                self.registers.set_16(RegisterPair::Hl, Data16::from_value((sum % 65536) as u16));
                self.conditions.carry = sum > 65535;
            },
            Instruction::Daa => {
                let low_adjust = a % 16 > 9 || self.conditions.auxiliary_carry;
                let a1 = if low_adjust {
                    ((a as u16 + 6) % 256) as u8
                } else {
                    a
                };
                let ac = low_adjust && a % 16 > 9;
                let high_adjust = a1 / 16 > 9 || cy;
                let a2 = if high_adjust {
                    ((a1 as u16 + 0x60) % 256) as u8
                } else {
                    a1
                };
                let carry = cy || (high_adjust && a1 as u16 + 0x60 > 255);
                self.registers.a = a2;
                self.conditions = flags_for(a2, carry, ac);
            },
            _ => {},
        }
        ExecutionResult::Running
    }

    /// Stores an arithmetic result in `A` and its flags.
    fn set_accumulator(&mut self, result: (u8, ConditionRegisters))
        ensures
            final(self)@ == with_a_flags(old(self)@, result.0, result.1),
    {
        self.registers.a = result.0;
        self.conditions = result.1;
    }

    pub(crate) fn execute_logic(&mut self, instruction: Instruction) -> (r: ExecutionResult)
        requires
            old(self).wf(),
            is_logic(instruction),
        ensures
            final(self).wf(),
            (final(self)@, r) == execute_logic(old(self)@, instruction),
    {
        let a = self.registers.a;
        let cy = self.conditions.carry;
        match instruction {
            Instruction::Ana(register) => {
                let x = self.register_8(register);
                self.set_logic_result(a & x);
            },
            Instruction::Ani(x) => self.set_logic_result(a & x),
            Instruction::Xra(register) => {
                let x = self.register_8(register);
                self.set_logic_result(a ^ x);
            },
            Instruction::Xri(x) => self.set_logic_result(a ^ x),
            Instruction::Ora(register) => {
                let x = self.register_8(register);
                self.set_logic_result(a | x);
            },
            Instruction::Ori(x) => self.set_logic_result(a | x),
            Instruction::Cmp(register) => {
                let x = self.register_8(register);
                let (_, flags) = sub_with_flags(a, x, false);
                self.conditions = flags;
            },
            Instruction::Cpi(x) => {
                let (_, flags) = sub_with_flags(a, x, false);
                self.conditions = flags;
            },
            Instruction::Rlc => {
                self.registers.a = ((a as u16 * 2) % 256 + a as u16 / 128) as u8;
                self.conditions.carry = a >= 128;
            },
            Instruction::Rrc => {
                self.registers.a = (a / 2 + (a % 2) * 128) as u8;
                self.conditions.carry = a % 2 == 1;
            },
            Instruction::Ral => {
                self.registers.a = ((a as u16 * 2) % 256 + bit_of(cy) as u16) as u8;
                self.conditions.carry = a >= 128;
            },
            Instruction::Rar => {
                self.registers.a = a / 2 + bit_of(cy) * 128;
                self.conditions.carry = a % 2 == 1;
            },
            Instruction::Cma => {
                self.registers.a = 255 - a;
            },
            Instruction::Cmc => {
                self.conditions.carry = !cy;
            },
            Instruction::Stc => {
                self.conditions.carry = true;
            },
            _ => {},
        }
        ExecutionResult::Running
    }

    /// Stores a logical result in `A`, with carry and auxiliary carry clear.
    fn set_logic_result(&mut self, result: u8)
        ensures
            final(self)@ == alu_logic(old(self)@, result).0,
    {
        self.registers.a = result;
        self.conditions = flags_for(result, false, false);
    }

    /// Pushes the return address and jumps to `target`.
    fn call(&mut self, return_to: u16, target: u16) -> (r: ExecutionResult)
        requires
            old(self).wf(),
        ensures
            final(self).wf(),
            (final(self)@, r) == call_spec(old(self)@, return_to, target),
    {
        if self.stack_push(Data16::from_value(return_to)).is_some() {
            self.pc = Data16::from_value(target);
            ExecutionResult::ControlTransfer
        } else {
            ExecutionResult::StackOverflow
        }
    }

    /// Pops the return address into the program counter.
    fn ret(&mut self) -> (r: ExecutionResult)
        requires
            old(self).wf(),
        ensures
            final(self).wf(),
            (final(self)@, r) == return_spec(old(self)@),
    {
        match self.stack_pop() {
            Some(address) => {
                self.pc = address;
                ExecutionResult::ControlTransfer
            },
            None => ExecutionResult::StackUnderflow,
        }
    }

    pub(crate) fn execute_branch(&mut self, instruction: Instruction) -> (r: ExecutionResult)
        requires
            old(self).wf(),
            is_branch(instruction),
        ensures
            final(self).wf(),
            (final(self)@, r) == execute_branch(old(self)@, instruction),
    {
        let next = ((self.pc.value() as u32 + instruction_length(&instruction) as u32) % 65536) as u16;
        match instruction {
            Instruction::Jmp(address) => {
                self.pc = Data16::from_value(address);
                ExecutionResult::ControlTransfer
            },
            Instruction::Jcc(condition, address) => {
                if condition_met(condition, &self.conditions) {
                    self.pc = Data16::from_value(address);
                    ExecutionResult::ControlTransfer
                } else {
                    ExecutionResult::Running
                }
            },
            Instruction::Call(address) => self.call(next, address),
            Instruction::Ccc(condition, address) => {
                if condition_met(condition, &self.conditions) {
                    self.call(next, address)
                } else {
                    ExecutionResult::Running
                }
            },
            Instruction::Ret => self.ret(),
            Instruction::Rcc(condition) => {
                if condition_met(condition, &self.conditions) {
                    self.ret()
                } else {
                    ExecutionResult::Running
                }
            },
            Instruction::Rst(restart_number) => {
                let target = restart_number.repr() as u16 * 8;
                self.call(next, target)
            },
            Instruction::Pchl => {
                self.pc = self.registers.get_16(RegisterPair::Hl);
                ExecutionResult::ControlTransfer
            },
            _ => ExecutionResult::Running,
        }
    }

    pub(crate) fn execute_control(&mut self, instruction: Instruction, input: Option<u8>) -> (r:
        ExecutionResult)
        requires
            old(self).wf(),
            !is_transfer(instruction),
            !is_arithmetic(instruction),
            !is_logic(instruction),
            !is_branch(instruction),
        ensures
            final(self).wf(),
            (final(self)@, r) == execute_control(old(self)@, instruction, input),
    {
        match instruction {
            Instruction::Push(register) => {
                let data = match register.to_register_pair() {
                    Some(pair) => self.registers.get_16(pair),
                    None => self.get_status_word(),
                };
                match self.stack_push(data) {
                    Some(()) => ExecutionResult::Running,
                    None => ExecutionResult::StackOverflow,
                }
            },
            Instruction::Pop(register) => {
                match self.stack_pop() {
                    Some(value) => {
                        match register.to_register_pair() {
                            Some(pair) => self.registers.set_16(pair, value),
                            None => self.set_status_word(value),
                        }
                        ExecutionResult::Running
                    },
                    None => ExecutionResult::StackUnderflow,
                }
            },
            Instruction::Xthl => {
                let hl = self.registers.get_16(RegisterPair::Hl);
                let sp = self.registers.get_16(RegisterPair::Sp);
                let stack_top = match self.memory.read_16(sp.value()) {
                    Some(v) => v,
                    None => return ExecutionResult::StackOverflow,
                };
                let written = self.memory.write_16(sp.value(), hl);
                assert(self.memory@ =~= with_word(
                    old(self)@.memory,
                    sp.spec_value() as int,
                    hl.spec_value(),
                ));
                self.registers.set_16(RegisterPair::Hl, stack_top);
                ExecutionResult::Running
            },
            Instruction::Sphl => {
                let hl = self.registers.get_16(RegisterPair::Hl);
                self.registers.set_16(RegisterPair::Sp, hl);
                ExecutionResult::Running
            },
            Instruction::In(port) => {
                if port == 0 {
                    match input {
                        Some(byte) => {
                            self.registers.a = byte;
                            ExecutionResult::Running
                        },
                        None => ExecutionResult::Halt,
                    }
                } else {
                    self.registers.a = 0;
                    ExecutionResult::Running
                }
            },
            Instruction::Out(port) => {
                let a = self.registers.a;
                if port == 0 {
                    self.stdout.push(a);
                } else if port == 1 {
                    push_decimal(&mut self.stdout, a as u16);
                } else if port == 2 {
                    let hl = self.registers.get_16(RegisterPair::Hl).value();
                    push_decimal(&mut self.stdout, hl);
                }
                ExecutionResult::Running
            },
            Instruction::Hlt => ExecutionResult::Halt,
            _ => ExecutionResult::Running,
        }
    }
}

} // verus!
