//! The 8080 machine: memory, registers, flags and the executor that runs
//! one instruction per cycle.
use vstd::prelude::*;

use crate::coding::reader::Reader;
use crate::coding::{self, decode_spec};
use crate::instruction::{
    Address, Data16, Data8, Instruction, Register, RegisterPair,
};

mod executor;
pub mod laws;
pub mod semantics;

use crate::machine::semantics::{
    add_flags, add_value, bit, code_at, cycle_spec, decimal, execute_spec, flags_of_status,
    is_arithmetic, is_branch, is_logic, is_transfer, pair16, parity_even, pop_spec, psw,
    push_spec, read_pair, read_register, reg8, result_flags, sub_flags, sub_value, with_a_flags,
    with_pair16, with_pc, with_reg8, with_word, write_pair, write_register, MachineView,
    MEMORY_SIZE,
};

verus! {

/// 64 KiB of byte-addressed memory.
pub struct Memory {
    bytes: Vec<u8>,
}

impl View for Memory {
    type V = Seq<u8>;

    closed spec fn view(&self) -> Seq<u8> {
        self.bytes@
    }
}

impl Memory {
    pub open spec fn wf(&self) -> bool {
        self@.len() == MEMORY_SIZE
    }

    /// Zeroed memory.
    pub fn new() -> (r: Memory)
        ensures
            r.wf(),
            forall|i: int| 0 <= i < MEMORY_SIZE ==> r@[i] == 0,
    {
        let mut bytes: Vec<u8> = Vec::new();
        while bytes.len() < MEMORY_SIZE
            invariant
                bytes@.len() <= MEMORY_SIZE,
                forall|i: int| 0 <= i < bytes@.len() ==> bytes@[i] == 0,
            decreases MEMORY_SIZE - bytes@.len(),
        {
            bytes.push(0);
        }
        Memory { bytes }
    }

    pub fn read_8(&self, address: Address) -> (r: Data8)
        requires
            self.wf(),
        ensures
            r == self@[address as int],
    {
        self.bytes[address as usize]
    }

    /// The word at `address` and `address + 1`; `None` at the last address.
    pub fn read_16(&self, address: Address) -> (r: Option<Data16>)
        requires
            self.wf(),
        ensures
            address < 0xFFFF ==> r == Some(
                Data16 { low: self@[address as int], high: self@[address + 1] },
            ),
            address == 0xFFFF ==> r.is_none(),
    {
        if address == 0xFFFF {
            return None;
        }
        let low = self.bytes[address as usize];
        let high = self.bytes[address as usize + 1];
        Some(Data16::new(low, high))
    }

    pub fn write_8(&mut self, address: Address, value: Data8)
        requires
            old(self).wf(),
        ensures
            final(self).wf(),
            final(self)@ == old(self)@.update(address as int, value),
    {
        self.bytes.set(address as usize, value);
    }

    /// Writes a word, low byte first; at the last address nothing is
    /// written and `None` is returned.
    #[must_use]
    pub fn write_16(&mut self, address: Address, value: Data16) -> (r: Option<()>)
        requires
            old(self).wf(),
        ensures
            final(self).wf(),
            address < 0xFFFF ==> r.is_some() && final(self)@ == old(self)@.update(
                address as int,
                value.low,
            ).update(address + 1, value.high),
            address == 0xFFFF ==> r.is_none() && final(self)@ == old(self)@,
    {
        if address == 0xFFFF {
            return None;
        }
        self.bytes.set(address as usize, value.low);
        self.bytes.set(address as usize + 1, value.high);
        Some(())
    }

    /// Copies `value` to memory from `address` on; `None`, and nothing
    /// written, where it would run past the end.
    pub fn write_slice(&mut self, address: Address, value: &[u8]) -> (r: Option<()>)
        requires
            old(self).wf(),
        ensures
            final(self).wf(),
            address + value@.len() <= MEMORY_SIZE ==> r.is_some() && final(self)@ == old(
                self,
            )@.subrange(0, address as int) + value@ + old(self)@.subrange(
                address + value@.len(),
                MEMORY_SIZE as int,
            ),
            address + value@.len() > MEMORY_SIZE ==> r.is_none() && final(self)@ == old(self)@,
    {
        if value.len() > MEMORY_SIZE - address as usize {
            return None;
        }
        let mut i: usize = 0;
        while i < value.len()
            invariant
                self.wf(),
                old(self).wf(),
                address + value@.len() <= MEMORY_SIZE,
                i <= value@.len(),
                self@ == old(self)@.subrange(0, address as int) + value@.subrange(0, i as int)
                    + old(self)@.subrange(address + i, MEMORY_SIZE as int),
            decreases value.len() - i,
        {
            self.bytes.set(address as usize + i, value[i]);
            assert(self@ =~= old(self)@.subrange(0, address as int) + value@.subrange(0, i + 1)
                + old(self)@.subrange(address + i + 1, MEMORY_SIZE as int));
            i = i + 1;
        }
        assert(value@.subrange(0, i as int) =~= value@);
        Some(())
    }

    pub fn as_raw(&self) -> (r: &[u8])
        ensures
            r@ == self@,
    {
        self.bytes.as_slice()
    }
}

/// One of the five modelled flags.
#[derive(Copy, Clone, Debug, Hash, PartialEq, Eq, Structural)]
pub enum ConditionRegister {
    Carry,
    AuxiliaryCarry,
    Sign,
    Zero,
    Parity,
}

/// The five condition flags.
#[derive(Copy, Clone, Debug, Hash, PartialEq, Eq, Structural)]
pub struct ConditionRegisters {
    pub carry: bool,
    pub auxiliary_carry: bool,
    pub sign: bool,
    pub zero: bool,
    pub parity: bool,
}

impl ConditionRegisters {
    pub open spec fn flag(self, condition: ConditionRegister) -> bool {
        match condition {
            ConditionRegister::Carry => self.carry,
            ConditionRegister::AuxiliaryCarry => self.auxiliary_carry,
            ConditionRegister::Sign => self.sign,
            ConditionRegister::Zero => self.zero,
            ConditionRegister::Parity => self.parity,
        }
    }

    pub open spec fn with_flag(self, condition: ConditionRegister, value: bool) -> Self {
        match condition {
            ConditionRegister::Carry => ConditionRegisters { carry: value, ..self },
            ConditionRegister::AuxiliaryCarry => ConditionRegisters { auxiliary_carry: value, ..self },
            ConditionRegister::Sign => ConditionRegisters { sign: value, ..self },
            ConditionRegister::Zero => ConditionRegisters { zero: value, ..self },
            ConditionRegister::Parity => ConditionRegisters { parity: value, ..self },
        }
    }

    /// All flags clear.
    pub fn new() -> (r: Self)
        ensures
            !r.carry && !r.auxiliary_carry && !r.sign && !r.zero && !r.parity,
    {
        ConditionRegisters {
            carry: false,
            auxiliary_carry: false,
            sign: false,
            zero: false,
            parity: false,
        }
    }

    pub fn get(&self, condition: ConditionRegister) -> (r: bool)
        ensures
            r == self.flag(condition),
    {
        match condition {
            ConditionRegister::Carry => self.carry,
            ConditionRegister::AuxiliaryCarry => self.auxiliary_carry,
            ConditionRegister::Sign => self.sign,
            ConditionRegister::Zero => self.zero,
            ConditionRegister::Parity => self.parity,
        }
    }

    pub fn set(&mut self, condition: ConditionRegister, value: bool)
        ensures
            *final(self) == old(self).with_flag(condition, value),
    {
        match condition {
            ConditionRegister::Carry => self.carry = value,
            ConditionRegister::AuxiliaryCarry => self.auxiliary_carry = value,
            ConditionRegister::Sign => self.sign = value,
            ConditionRegister::Zero => self.zero = value,
            ConditionRegister::Parity => self.parity = value,
        }
    }
}

/// The programmer-visible registers but the program counter.
#[derive(Copy, Clone, Debug, Hash, PartialEq, Eq, Structural)]
pub struct RegisterMap {
    pub a: Data8,
    pub b: Data8,
    pub c: Data8,
    pub d: Data8,
    pub e: Data8,
    pub h: Data8,
    pub l: Data8,
    pub sp: Data16,
}

impl RegisterMap {
    /// All registers zero.
    pub fn new() -> (r: Self)
        ensures
            r == (RegisterMap {
                a: 0,
                b: 0,
                c: 0,
                d: 0,
                e: 0,
                h: 0,
                l: 0,
                sp: Data16 { low: 0, high: 0 },
            }),
    {
        RegisterMap { a: 0, b: 0, c: 0, d: 0, e: 0, h: 0, l: 0, sp: Data16::new(0, 0) }
    }

    /// The value a register selector reads; `M` reads `memory` at `HL`.
    pub fn get_8(&self, register: Register, memory: &Memory) -> (r: Data8)
        requires
            memory.wf(),
        ensures
            r == read_register(*self, memory@, register),
    {
        match register {
            Register::B => self.b,
            Register::C => self.c,
            Register::D => self.d,
            Register::E => self.e,
            Register::H => self.h,
            Register::L => self.l,
            Register::M => {
                let address = self.get_16(RegisterPair::Hl);
                memory.read_8(address.value())
            },
            Register::A => self.a,
        }
    }

    /// Writes through a register selector; `M` writes `memory` at `HL`.
    pub fn set_8(&mut self, register: Register, value: Data8, memory: &mut Memory)
        requires
            old(memory).wf(),
        ensures
            final(memory).wf(),
            (*final(self), final(memory)@) == write_register(
                *old(self),
                old(memory)@,
                register,
                value,
            ),
    {
        match register {
            Register::B => self.b = value,
            Register::C => self.c = value,
            Register::D => self.d = value,
            Register::E => self.e = value,
            Register::H => self.h = value,
            Register::L => self.l = value,
            Register::M => {
                let address = self.get_16(RegisterPair::Hl);
                memory.write_8(address.value(), value);
            },
            Register::A => self.a = value,
        }
    }

    pub fn get_16(&self, register: RegisterPair) -> (r: Data16)
        ensures
            r.spec_value() == read_pair(*self, register),
    {
        match register {
            RegisterPair::Bc => Data16::new(self.c, self.b),
            RegisterPair::De => Data16::new(self.e, self.d),
            RegisterPair::Hl => Data16::new(self.l, self.h),
            RegisterPair::Sp => self.sp,
        }
    }

    pub fn set_16(&mut self, register: RegisterPair, value: Data16)
        ensures
            *final(self) == write_pair(*old(self), register, value.spec_value()),
    {
        match register {
            RegisterPair::Bc => {
                self.c = value.low;
                self.b = value.high;
            },
            RegisterPair::De => {
                self.e = value.low;
                self.d = value.high;
            },
            RegisterPair::Hl => {
                self.l = value.low;
                self.h = value.high;
            },
            RegisterPair::Sp => self.sp = value,
        }
    }
}

/// Why a machine stopped.
#[derive(Copy, Clone, Debug, Hash, PartialEq, Eq, Structural)]
pub enum HaltReason {
    HaltInstruction,
    InvalidInstruction,
    StackOverflow,
    StackUnderflow,
    MemoryOverflow,
}

#[derive(Copy, Clone, Debug, Hash, PartialEq, Eq, Structural)]
pub enum MachineState {
    Running,
    Halted(HaltReason),
}

/// How execution continues after one instruction.
#[derive(Copy, Clone, Debug, Hash, PartialEq, Eq, Structural)]
pub enum ExecutionResult {
    /// Go on with the next instruction.
    Running,
    /// Go on where the instruction set the program counter.
    ControlTransfer,
    Halt,
    StackOverflow,
    /// The stack was popped past the top of memory.
    StackUnderflow,
    /// A 16-bit access would straddle the last address.
    MemoryOverflow,
}

/// An 8080 machine.
pub struct Machine {
    state: MachineState,
    memory: Memory,
    registers: RegisterMap,
    conditions: ConditionRegisters,
    pc: Data16,
    pub stdout: Vec<u8>,
}

impl View for Machine {
    type V = MachineView;

    closed spec fn view(&self) -> MachineView {
        MachineView {
            state: self.state,
            memory: self.memory@,
            registers: self.registers,
            conditions: self.conditions,
            pc: self.pc.spec_value(),
            stdout: self.stdout@,
        }
    }
}

/// Whether the bit is set.
fn is_set(bit: u8) -> (r: bool)
    ensures
        r == (bit == 1),
{
    bit == 1
}

fn parity_of(b: u8) -> (r: bool)
    ensures
        r == parity_even(b),
{
    let count = b % 2 + (b / 2) % 2 + (b / 4) % 2 + (b / 8) % 2 + (b / 16) % 2 + (b / 32) % 2 + (b
        / 64) % 2 + (b / 128) % 2;
    count % 2 == 0
}

fn flags_for(result: u8, carry: bool, auxiliary_carry: bool) -> (r: ConditionRegisters)
    ensures
        r == result_flags(result, carry, auxiliary_carry),
{
    ConditionRegisters {
        carry,
        auxiliary_carry,
        sign: result >= 128,
        zero: result == 0,
        parity: parity_of(result),
    }
}

fn bit_of(b: bool) -> (r: u8)
    ensures
        r == bit(b),
{
    if b {
        1
    } else {
        0
    }
}

/// `a + b + carry_in` and its flags.
fn add_with_flags(a: u8, b: u8, carry_in: bool) -> (r: (u8, ConditionRegisters))
    ensures
        r.0 == add_value(a, b, carry_in),
        r.1 == add_flags(a, b, carry_in),
{
    let c = bit_of(carry_in) as u16;
    let sum = a as u16 + b as u16 + c;
    let result = (sum % 256) as u8;
    let ac = (a % 16) as u16 + (b % 16) as u16 + c > 15;
    (result, flags_for(result, sum > 255, ac))
}

/// `a - b - borrow` and its flags.
fn sub_with_flags(a: u8, b: u8, borrow: bool) -> (r: (u8, ConditionRegisters))
    ensures
        r.0 == sub_value(a, b, borrow),
        r.1 == sub_flags(a, b, borrow),
{
    let c = bit_of(borrow) as u16;
    let result = ((a as u16 + 256 - b as u16 - c) % 256) as u8;
    let ac = (a % 16) as u16 + ((255 - b) % 16) as u16 + (1 - c) > 15;
    (result, flags_for(result, (a as u16) < b as u16 + c, ac))
}

/// Appends the decimal digits of `n`.
fn push_decimal(out: &mut Vec<u8>, n: u16)
    ensures
        final(out)@ == old(out)@ + decimal(n as nat),
    decreases n,
{
    if n >= 10 {
        push_decimal(out, n / 10);
    }
    out.push(48 + (n % 10) as u8);
    proof {
        if n >= 10 {
            assert(final(out)@ =~= old(out)@ + decimal(n as nat));
        } else {
            assert(final(out)@ =~= old(out)@ + decimal(n as nat));
        }
    }
}

impl Machine {
    pub open spec fn wf(&self) -> bool {
        self@.wf()
    }

    /// A machine with zeroed memory, registers, flags and program counter.
    pub fn new() -> (r: Self)
        ensures
            r.wf(),
            r@.state == MachineState::Running,
            forall|i: int| 0 <= i < MEMORY_SIZE ==> r@.memory[i] == 0,
            r@.registers == (RegisterMap {
                a: 0,
                b: 0,
                c: 0,
                d: 0,
                e: 0,
                h: 0,
                l: 0,
                sp: Data16 { low: 0, high: 0 },
            }),
            !r@.conditions.carry && !r@.conditions.auxiliary_carry && !r@.conditions.sign
                && !r@.conditions.zero && !r@.conditions.parity,
            r@.pc == 0,
            r@.stdout.len() == 0,
    {
        Machine {
            state: MachineState::Running,
            memory: Memory::new(),
            registers: RegisterMap::new(),
            conditions: ConditionRegisters::new(),
            pc: Data16::new(0, 0),
            stdout: Vec::new(),
        }
    }

    pub fn state(&self) -> (r: MachineState)
        ensures
            r == self@.state,
    {
        self.state
    }

    pub fn registers(&self) -> (r: &RegisterMap)
        ensures
            *r == self@.registers,
    {
        &self.registers
    }

    pub fn conditions(&self) -> (r: &ConditionRegisters)
        ensures
            *r == self@.conditions,
    {
        &self.conditions
    }

    pub fn memory(&self) -> (r: &Memory)
        ensures
            r@ == self@.memory,
    {
        &self.memory
    }

    /// The memory, for the host to change in place; every other part of
    /// the state stays as it is.
    pub fn memory_mut(&mut self) -> (r: &mut Memory)
        ensures
            r@ == old(self)@.memory,
            final(self)@ == (MachineView { memory: final(r)@, ..old(self)@ }),
    {
        &mut self.memory
    }

    pub fn register_8(&self, register: Register) -> (r: Data8)
        requires
            self.wf(),
        ensures
            r == reg8(self@, register),
    {
        self.registers.get_8(register, &self.memory)
    }

    pub fn register_16(&self, register: RegisterPair) -> (r: Data16)
        ensures
            r.spec_value() == pair16(self@, register),
    {
        self.registers.get_16(register)
    }

    pub fn pc(&self) -> (r: Data16)
        ensures
            r.spec_value() == self@.pc,
    {
        self.pc
    }

    /// Writes through a register selector.
    pub fn set_register_8(&mut self, register: Register, value: Data8)
        requires
            old(self).wf(),
        ensures
            final(self).wf(),
            final(self)@ == with_reg8(old(self)@, register, value),
    {
        self.registers.set_8(register, value, &mut self.memory);
    }

    pub fn set_register_16(&mut self, register: RegisterPair, value: Data16)
        ensures
            final(self)@ == with_pair16(old(self)@, register, value.spec_value()),
    {
        self.registers.set_16(register, value);
    }

    pub fn set_condition(&mut self, condition: ConditionRegister, value: bool)
        ensures
            final(self)@ == (MachineView {
                conditions: old(self)@.conditions.with_flag(condition, value),
                ..old(self)@
            }),
    {
        self.conditions.set(condition, value);
    }

    pub fn set_pc(&mut self, pc: Data16)
        ensures
            final(self)@ == with_pc(old(self)@, pc.spec_value()),
    {
        self.pc = pc;
    }

    /// Copies a program image to memory at `origin` and points the program
    /// counter at it. `None`, and nothing changed, where the image would
    /// run past the end of memory.
    pub fn load_program(&mut self, origin: Address, image: &[u8]) -> (r: Option<()>)
        requires
            old(self).wf(),
        ensures
            final(self).wf(),
            origin + image@.len() <= MEMORY_SIZE ==> r.is_some() && final(self)@ == (MachineView {
                memory: old(self)@.memory.subrange(0, origin as int) + image@ + old(
                    self,
                )@.memory.subrange(origin + image@.len(), MEMORY_SIZE as int),
                pc: origin,
                ..old(self)@
            }),
            origin + image@.len() > MEMORY_SIZE ==> r.is_none() && final(self)@ == old(self)@,
    {
        match self.memory.write_slice(origin, image) {
            Some(()) => {
                self.pc = Data16::from_value(origin);
                Some(())
            },
            None => None,
        }
    }

    /// Pushes a word: `SP` drops by two and the word is written at the new
    /// `SP`. `None`, and nothing changed, where `SP < 2`.
    #[must_use]
    pub fn stack_push(&mut self, data: Data16) -> (r: Option<()>)
        requires
            old(self).wf(),
        ensures
            final(self).wf(),
            match push_spec(old(self)@, data.spec_value()) {
                Some(w) => r.is_some() && final(self)@ == w,
                None => r.is_none() && final(self)@ == old(self)@,
            },
    {
        let new_sp = match self.registers.get_16(RegisterPair::Sp).checked_sub(2) {
            Some(sp) => sp,
            None => return None,
        };
        let written = self.memory.write_16(new_sp.value(), data);
        if written.is_none() {
            return None;
        }
        self.registers.set_16(RegisterPair::Sp, new_sp);
        assert(self.memory@ =~= with_word(old(self)@.memory, new_sp.spec_value() as int, data.spec_value()));
        Some(())
    }

    /// Pops a word from `SP` and raises `SP` by two. `None`, and nothing
    /// changed, where `SP + 2` would pass the top of memory.
    pub fn stack_pop(&mut self) -> (r: Option<Data16>)
        requires
            old(self).wf(),
        ensures
            final(self).wf(),
            match pop_spec(old(self)@) {
                Some((w, x)) => r.is_some() && r.unwrap().spec_value() == x && final(self)@ == w,
                None => r.is_none() && final(self)@ == old(self)@,
            },
    {
        let sp = self.registers.get_16(RegisterPair::Sp);
        let new_sp = match sp.checked_add(2) {
            Some(v) => v,
            None => return None,
        };
        let value = match self.memory.read_16(sp.value()) {
            Some(v) => v,
            None => return None,
        };
        self.registers.set_16(RegisterPair::Sp, new_sp);
        Some(value)
    }

    fn get_status_word(&self) -> (r: Data16)
        ensures
            r.spec_value() == psw(self@),
    {
        let low = 128 * bit_of(self.conditions.sign) + 64 * bit_of(self.conditions.zero) + 16
            * bit_of(self.conditions.auxiliary_carry) + 4 * bit_of(self.conditions.parity) + 2
            + bit_of(self.conditions.carry);
        Data16::new(low, self.registers.a)
    }

    fn set_status_word(&mut self, data: Data16)
        ensures
            final(self)@ == with_a_flags(
                old(self)@,
                (data.spec_value() / 256) as u8,
                flags_of_status((data.spec_value() % 256) as u8),
            ),
    {
        let low = data.low;
        self.conditions = ConditionRegisters {
            carry: is_set(low % 2),
            parity: is_set((low / 4) % 2),
            auxiliary_carry: is_set((low / 16) % 2),
            zero: is_set((low / 64) % 2),
            sign: is_set((low / 128) % 2),
        };
        self.registers.a = data.high;
    }

    /// One cycle, with no input waiting on the stdin port.
    pub fn run_cycle(&mut self)
        requires
            old(self).wf(),
        ensures
            final(self).wf(),
            final(self)@ == cycle_spec(old(self)@, None),
    {
        self.run_cycle_with_input(None);
    }

    /// One cycle; `input` is what the stdin port delivers if the
    /// instruction reads it (`None` at end of input). A halted machine is
    /// left as it is.
    pub fn run_cycle_with_input(&mut self, input: Option<u8>)
        requires
            old(self).wf(),
        ensures
            final(self).wf(),
            final(self)@ == cycle_spec(old(self)@, input),
    {
        match self.state {
            MachineState::Halted(_) => {},
            MachineState::Running => {
                let state = self.load_execute(input);
                self.state = state;
            },
        }
    }

    /// Whether the next instruction reads the stdin port.
    pub fn wants_input(&self) -> (r: bool)
        requires
            self.wf(),
        ensures
            r == (self@.state == MachineState::Running && match decode_spec(code_at(self@)) {
                Some((i, _)) => i == Instruction::In(0),
                None => false,
            }),
    {
        if self.state != MachineState::Running {
            return false;
        }
        match self.load() {
            Some(Instruction::In(port)) => port == 0,
            _ => false,
        }
    }

    fn load_execute(&mut self, input: Option<u8>) -> (r: MachineState)
        requires
            old(self).wf(),
            old(self)@.state == MachineState::Running,
        ensures
            final(self).wf(),
            cycle_spec(old(self)@, input) == (MachineView { state: r, ..final(self)@ }),
    {
        let pc = self.pc.value();
        let raw = self.memory.as_raw();
        let mut stream = Reader::new(&raw[pc as usize..raw.len()]);
        assert(stream.rest() =~= code_at(old(self)@));
        let decoded = coding::decode(&mut stream);
        let instruction = match decoded {
            Some(i) => i,
            None => {
                return MachineState::Halted(HaltReason::InvalidInstruction);
            },
        };
        let instruction_len = stream.read_amount_bytes();
        let result = self.execute(instruction, input);
        if result == ExecutionResult::Running || result == ExecutionResult::Halt {
            self.pc = Data16::from_value(((pc as usize + instruction_len) % 65536) as u16);
        }
        match result {
            ExecutionResult::Running => MachineState::Running,
            ExecutionResult::ControlTransfer => MachineState::Running,
            ExecutionResult::Halt => MachineState::Halted(HaltReason::HaltInstruction),
            ExecutionResult::StackOverflow => MachineState::Halted(HaltReason::StackOverflow),
            ExecutionResult::StackUnderflow => MachineState::Halted(HaltReason::StackUnderflow),
            ExecutionResult::MemoryOverflow => MachineState::Halted(HaltReason::MemoryOverflow),
        }
    }

    /// The instruction at the program counter, if one decodes there.
    pub fn load(&self) -> (r: Option<Instruction>)
        requires
            self.wf(),
        ensures
            match decode_spec(code_at(self@)) {
                Some((i, _)) => r == Some(i),
                None => r.is_none(),
            },
    {
        let pc = self.pc.value();
        let raw = self.memory.as_raw();
        let mut stream = Reader::new(&raw[pc as usize..raw.len()]);
        assert(stream.rest() =~= code_at(self@));
        coding::decode(&mut stream)
    }

    /// Executes one instruction. The program counter changes only where
    /// the instruction transfers control.
    pub fn execute(&mut self, instruction: Instruction, input: Option<u8>) -> (r: ExecutionResult)
        requires
            old(self).wf(),
        ensures
            final(self).wf(),
            (final(self)@, r) == execute_spec(old(self)@, instruction, input),
    {
        if is_transfer_group(&instruction) {
            self.execute_transfer(instruction)
        } else if is_arithmetic_group(&instruction) {
            self.execute_arithmetic(instruction)
        } else if is_logic_group(&instruction) {
            self.execute_logic(instruction)
        } else if is_branch_group(&instruction) {
            self.execute_branch(instruction)
        } else {
            self.execute_control(instruction, input)
        }
    }
}

fn is_transfer_group(i: &Instruction) -> (r: bool)
    ensures
        r == is_transfer(*i),
{
    match i {
        Instruction::Mov(..) | Instruction::Mvi(..) | Instruction::Lxi(..) | Instruction::Lda(..)
        | Instruction::Sta(..) | Instruction::Lhld(..) | Instruction::Shld(..) | Instruction::Ldax(..)
        | Instruction::Stax(..) | Instruction::Xchg => true,
        _ => false,
    }
}

fn is_arithmetic_group(i: &Instruction) -> (r: bool)
    ensures
        r == is_arithmetic(*i),
{
    match i {
        Instruction::Add(..) | Instruction::Adi(..) | Instruction::Adc(..) | Instruction::Aci(..)
        | Instruction::Sub(..) | Instruction::Sui(..) | Instruction::Sbb(..) | Instruction::Sbi(..)
        | Instruction::Inr(..) | Instruction::Dcr(..) | Instruction::Inx(..) | Instruction::Dcx(..)
        | Instruction::Dad(..) | Instruction::Daa => true,
        _ => false,
    }
}

fn is_logic_group(i: &Instruction) -> (r: bool)
    ensures
        r == is_logic(*i),
{
    match i {
        Instruction::Ana(..) | Instruction::Ani(..) | Instruction::Xra(..) | Instruction::Xri(..)
        | Instruction::Ora(..) | Instruction::Ori(..) | Instruction::Cmp(..) | Instruction::Cpi(..)
        | Instruction::Rlc | Instruction::Rrc | Instruction::Ral | Instruction::Rar
        | Instruction::Cma | Instruction::Cmc | Instruction::Stc => true,
        _ => false,
    }
}

fn is_branch_group(i: &Instruction) -> (r: bool)
    ensures
        r == is_branch(*i),
{
    match i {
        Instruction::Jmp(..) | Instruction::Jcc(..) | Instruction::Call(..) | Instruction::Ccc(..)
        | Instruction::Ret | Instruction::Rcc(..) | Instruction::Rst(..) | Instruction::Pchl => true,
        _ => false,
    }
}

} // verus!
