//! The 8080 instruction set and its operand types.
use vstd::prelude::*;

verus! {

/// A single-register selector. `M` addresses memory at `HL`.
#[derive(Copy, Clone, Debug, Hash, PartialEq, Eq, Structural)]
pub enum Register {
    A,
    B,
    C,
    D,
    E,
    H,
    L,
    M,
}

impl Register {
    /// The 3-bit code of the register in an opcode.
    pub open spec fn code(self) -> u8 {
        match self {
            Register::B => 0,
            Register::C => 1,
            Register::D => 2,
            Register::E => 3,
            Register::H => 4,
            Register::L => 5,
            Register::M => 6,
            Register::A => 7,
        }
    }

    pub open spec fn from_code(c: u8) -> Register {
        if c == 0 {
            Register::B
        } else if c == 1 {
            Register::C
        } else if c == 2 {
            Register::D
        } else if c == 3 {
            Register::E
        } else if c == 4 {
            Register::H
        } else if c == 5 {
            Register::L
        } else if c == 6 {
            Register::M
        } else {
            Register::A
        }
    }

    pub fn repr(&self) -> (r: u8)
        ensures
            r == self.code(),
            r < 8,
    {
        match self {
            Register::A => 0b111,
            Register::B => 0b000,
            Register::C => 0b001,
            Register::D => 0b010,
            Register::E => 0b011,
            Register::H => 0b100,
            Register::L => 0b101,
            Register::M => 0b110,
        }
    }

    /// The register with the given 3-bit code.
    pub fn decode_code(c: u8) -> (r: Register)
        requires
            c < 8,
        ensures
            r == Register::from_code(c),
            r.code() == c,
    {
        if c == 0 {
            Register::B
        } else if c == 1 {
            Register::C
        } else if c == 2 {
            Register::D
        } else if c == 3 {
            Register::E
        } else if c == 4 {
            Register::H
        } else if c == 5 {
            Register::L
        } else if c == 6 {
            Register::M
        } else {
            Register::A
        }
    }
}

/// A 16-bit register pair.
#[derive(Copy, Clone, Debug, Hash, PartialEq, Eq, Structural)]
pub enum RegisterPair {
    Bc,
    De,
    Hl,
    Sp,
}

impl RegisterPair {
    pub open spec fn code(self) -> u8 {
        match self {
            RegisterPair::Bc => 0,
            RegisterPair::De => 1,
            RegisterPair::Hl => 2,
            RegisterPair::Sp => 3,
        }
    }

    pub open spec fn from_code(c: u8) -> RegisterPair {
        if c == 0 {
            RegisterPair::Bc
        } else if c == 1 {
            RegisterPair::De
        } else if c == 2 {
            RegisterPair::Hl
        } else {
            RegisterPair::Sp
        }
    }

    pub fn repr(&self) -> (r: u8)
        ensures
            r == self.code(),
            r < 4,
    {
        match self {
            RegisterPair::Bc => 0b00,
            RegisterPair::De => 0b01,
            RegisterPair::Hl => 0b10,
            RegisterPair::Sp => 0b11,
        }
    }

    pub fn decode_code(c: u8) -> (r: RegisterPair)
        requires
            c < 4,
        ensures
            r == RegisterPair::from_code(c),
            r.code() == c,
    {
        if c == 0 {
            RegisterPair::Bc
        } else if c == 1 {
            RegisterPair::De
        } else if c == 2 {
            RegisterPair::Hl
        } else {
            RegisterPair::Sp
        }
    }
}

/// The register pairs that `LDAX` and `STAX` may address.
#[derive(Copy, Clone, Debug, Hash, PartialEq, Eq, Structural)]
pub enum RegisterPairIndirect {
    Bc,
    De,
}

impl RegisterPairIndirect {
    pub open spec fn code(self) -> u8 {
        match self {
            RegisterPairIndirect::Bc => 0,
            RegisterPairIndirect::De => 1,
        }
    }

    pub open spec fn pair(self) -> RegisterPair {
        match self {
            RegisterPairIndirect::Bc => RegisterPair::Bc,
            RegisterPairIndirect::De => RegisterPair::De,
        }
    }

    pub fn repr(&self) -> (r: u8)
        ensures
            r == self.code(),
            r < 2,
    {
        match self {
            RegisterPairIndirect::Bc => 0b00,
            RegisterPairIndirect::De => 0b01,
        }
    }

    pub fn to_register_pair(&self) -> (r: RegisterPair)
        ensures
            r == self.pair(),
    {
        match self {
            RegisterPairIndirect::Bc => RegisterPair::Bc,
            RegisterPairIndirect::De => RegisterPair::De,
        }
    }
}

/// The operands of `PUSH` and `POP`: three pairs and the status word.
#[derive(Copy, Clone, Debug, Hash, PartialEq, Eq, Structural)]
pub enum RegisterPairOrStatus {
    Bc,
    De,
    Hl,
    StatusWord,
}

impl RegisterPairOrStatus {
    pub open spec fn code(self) -> u8 {
        match self {
            RegisterPairOrStatus::Bc => 0,
            RegisterPairOrStatus::De => 1,
            RegisterPairOrStatus::Hl => 2,
            RegisterPairOrStatus::StatusWord => 3,
        }
    }

    pub open spec fn from_code(c: u8) -> RegisterPairOrStatus {
        if c == 0 {
            RegisterPairOrStatus::Bc
        } else if c == 1 {
            RegisterPairOrStatus::De
        } else if c == 2 {
            RegisterPairOrStatus::Hl
        } else {
            RegisterPairOrStatus::StatusWord
        }
    }

    /// The register pair named, or `None` for the status word.
    pub open spec fn pair(self) -> Option<RegisterPair> {
        match self {
            RegisterPairOrStatus::Bc => Some(RegisterPair::Bc),
            RegisterPairOrStatus::De => Some(RegisterPair::De),
            RegisterPairOrStatus::Hl => Some(RegisterPair::Hl),
            RegisterPairOrStatus::StatusWord => None,
        }
    }

    pub fn repr(&self) -> (r: u8)
        ensures
            r == self.code(),
            r < 4,
    {
        match self {
            RegisterPairOrStatus::Bc => 0b00,
            RegisterPairOrStatus::De => 0b01,
            RegisterPairOrStatus::Hl => 0b10,
            RegisterPairOrStatus::StatusWord => 0b11,
        }
    }

    pub fn decode_code(c: u8) -> (r: RegisterPairOrStatus)
        requires
            c < 4,
        ensures
            r == RegisterPairOrStatus::from_code(c),
            r.code() == c,
    {
        if c == 0 {
            RegisterPairOrStatus::Bc
        } else if c == 1 {
            RegisterPairOrStatus::De
        } else if c == 2 {
            RegisterPairOrStatus::Hl
        } else {
            RegisterPairOrStatus::StatusWord
        }
    }

    pub fn to_register_pair(&self) -> (r: Option<RegisterPair>)
        ensures
            r == self.pair(),
    {
        match self {
            RegisterPairOrStatus::Bc => Some(RegisterPair::Bc),
            RegisterPairOrStatus::De => Some(RegisterPair::De),
            RegisterPairOrStatus::Hl => Some(RegisterPair::Hl),
            RegisterPairOrStatus::StatusWord => None,
        }
    }
}

pub type Data8 = u8;

pub type Address = u16;

pub type Port = Data8;

/// A little-endian 16-bit value held as its two bytes.
#[derive(Copy, Clone, Debug, Hash, PartialEq, Eq, Structural)]
pub struct Data16 {
    pub low: Data8,
    pub high: Data8,
}

/// The two bytes of a 16-bit value.
pub open spec fn data16_of(v: u16) -> Data16 {
    Data16 { low: (v % 256) as u8, high: (v / 256) as u8 }
}

impl Data16 {
    /// `low | (high << 8)`.
    pub open spec fn spec_value(self) -> u16 {
        (self.low as int + 256 * self.high as int) as u16
    }

    pub fn new(low: Data8, high: Data8) -> (r: Data16)
        ensures
            r == (Data16 { low, high }),
    {
        Data16 { low, high }
    }

    pub fn value(&self) -> (r: u16)
        ensures
            r == self.spec_value(),
            r as int == self.low as int + 256 * self.high as int,
    {
        self.low as u16 + (self.high as u16) * 256
    }

    pub fn from_value(v: u16) -> (r: Data16)
        ensures
            r == data16_of(v),
            r.spec_value() == v,
    {
        Data16 { low: (v % 256) as u8, high: (v / 256) as u8 }
    }

    /// The value plus `rhs`, or `None` past `0xFFFF`.
    pub fn checked_add(&self, rhs: u16) -> (r: Option<Data16>)
        ensures
            self.spec_value() + rhs <= 0xFFFF ==> r == Some(data16_of((self.spec_value() + rhs) as u16)),
            self.spec_value() + rhs > 0xFFFF ==> r.is_none(),
    {
        let v = self.value();
        if v <= 0xFFFF - rhs {
            Some(Data16::from_value(v + rhs))
        } else {
            None
        }
    }

    /// The value minus `rhs`, or `None` below zero.
    pub fn checked_sub(&self, rhs: u16) -> (r: Option<Data16>)
        ensures
            self.spec_value() >= rhs ==> r == Some(data16_of((self.spec_value() - rhs) as u16)),
            self.spec_value() < rhs ==> r.is_none(),
    {
        let v = self.value();
        if v >= rhs {
            Some(Data16::from_value(v - rhs))
        } else {
            None
        }
    }
}

/// The eight branch conditions, each a predicate on one flag.
#[derive(Copy, Clone, Debug, Hash, PartialEq, Eq, Structural)]
pub enum Condition {
    NoZero,
    Zero,
    NoCarry,
    Carry,
    ParityOdd,
    ParityEven,
    Positive,
    Minus,
}

impl Condition {
    pub open spec fn code(self) -> u8 {
        match self {
            Condition::NoZero => 0,
            Condition::Zero => 1,
            Condition::NoCarry => 2,
            Condition::Carry => 3,
            Condition::ParityOdd => 4,
            Condition::ParityEven => 5,
            Condition::Positive => 6,
            Condition::Minus => 7,
        }
    }

    pub open spec fn from_code(c: u8) -> Condition {
        if c == 0 {
            Condition::NoZero
        } else if c == 1 {
            Condition::Zero
        } else if c == 2 {
            Condition::NoCarry
        } else if c == 3 {
            Condition::Carry
        } else if c == 4 {
            Condition::ParityOdd
        } else if c == 5 {
            Condition::ParityEven
        } else if c == 6 {
            Condition::Positive
        } else {
            Condition::Minus
        }
    }

    /// The condition that holds exactly when this one does not.
    pub open spec fn spec_complement(self) -> Condition {
        match self {
            Condition::NoZero => Condition::Zero,
            Condition::Zero => Condition::NoZero,
            Condition::NoCarry => Condition::Carry,
            Condition::Carry => Condition::NoCarry,
            Condition::ParityOdd => Condition::ParityEven,
            Condition::ParityEven => Condition::ParityOdd,
            Condition::Positive => Condition::Minus,
            Condition::Minus => Condition::Positive,
        }
    }

    pub fn repr(&self) -> (r: u8)
        ensures
            r == self.code(),
            r < 8,
    {
        match self {
            Condition::NoZero => 0b000,
            Condition::Zero => 0b001,
            Condition::NoCarry => 0b010,
            Condition::Carry => 0b011,
            Condition::ParityOdd => 0b100,
            Condition::ParityEven => 0b101,
            Condition::Positive => 0b110,
            Condition::Minus => 0b111,
        }
    }

    pub fn decode_code(c: u8) -> (r: Condition)
        requires
            c < 8,
        ensures
            r == Condition::from_code(c),
            r.code() == c,
    {
        if c == 0 {
            Condition::NoZero
        } else if c == 1 {
            Condition::Zero
        } else if c == 2 {
            Condition::NoCarry
        } else if c == 3 {
            Condition::Carry
        } else if c == 4 {
            Condition::ParityOdd
        } else if c == 5 {
            Condition::ParityEven
        } else if c == 6 {
            Condition::Positive
        } else {
            Condition::Minus
        }
    }

    pub fn complement(&self) -> (r: Condition)
        ensures
            r == self.spec_complement(),
    {
        match self {
            Condition::NoZero => Condition::Zero,
            Condition::Zero => Condition::NoZero,
            Condition::NoCarry => Condition::Carry,
            Condition::Carry => Condition::NoCarry,
            Condition::ParityOdd => Condition::ParityEven,
            Condition::ParityEven => Condition::ParityOdd,
            Condition::Positive => Condition::Minus,
            Condition::Minus => Condition::Positive,
        }
    }
}

/// The operand of `RST`: one of eight restart vectors.
#[derive(Copy, Clone, Debug, Hash, PartialEq, Eq, Structural)]
pub enum RestartNumber {
    R0,
    R1,
    R2,
    R3,
    R4,
    R5,
    R6,
    R7,
}

impl RestartNumber {
    pub open spec fn code(self) -> u8 {
        match self {
            RestartNumber::R0 => 0,
            RestartNumber::R1 => 1,
            RestartNumber::R2 => 2,
            RestartNumber::R3 => 3,
            RestartNumber::R4 => 4,
            RestartNumber::R5 => 5,
            RestartNumber::R6 => 6,
            RestartNumber::R7 => 7,
        }
    }

    pub open spec fn from_code(c: u8) -> RestartNumber {
        if c == 0 {
            RestartNumber::R0
        } else if c == 1 {
            RestartNumber::R1
        } else if c == 2 {
            RestartNumber::R2
        } else if c == 3 {
            RestartNumber::R3
        } else if c == 4 {
            RestartNumber::R4
        } else if c == 5 {
            RestartNumber::R5
        } else if c == 6 {
            RestartNumber::R6
        } else {
            RestartNumber::R7
        }
    }

    pub fn repr(&self) -> (r: u8)
        ensures
            r == self.code(),
            r < 8,
    {
        match self {
            RestartNumber::R0 => 0,
            RestartNumber::R1 => 1,
            RestartNumber::R2 => 2,
            RestartNumber::R3 => 3,
            RestartNumber::R4 => 4,
            RestartNumber::R5 => 5,
            RestartNumber::R6 => 6,
            RestartNumber::R7 => 7,
        }
    }

    /// The restart vector with the given number, if it lies in 0..=7.
    pub fn from_number(c: u16) -> (r: Option<RestartNumber>)
        ensures
            c < 8 ==> r == Some(RestartNumber::from_code(c as u8)),
            c >= 8 ==> r.is_none(),
    {
        if c == 0 {
            Some(RestartNumber::R0)
        } else if c == 1 {
            Some(RestartNumber::R1)
        } else if c == 2 {
            Some(RestartNumber::R2)
        } else if c == 3 {
            Some(RestartNumber::R3)
        } else if c == 4 {
            Some(RestartNumber::R4)
        } else if c == 5 {
            Some(RestartNumber::R5)
        } else if c == 6 {
            Some(RestartNumber::R6)
        } else if c == 7 {
            Some(RestartNumber::R7)
        } else {
            None
        }
    }

    pub fn decode_code(c: u8) -> (r: RestartNumber)
        requires
            c < 8,
        ensures
            r == RestartNumber::from_code(c),
            r.code() == c,
    {
        if c == 0 {
            RestartNumber::R0
        } else if c == 1 {
            RestartNumber::R1
        } else if c == 2 {
            RestartNumber::R2
        } else if c == 3 {
            RestartNumber::R3
        } else if c == 4 {
            RestartNumber::R4
        } else if c == 5 {
            RestartNumber::R5
        } else if c == 6 {
            RestartNumber::R6
        } else {
            RestartNumber::R7
        }
    }
}

/// One item of an assembled program.
#[derive(Copy, Clone, Debug, Hash, PartialEq, Eq, Structural)]
pub enum InstructionOrData {
    Instruction(Instruction),
    Data(Data8),
}

/// Every documented 8080 instruction.
#[derive(Copy, Clone, Debug, Hash, PartialEq, Eq, Structural)]
pub enum Instruction {
    // Data transfer group
    /// Move register / from memory / to memory
    Mov(Register, Register),
    /// Move immediate
    Mvi(Register, Data8),
    /// Load register pair immediate
    Lxi(RegisterPair, Data16),
    /// Load accumulator direct
    Lda(Address),
    /// Store accumulator direct
    Sta(Address),
    /// Load H and L direct
    Lhld(Address),
    /// Store H and L direct
    Shld(Address),
    /// Load accumulator indirect
    Ldax(RegisterPairIndirect),
    /// Store accumulator indirect
    Stax(RegisterPairIndirect),
    /// Exchange H and L with D and E
    Xchg,
    // Arithmetic group
    /// Add register / memory
    Add(Register),
    /// Add immediate
    Adi(Data8),
    /// Add register / memory with carry
    Adc(Register),
    /// Add immediate with carry
    Aci(Data8),
    /// Subtract register / memory
    Sub(Register),
    /// Subtract immediate
    Sui(Data8),
    /// Subtract register / memory with borrow
    Sbb(Register),
    /// Subtract immediate with borrow
    Sbi(Data8),
    /// Increment register / memory
    Inr(Register),
    /// Decrement register / memory
    Dcr(Register),
    /// Increment register pair
    Inx(RegisterPair),
    /// Decrement register pair
    Dcx(RegisterPair),
    /// Add register pair to H and L
    Dad(RegisterPair),
    /// Decimal adjust accumulator
    Daa,
    // Logical group
    /// AND register / memory
    Ana(Register),
    /// AND immediate
    Ani(Data8),
    /// XOR register / memory
    Xra(Register),
    /// XOR immediate
    Xri(Data8),
    /// OR register / memory
    Ora(Register),
    /// OR immediate
    Ori(Data8),
    /// Compare register / memory
    Cmp(Register),
    /// Compare immediate
    Cpi(Data8),
    /// Rotate left
    Rlc,
    /// Rotate right
    Rrc,
    /// Rotate left through carry
    Ral,
    /// Rotate right through carry
    Rar,
    /// Complement accumulator
    Cma,
    /// Complement carry
    Cmc,
    /// Set carry
    Stc,
    // Branch group
    /// Jump
    Jmp(Address),
    /// Conditional jump
    Jcc(Condition, Address),
    /// Call
    Call(Address),
    /// Conditional call
    Ccc(Condition, Address),
    /// Return
    Ret,
    /// Conditional return
    Rcc(Condition),
    /// Restart
    Rst(RestartNumber),
    /// Move H and L to PC
    Pchl,
    // Stack, I/O and machine control group
    /// Push register pair / status word
    Push(RegisterPairOrStatus),
    /// Pop register pair / status word
    Pop(RegisterPairOrStatus),
    /// Exchange stack top with H and L
    Xthl,
    /// Move H and L to SP
    Sphl,
    /// Input
    In(Port),
    /// Output
    Out(Port),
    /// Enable interrupts
    Ei,
    /// Disable interrupts
    Di,
    /// Halt
    Hlt,
    /// No operation
    Nop,
}

} // verus!
