use i8080::assembler::parse_assembly;
use i8080::coding::encode_program;
use i8080::instruction::{Condition, Data16, Instruction, Register, RegisterPair};
use i8080::machine::{ConditionRegister, ExecutionResult, HaltReason, Machine, MachineState};

/// Assembles `source`, loads it at its origin and returns the machine.
fn load(source: &[u8]) -> Machine {
    let (items, origin) = parse_assembly(source).expect("source should assemble");
    let mut image = Vec::new();
    encode_program(&mut image, &items);
    let mut machine = Machine::new();
    machine.load_program(origin, &image).expect("image should fit");
    machine
}

#[test]
fn test_add_register() {
    let mut machine = Machine::new();

    machine.set_condition(ConditionRegister::Carry, true);
    machine.set_register_8(Register::A, 0x80);
    machine.set_register_8(Register::B, 0x00);

    let result = machine.execute(Instruction::Add(Register::B), None);

    assert_eq!(result, ExecutionResult::Running);
    assert_eq!(machine.register_8(Register::A), 0x80);
    assert!(machine.conditions().get(ConditionRegister::Sign));
    assert!(!machine.conditions().get(ConditionRegister::Carry));
}

#[test]
fn test_sub_register() {
    let mut machine = Machine::new();

    machine.set_register_8(Register::A, 0x20);
    machine.set_register_8(Register::B, 0x10);
    let result = machine.execute(Instruction::Sbi(66), None);

    assert_eq!(result, ExecutionResult::Running);
    assert_eq!(machine.register_8(Register::A), 0xDE);
    assert!(machine.conditions().get(ConditionRegister::Carry));
}

#[test]
fn test_inr_register() {
    let mut machine = Machine::new();

    machine.set_register_8(Register::B, 0x00);
    let result = machine.execute(Instruction::Inr(Register::B), None);

    assert_eq!(result, ExecutionResult::Running);

    assert_eq!(0x01, machine.register_8(Register::B));
}

#[test]
fn test_inx_register() {
    let mut machine = Machine::new();

    machine.set_register_16(RegisterPair::Bc, Data16::from_value(0xFF00));
    let result = machine.execute(Instruction::Inx(RegisterPair::Bc), None);

    assert_eq!(result, ExecutionResult::Running);

    assert_eq!(0xFF01, machine.register_16(RegisterPair::Bc).value());
}

#[test]
fn test_ana_register() {
    let mut machine = Machine::new();

    machine.set_register_8(Register::A, 0xFC);
    machine.set_register_8(Register::B, 0x0F);

    let result = machine.execute(Instruction::Ana(Register::B), None);

    assert_eq!(result, ExecutionResult::Running);
    assert_eq!(machine.register_8(Register::A), 0x0C);
    assert!(!machine.conditions().get(ConditionRegister::Carry));
}

#[test]
fn minimal_move_runs_one_step() {
    let mut machine = load(b"ORG 10H\nMOV A, B\nEND\n");
    assert_eq!(machine.memory().read_8(0x10), 0x78);
    assert_eq!(machine.pc().value(), 0x10);
    machine.run_cycle();
    assert_eq!(machine.pc().value(), 0x11);
    assert_eq!(machine.register_8(Register::A), 0);
    assert_eq!(machine.register_8(Register::B), 0);
    assert_eq!(machine.state(), MachineState::Running);
}

#[test]
fn labeled_jump_reaches_its_label() {
    let mut machine = load(b"ORG 10H\nMOV A, B\nJMP TEST\nTEST:   MOV B, A\nEND\n");
    machine.run_cycle();
    machine.run_cycle();
    assert_eq!(machine.pc().value(), 0x14);
    assert_eq!(machine.load(), Some(Instruction::Mov(Register::B, Register::A)));
}

#[test]
fn add_immediate_sets_all_flags() {
    let mut machine = Machine::new();
    machine.set_register_8(Register::A, 0xFF);
    assert_eq!(machine.execute(Instruction::Adi(0x01), None), ExecutionResult::Running);
    let flags = *machine.conditions();
    assert_eq!(machine.register_8(Register::A), 0x00);
    assert!(flags.zero);
    assert!(flags.carry);
    assert!(flags.auxiliary_carry);
    assert!(!flags.sign);
    assert!(flags.parity);
}

#[test]
fn stack_round_trip_between_pairs() {
    let mut machine = Machine::new();
    machine.set_register_16(RegisterPair::Sp, Data16::from_value(0x2000));
    machine.set_register_16(RegisterPair::Bc, Data16::from_value(0x1234));
    machine.load_program(0, &[0xC5, 0xD1]).unwrap();
    machine.run_cycle();
    machine.run_cycle();
    assert_eq!(machine.register_16(RegisterPair::De).value(), 0x1234);
    assert_eq!(machine.register_16(RegisterPair::Sp).value(), 0x2000);
    assert_eq!(machine.memory().read_8(0x1FFE), 0x34);
    assert_eq!(machine.memory().read_8(0x1FFF), 0x12);
}

#[test]
fn call_then_return_resumes_after_call() {
    let mut machine = Machine::new();
    machine.load_program(0x20, &[0xC9]).unwrap();
    machine.load_program(0x10, &[0xCD, 0x20, 0x00, 0x00]).unwrap();
    machine.set_register_16(RegisterPair::Sp, Data16::from_value(0x2000));
    machine.run_cycle();
    assert_eq!(machine.pc().value(), 0x20);
    assert_eq!(machine.register_16(RegisterPair::Sp).value(), 0x1FFE);
    machine.run_cycle();
    assert_eq!(machine.pc().value(), 0x13);
    assert_eq!(machine.register_16(RegisterPair::Sp).value(), 0x2000);
    machine.run_cycle();
    assert_eq!(machine.pc().value(), 0x14);
}

#[test]
fn output_port_zero_writes_a_byte() {
    let mut machine = load(b"MVI A, 41H\nOUT 0\nHLT\nEND\n");
    for _ in 0..5 {
        machine.run_cycle();
    }
    assert_eq!(machine.stdout, vec![0x41]);
    assert_eq!(machine.state(), MachineState::Halted(HaltReason::HaltInstruction));
    assert_eq!(machine.pc().value(), 5);
}

#[test]
fn output_ports_one_and_two_write_decimal() {
    let mut machine = load(b"MVI A, 200\nOUT 1\nLXI H, 65535\nOUT 2\nOUT 9\nHLT\nEND\n");
    for _ in 0..6 {
        machine.run_cycle();
    }
    assert_eq!(machine.stdout, b"20065535".to_vec());
}

#[test]
fn input_port_reads_the_host_byte_or_halts() {
    let mut machine = load(b"IN 0\nIN 0\nEND\n");
    assert!(machine.wants_input());
    machine.run_cycle_with_input(Some(7));
    assert_eq!(machine.register_8(Register::A), 7);
    machine.run_cycle_with_input(None);
    assert_eq!(machine.state(), MachineState::Halted(HaltReason::HaltInstruction));
    let mut other = load(b"IN 3\nEND\n");
    assert!(!other.wants_input());
    other.set_register_8(Register::A, 9);
    other.run_cycle();
    assert_eq!(other.register_8(Register::A), 0);
}

#[test]
fn word_store_at_top_of_memory_overflows() {
    let mut machine = load(b"SHLD 0FFFFH\nEND\n");
    machine.run_cycle();
    assert_eq!(machine.state(), MachineState::Halted(HaltReason::MemoryOverflow));
    assert_eq!(machine.pc().value(), 0);
    machine.run_cycle();
    assert_eq!(machine.pc().value(), 0);
}

#[test]
fn stack_faults_halt_the_machine() {
    let mut machine = load(b"PUSH B\nEND\n");
    machine.set_register_16(RegisterPair::Sp, Data16::from_value(1));
    machine.run_cycle();
    assert_eq!(machine.state(), MachineState::Halted(HaltReason::StackOverflow));

    let mut machine = load(b"POP B\nEND\n");
    machine.set_register_16(RegisterPair::Sp, Data16::from_value(0xFFFF));
    machine.run_cycle();
    assert_eq!(machine.state(), MachineState::Halted(HaltReason::StackUnderflow));

    let mut machine = load(b"RET\nEND\n");
    machine.set_register_16(RegisterPair::Sp, Data16::from_value(0xFFFE));
    machine.run_cycle();
    assert_eq!(machine.state(), MachineState::Halted(HaltReason::StackUnderflow));
}

#[test]
fn undecodable_byte_halts_without_moving() {
    let mut machine = Machine::new();
    machine.load_program(0x40, &[0xCB]).unwrap();
    machine.run_cycle();
    assert_eq!(machine.state(), MachineState::Halted(HaltReason::InvalidInstruction));
    assert_eq!(machine.pc().value(), 0x40);
}

#[test]
fn complementary_conditions_split_control() {
    for (c, flag) in [
        (Condition::Zero, ConditionRegister::Zero),
        (Condition::Carry, ConditionRegister::Carry),
        (Condition::ParityEven, ConditionRegister::Parity),
        (Condition::Minus, ConditionRegister::Sign),
    ] {
        for value in [false, true] {
            let mut a = Machine::new();
            a.set_condition(flag, value);
            let mut b = Machine::new();
            b.set_condition(flag, value);
            let ra = a.execute(Instruction::Jcc(c, 0x40), None);
            let rb = b.execute(Instruction::Jcc(c.complement(), 0x40), None);
            assert_ne!(ra == ExecutionResult::ControlTransfer, rb == ExecutionResult::ControlTransfer);
        }
    }
}

#[test]
fn push_pop_status_word_keeps_flags() {
    let mut machine = Machine::new();
    machine.set_register_16(RegisterPair::Sp, Data16::from_value(0x100));
    machine.set_register_8(Register::A, 0x5A);
    machine.set_condition(ConditionRegister::Carry, true);
    machine.set_condition(ConditionRegister::Sign, true);
    let before = *machine.conditions();
    assert_eq!(machine.execute(Instruction::Push(i8080::instruction::RegisterPairOrStatus::StatusWord), None), ExecutionResult::Running);
    assert_eq!(machine.memory().read_8(0xFE), 0b1000_0011);
    machine.set_register_8(Register::A, 0);
    machine.execute(Instruction::Xra(Register::A), None);
    assert_eq!(machine.execute(Instruction::Pop(i8080::instruction::RegisterPairOrStatus::StatusWord), None), ExecutionResult::Running);
    assert_eq!(machine.register_8(Register::A), 0x5A);
    assert_eq!(*machine.conditions(), before);
}

#[test]
fn compare_sets_flags_like_subtract() {
    let mut a = Machine::new();
    a.set_register_8(Register::A, 0x10);
    a.execute(Instruction::Cpi(0x20), None);
    let mut b = Machine::new();
    b.set_register_8(Register::A, 0x10);
    b.execute(Instruction::Sui(0x20), None);
    assert_eq!(a.register_8(Register::A), 0x10);
    assert_eq!(*a.conditions(), *b.conditions());
    assert!(a.conditions().carry);
    assert_eq!(b.register_8(Register::A), 0xF0);
}

#[test]
fn decimal_adjust_after_bcd_addition() {
    let mut machine = Machine::new();
    machine.set_register_8(Register::A, 0x38);
    machine.execute(Instruction::Adi(0x45), None);
    machine.execute(Instruction::Daa, None);
    assert_eq!(machine.register_8(Register::A), 0x83);
    assert!(!machine.conditions().carry);
    machine.set_register_8(Register::A, 0x99);
    machine.execute(Instruction::Adi(0x99), None);
    machine.execute(Instruction::Daa, None);
    assert_eq!(machine.register_8(Register::A), 0x98);
    assert!(machine.conditions().carry);
}

#[test]
fn rotations_move_the_outgoing_bit_into_carry() {
    let mut machine = Machine::new();
    machine.set_register_8(Register::A, 0x81);
    machine.execute(Instruction::Rlc, None);
    assert_eq!(machine.register_8(Register::A), 0x03);
    assert!(machine.conditions().carry);
    machine.execute(Instruction::Rar, None);
    assert_eq!(machine.register_8(Register::A), 0x81);
    assert!(machine.conditions().carry);
    machine.set_condition(ConditionRegister::Carry, false);
    machine.execute(Instruction::Ral, None);
    assert_eq!(machine.register_8(Register::A), 0x02);
    assert!(machine.conditions().carry);
}

#[test]
fn mov_through_memory_uses_hl() {
    let mut machine = Machine::new();
    machine.set_register_16(RegisterPair::Hl, Data16::from_value(0x3000));
    machine.set_register_8(Register::C, 0x77);
    machine.execute(Instruction::Mov(Register::M, Register::C), None);
    assert_eq!(machine.memory().read_8(0x3000), 0x77);
    machine.execute(Instruction::Mov(Register::E, Register::M), None);
    assert_eq!(machine.register_8(Register::E), 0x77);
}

#[test]
fn host_writes_memory_in_place() {
    let mut machine = Machine::new();
    machine.memory_mut().write_8(0x1234, 0xAB);
    assert_eq!(machine.memory().read_8(0x1234), 0xAB);
    assert_eq!(machine.memory_mut().write_16(0xFFFF, Data16::new(1, 2)), None);
    assert_eq!(machine.memory().read_8(0xFFFF), 0);
    assert_eq!(machine.memory().read_16(0x1233), Some(Data16::new(0x00, 0xAB)));
    assert_eq!(machine.memory().as_raw().len(), 65536);
    assert_eq!(machine.load_program(0xFFFF, &[1, 2]), None);
}

#[test]
fn explicit_stack_operations() {
    let mut machine = Machine::new();
    machine.set_register_16(RegisterPair::Sp, Data16::from_value(0x0010));
    assert_eq!(machine.stack_push(Data16::from_value(0xBEEF)), Some(()));
    assert_eq!(machine.register_16(RegisterPair::Sp).value(), 0x000E);
    assert_eq!(machine.stack_pop(), Some(Data16::from_value(0xBEEF)));
    assert_eq!(machine.register_16(RegisterPair::Sp).value(), 0x0010);
    machine.set_register_16(RegisterPair::Sp, Data16::from_value(1));
    assert_eq!(machine.stack_push(Data16::from_value(1)), None);
    machine.set_register_16(RegisterPair::Sp, Data16::from_value(0xFFFE));
    assert_eq!(machine.stack_pop(), None);
}
