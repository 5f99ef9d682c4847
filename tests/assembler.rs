use i8080::assembler::labels::LabelLookup;
use i8080::assembler::number::parse_number;
use i8080::assembler::{parse_assembly, AssemblyError};
use i8080::instruction::{Condition, Data16, Instruction, InstructionOrData, Register, RegisterPair};

#[test]
fn parse_1() {
    let source = b"
                            ; This is a comment
                ORG 10H     ; This is a comment

                
                
                MOV A, B
                JMP TEST    ; Jump to subroutine
        
        TEST:   MOV B, A    ; Moves A into B`
        
                            ; This is an error; `END` is missing
                END
        ";

    let (instructions, start) = parse_assembly(source).expect("Failed to parse program");
    assert_eq!(instructions, vec![
        InstructionOrData::Instruction(Instruction::Mov(Register::A, Register::B)),
        InstructionOrData::Instruction(Instruction::Jmp(20)),
        InstructionOrData::Instruction(Instruction::Mov(Register::B, Register::A)),
    ]);
    assert_eq!(start, 16);
}

#[test]
fn numbers_in_each_base() {
    assert_eq!(parse_number(b"10H"), Some(16));
    assert_eq!(parse_number(b"10Q"), Some(8));
    assert_eq!(parse_number(b"10"), Some(10));
    assert_eq!(parse_number(b"FFFFH"), Some(65535));
    assert_eq!(parse_number(b"10000H"), None);
    assert_eq!(parse_number(b"8Q"), None);
    assert_eq!(parse_number(b"1F"), None);
    assert_eq!(parse_number(b""), None);
    assert_eq!(parse_number(b"65536"), None);
    assert_eq!(parse_number(b"65535"), Some(65535));
}

#[test]
fn long_labels_collide_on_five_characters() {
    let mut labels = LabelLookup::new();
    assert_eq!(labels.insert(b"LONGLABEL", 0x10), Ok(()));
    assert_eq!(labels.insert(b"LONGLE", 0x20), Err(()));
    assert_eq!(labels.get(b"LONGL"), Some(0x10));
    assert_eq!(labels.get(b"LONGLXYZ"), Some(0x10));
    assert_eq!(labels.get(b"LONG"), None);
}

#[test]
fn duplicate_label_is_reported_with_its_offset() {
    let source = b"LONGLABEL: NOP\nLONGLE: NOP\nEND\n";
    assert_eq!(parse_assembly(source), Err(AssemblyError::DuplicateLabel(15)));
}

#[test]
fn minimal_move_scenario() {
    let (items, origin) = parse_assembly(b"ORG 10H\nMOV A, B\nEND\n").unwrap();
    assert_eq!(items, vec![InstructionOrData::Instruction(Instruction::Mov(Register::A, Register::B))]);
    assert_eq!(origin, 0x10);
}

#[test]
fn labeled_jump_scenario() {
    let source = b"ORG 10H\nMOV A, B\nJMP TEST\nTEST:   MOV B, A\nEND\n";
    let (items, origin) = parse_assembly(source).unwrap();
    assert_eq!(origin, 0x10);
    assert_eq!(items[1], InstructionOrData::Instruction(Instruction::Jmp(0x14)));
}

#[test]
fn origin_defaults_to_zero() {
    let (items, origin) = parse_assembly(b"START: JMP START\nEND").unwrap();
    assert_eq!(origin, 0);
    assert_eq!(items, vec![InstructionOrData::Instruction(Instruction::Jmp(0))]);
}

#[test]
fn operands_of_every_shape() {
    let source = b"ORG 100H
LOOP: LXI H, DATA
      LXI SP, 2000H
      MVI M, 0FFH
      PUSH PSW
      POP B
      STAX D
      RST 7
      CNZ LOOP
      RPE
      OUT 1
DATA: END
";
    let (items, origin) = parse_assembly(source).unwrap();
    assert_eq!(origin, 0x100);
    let expected = vec![
        Instruction::Lxi(RegisterPair::Hl, Data16::new(0x12, 0x01)),
        Instruction::Lxi(RegisterPair::Sp, Data16::new(0x00, 0x20)),
        Instruction::Mvi(Register::M, 0xFF),
        Instruction::Push(i8080::instruction::RegisterPairOrStatus::StatusWord),
        Instruction::Pop(i8080::instruction::RegisterPairOrStatus::Bc),
        Instruction::Stax(i8080::instruction::RegisterPairIndirect::De),
        Instruction::Rst(i8080::instruction::RestartNumber::R7),
        Instruction::Ccc(Condition::NoZero, 0x100),
        Instruction::Rcc(Condition::ParityEven),
        Instruction::Out(1),
    ];
    let expected: Vec<InstructionOrData> = expected.into_iter().map(InstructionOrData::Instruction).collect();
    assert_eq!(items, expected);
}

#[test]
fn unknown_label_is_an_error() {
    assert_eq!(parse_assembly(b"JMP NOWHERE\nEND\n"), Err(AssemblyError::UnknownLabel(0)));
}

#[test]
fn number_out_of_range_is_an_error() {
    assert_eq!(parse_assembly(b"MVI A, 100H\nEND\n"), Err(AssemblyError::NumberOutOfRange(7)));
    assert_eq!(parse_assembly(b"RST 8\nEND\n"), Err(AssemblyError::NumberOutOfRange(4)));
    assert_eq!(parse_assembly(b"ORG 10000H\nEND\n"), Err(AssemblyError::NumberOutOfRange(4)));
}

#[test]
fn address_overflow_is_an_error() {
    assert_eq!(parse_assembly(b"ORG 0FFFEH\nNOP\nJMP 0\nEND\n"), Err(AssemblyError::AddressOverflow(15)));
}

#[test]
fn syntax_errors_are_reported() {
    assert_eq!(parse_assembly(b"MOV A\nEND\n"), Err(AssemblyError::Parse(5)));
    assert_eq!(parse_assembly(b"FOO\nEND\n"), Err(AssemblyError::Parse(0)));
    assert_eq!(parse_assembly(b"NOP\n"), Err(AssemblyError::Parse(4)));
    assert_eq!(parse_assembly(b"END\nNOP\n"), Err(AssemblyError::Parse(4)));
}

#[test]
fn crlf_and_cr_end_lines() {
    let (items, _) = parse_assembly(b"NOP\r\nHLT\rEND").unwrap();
    assert_eq!(items, vec![
        InstructionOrData::Instruction(Instruction::Nop),
        InstructionOrData::Instruction(Instruction::Hlt),
    ]);
}
