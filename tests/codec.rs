use i8080::coding::decode::extract_bits;
use i8080::coding::reader::Reader;
use i8080::coding::{decode, encode, encode_program, instruction_length};
use i8080::instruction::{
    Condition, Data16, Instruction, InstructionOrData, Register, RegisterPair,
    RegisterPairIndirect, RegisterPairOrStatus, RestartNumber,
};

fn encoded(i: Instruction) -> Vec<u8> {
    let mut buffer = Vec::new();
    encode(&mut buffer, i);
    buffer
}

fn decoded(bytes: &[u8]) -> Option<(Instruction, usize)> {
    let mut reader = Reader::new(bytes);
    decode(&mut reader).map(|i| (i, reader.read_amount_bytes()))
}

#[test]
fn test_extract_bits() {
    assert_eq!(extract_bits(0b1101_0011, 2..6), 0b0100)
}

#[test]
fn mov_a_b_encodes_to_0x78() {
    assert_eq!(encoded(Instruction::Mov(Register::A, Register::B)), vec![0x78]);
}

#[test]
fn documented_opcodes_encode_as_tabulated() {
    assert_eq!(encoded(Instruction::Nop), vec![0x00]);
    assert_eq!(encoded(Instruction::Hlt), vec![0x76]);
    assert_eq!(encoded(Instruction::Ret), vec![0xC9]);
    assert_eq!(encoded(Instruction::Daa), vec![0x27]);
    assert_eq!(encoded(Instruction::Cma), vec![0x2F]);
    assert_eq!(encoded(Instruction::Xchg), vec![0xEB]);
    assert_eq!(encoded(Instruction::Adc(Register::B)), vec![0x88]);
    assert_eq!(encoded(Instruction::Sub(Register::C)), vec![0x91]);
    assert_eq!(encoded(Instruction::Cmp(Register::M)), vec![0xBE]);
    assert_eq!(encoded(Instruction::Mvi(Register::A, 0x41)), vec![0x3E, 0x41]);
    assert_eq!(encoded(Instruction::Lxi(RegisterPair::Sp, Data16::new(0x34, 0x12))), vec![0x31, 0x34, 0x12]);
    assert_eq!(encoded(Instruction::Stax(RegisterPairIndirect::De)), vec![0x12]);
    assert_eq!(encoded(Instruction::Ldax(RegisterPairIndirect::Bc)), vec![0x0A]);
    assert_eq!(encoded(Instruction::Push(RegisterPairOrStatus::StatusWord)), vec![0xF5]);
    assert_eq!(encoded(Instruction::Pop(RegisterPairOrStatus::De)), vec![0xD1]);
    assert_eq!(encoded(Instruction::Jcc(Condition::NoCarry, 0x1234)), vec![0xD2, 0x34, 0x12]);
    assert_eq!(encoded(Instruction::Ccc(Condition::Minus, 0x0020)), vec![0xFC, 0x20, 0x00]);
    assert_eq!(encoded(Instruction::Rcc(Condition::Zero)), vec![0xC8]);
    assert_eq!(encoded(Instruction::Rst(RestartNumber::R7)), vec![0xFF]);
    assert_eq!(encoded(Instruction::Cpi(0x10)), vec![0xFE, 0x10]);
    assert_eq!(encoded(Instruction::Out(2)), vec![0xD3, 0x02]);
    assert_eq!(encoded(Instruction::Call(0x0020)), vec![0xCD, 0x20, 0x00]);
}

#[test]
fn decode_inverts_encode() {
    let samples = vec![
        Instruction::Mov(Register::B, Register::M),
        Instruction::Mvi(Register::M, 7),
        Instruction::Lxi(RegisterPair::Hl, Data16::new(1, 2)),
        Instruction::Lda(0xBEEF),
        Instruction::Sta(0x0001),
        Instruction::Lhld(0x4000),
        Instruction::Shld(0xFFFF),
        Instruction::Ldax(RegisterPairIndirect::De),
        Instruction::Add(Register::A),
        Instruction::Sbi(0xFF),
        Instruction::Inr(Register::L),
        Instruction::Dcx(RegisterPair::Sp),
        Instruction::Dad(RegisterPair::Bc),
        Instruction::Ora(Register::H),
        Instruction::Rar,
        Instruction::Stc,
        Instruction::Jmp(0x0102),
        Instruction::Jcc(Condition::ParityOdd, 3),
        Instruction::Ccc(Condition::Carry, 4),
        Instruction::Rcc(Condition::Positive),
        Instruction::Rst(RestartNumber::R3),
        Instruction::Pchl,
        Instruction::Xthl,
        Instruction::Sphl,
        Instruction::In(0),
        Instruction::Ei,
        Instruction::Di,
        Instruction::Hlt,
    ];
    for i in samples {
        let bytes = encoded(i);
        assert_eq!(bytes.len(), instruction_length(&i) as usize);
        assert_eq!(decoded(&bytes), Some((i, bytes.len())));
    }
}

#[test]
fn halt_byte_decodes_as_hlt_not_mov() {
    assert_eq!(decoded(&[0x76]), Some((Instruction::Hlt, 1)));
    assert_eq!(encoded(Instruction::Mov(Register::M, Register::M)), vec![0x76]);
}

#[test]
fn undocumented_opcodes_do_not_decode() {
    for op in [0x08u8, 0x10, 0x18, 0x20, 0x28, 0x30, 0x38, 0xCB, 0xD9, 0xDD, 0xED, 0xFD] {
        assert_eq!(decoded(&[op, 0, 0]), None);
    }
}

#[test]
fn cut_off_operands_do_not_decode() {
    assert_eq!(decoded(&[0xC3, 0x10]), None);
    assert_eq!(decoded(&[0x3E]), None);
    assert_eq!(decoded(&[]), None);
    let mut reader = Reader::new(&[0xCD, 0x01]);
    assert_eq!(decode(&mut reader), None);
    assert_eq!(reader.read_amount_bytes(), 0);
}

#[test]
fn decode_consumes_only_one_instruction() {
    assert_eq!(decoded(&[0x3E, 0x41, 0xD3, 0x00]), Some((Instruction::Mvi(Register::A, 0x41), 2)));
}

#[test]
fn program_encoding_concatenates_items() {
    let items = vec![
        InstructionOrData::Instruction(Instruction::Mvi(Register::A, 0x41)),
        InstructionOrData::Data(0x99),
        InstructionOrData::Instruction(Instruction::Out(0)),
    ];
    let mut buffer = vec![0xAA];
    encode_program(&mut buffer, &items);
    assert_eq!(buffer, vec![0xAA, 0x3E, 0x41, 0x99, 0xD3, 0x00]);
}

#[test]
fn reader_steps_over_whitespace_and_comments() {
    let mut reader = Reader::new(b"  ; note\r\n\t MOV");
    reader.skip_ws_nl_comments();
    assert_eq!(reader.read_amount_bytes(), 12);
    assert_eq!(reader.expect_register(), Ok(Register::M));
    let mut reader = Reader::new(b"x\r\ny");
    reader.skip();
    assert_eq!(reader.expect_nl(), Ok(()));
    assert_eq!(reader.peek(), Some(b'y'));
    let mut reader = Reader::new(b"ab,cd");
    assert_eq!(reader.read_until(b','), Some(&b"ab"[..]));
    assert_eq!(reader.read_until_or_end(b','), &b"cd"[..]);
    assert!(reader.at_end());
    let mut reader = Reader::new(b"3f");
    assert_eq!(reader.expect_hex_8(), Ok(0x3F));
    let mut reader = Reader::new(b"LOOP1: NOP");
    assert_eq!(reader.expect_label_name(), Ok(&b"LOOP1"[..]));
}

#[test]
fn data16_arithmetic_is_checked() {
    let d = Data16::new(0xFE, 0xFF);
    assert_eq!(d.value(), 0xFFFE);
    assert_eq!(d.checked_add(1), Some(Data16::new(0xFF, 0xFF)));
    assert_eq!(d.checked_add(2), None);
    assert_eq!(Data16::new(1, 0).checked_sub(1), Some(Data16::new(0, 0)));
    assert_eq!(Data16::new(1, 0).checked_sub(2), None);
    assert_eq!(Data16::from_value(0x1234), Data16::new(0x34, 0x12));
}

#[test]
fn operand_codes_round_trip() {
    for c in 0u8..8 {
        assert_eq!(Register::decode_code(c).repr(), c);
        assert_eq!(Condition::decode_code(c).repr(), c);
        assert_eq!(RestartNumber::decode_code(c).repr(), c);
        assert_eq!(Condition::decode_code(c).complement().complement(), Condition::decode_code(c));
    }
    for c in 0u8..4 {
        assert_eq!(RegisterPair::decode_code(c).repr(), c);
        assert_eq!(RegisterPairOrStatus::decode_code(c).repr(), c);
    }
    assert_eq!(RestartNumber::from_number(5), Some(RestartNumber::R5));
    assert_eq!(RestartNumber::from_number(8), None);
    assert_eq!(RegisterPairOrStatus::StatusWord.to_register_pair(), None);
    assert_eq!(RegisterPairIndirect::De.to_register_pair(), RegisterPair::De);
}
