//! Properties of the machine semantics, proved from its definitions.
use vstd::prelude::*;

use crate::assembler::labels::canonical;
use crate::assembler::parse::{resolve, SourceFile};
use crate::assembler::{assemble_spec, label_table, lemma_label_starts_instruction, origin_of};
use crate::coding::{decode_spec, encoding, lemma_decode_encode, program_bytes, well_formed};
use crate::instruction::{Condition, Instruction, Register, RegisterPair, RegisterPairOrStatus};
use crate::machine::semantics::{
    code_at, condition_holds, cycle_spec, execute_spec, flags_of_status, pair16, parity_even,
    reg8, status_byte, MachineView, MEMORY_SIZE,
};
use crate::machine::{ExecutionResult, HaltReason, MachineState};

verus! {

/// A halted machine is never changed by a cycle.
pub proof fn lemma_halted_is_final(v: MachineView, input: Option<u8>)
    requires
        v.state is Halted,
    ensures
        cycle_spec(v, input) == v,
{
}

/// After `MOV d,s` register `d` holds what `s` held; with `d == s` nothing
/// changes at all.
pub proof fn lemma_mov(v: MachineView, d: Register, s: Register, input: Option<u8>)
    requires
        v.wf(),
    ensures
        reg8(execute_spec(v, Instruction::Mov(d, s), input).0, d) == reg8(v, s),
        execute_spec(v, Instruction::Mov(d, s), input).1 == ExecutionResult::Running,
        d == s ==> execute_spec(v, Instruction::Mov(d, s), input).0 == v,
{
    if d == s && d == Register::M {
        let w = execute_spec(v, Instruction::Mov(d, s), input).0;
        assert(w.memory =~= v.memory);
    }
}

/// Whether an instruction leaves an arithmetic or logical result in `A`.
pub open spec fn writes_accumulator(i: Instruction) -> bool {
    i is Add || i is Adi || i is Adc || i is Aci || i is Sub || i is Sui || i is Sbb || i is Sbi
        || i is Ana || i is Ani || i is Xra || i is Xri || i is Ora || i is Ori || i is Daa
}

/// After any instruction that leaves an arithmetic or logical result in
/// `A`: zero is set exactly when `A` is zero, sign exactly when bit 7 of
/// `A` is set, parity exactly when `A` has an even number of set bits.
pub proof fn lemma_result_flags(v: MachineView, i: Instruction, input: Option<u8>)
    requires
        v.wf(),
        writes_accumulator(i),
    ensures
        ({
            let w = execute_spec(v, i, input).0;
            &&& w.conditions.zero == (w.registers.a == 0)
            &&& w.conditions.sign == (w.registers.a & 0x80 != 0)
            &&& w.conditions.parity == parity_even(w.registers.a)
        }),
{
    let a = execute_spec(v, i, input).0.registers.a;
    assert((a >= 128) == (a & 0x80 != 0)) by (bit_vector);
}

/// `CMP` and `CPI` leave `A` as it was and set the flags exactly as `SUB`
/// and `SUI` on the same operands.
pub proof fn lemma_compare_is_subtract(v: MachineView, r: Register, x: u8, input: Option<u8>)
    requires
        v.wf(),
    ensures
        execute_spec(v, Instruction::Cmp(r), input).0.registers.a == v.registers.a,
        execute_spec(v, Instruction::Cmp(r), input).0.conditions == execute_spec(
            v,
            Instruction::Sub(r),
            input,
        ).0.conditions,
        execute_spec(v, Instruction::Cpi(x), input).0.registers.a == v.registers.a,
        execute_spec(v, Instruction::Cpi(x), input).0.conditions == execute_spec(
            v,
            Instruction::Sui(x),
            input,
        ).0.conditions,
{
}

proof fn lemma_status_round_trip(v: MachineView)
    ensures
        flags_of_status(status_byte(v.conditions)) == v.conditions,
{
}

/// `PUSH rp` then `POP rp` gives `rp` back, and `SP` with it; for the
/// status word, `A` and the five flags come back. Neither step faults
/// where `SP` is at least 2.
pub proof fn lemma_push_pop(v: MachineView, rp: RegisterPairOrStatus, input: Option<u8>)
    requires
        v.wf(),
        v.registers.sp.spec_value() >= 2,
    ensures
        ({
            let (w1, r1) = execute_spec(v, Instruction::Push(rp), input);
            let (w2, r2) = execute_spec(w1, Instruction::Pop(rp), input);
            &&& r1 == ExecutionResult::Running
            &&& r2 == ExecutionResult::Running
            &&& pair16(w2, RegisterPair::Sp) == pair16(v, RegisterPair::Sp)
            &&& match rp.pair() {
                Some(p) => pair16(w2, p) == pair16(v, p),
                None => w2.registers.a == v.registers.a && w2.conditions == v.conditions,
            }
        }),
{
    lemma_status_round_trip(v);
}

/// `CALL a` followed by `RET` at `a` brings the program counter to the
/// instruction after the `CALL`, and `SP` back to where it was. The `CALL`
/// must lie below the top of memory, `SP` must be at least 2, and the
/// return address pushed must not overwrite the `RET`.
#[verifier::rlimit(60)]
pub proof fn lemma_call_return(v: MachineView, a: u16, input: Option<u8>)
    requires
        v.wf(),
        v.state == MachineState::Running,
        v.pc < 0xFFFD,
        code_at(v).subrange(0, 3) == encoding(Instruction::Call(a)),
        v.memory[a as int] == 0xC9,
        v.registers.sp.spec_value() >= 2,
        a != v.registers.sp.spec_value() - 2,
        a != v.registers.sp.spec_value() - 1,
    ensures
        ({
            let w = cycle_spec(cycle_spec(v, input), input);
            &&& w.state == MachineState::Running
            &&& w.pc == v.pc + 3
            &&& w.registers.sp == v.registers.sp
        }),
{
    let code = code_at(v);
    lemma_decode_encode(Instruction::Call(a), code.subrange(3, code.len() as int));
    assert(encoding(Instruction::Call(a)) + code.subrange(3, code.len() as int) =~= code);
    let w1 = cycle_spec(v, input);
    assert(w1.pc == a);
    let code1 = code_at(w1);
    lemma_decode_encode(Instruction::Ret, code1.subrange(1, code1.len() as int));
    assert(encoding(Instruction::Ret) + code1.subrange(1, code1.len() as int) =~= code1);
}

/// For every conditional family, a condition and its complement disagree
/// on every flag state, so exactly one of the two transfers control.
pub proof fn lemma_complement_conditions(
    v: MachineView,
    c: Condition,
    a: u16,
    input: Option<u8>,
)
    requires
        v.wf(),
    ensures
        condition_holds(c, v.conditions) != condition_holds(c.spec_complement(), v.conditions),
        (execute_spec(v, Instruction::Jcc(c, a), input).1 == ExecutionResult::ControlTransfer) != (
        execute_spec(v, Instruction::Jcc(c.spec_complement(), a), input).1
            == ExecutionResult::ControlTransfer),
        v.registers.sp.spec_value() >= 2 ==> ((execute_spec(v, Instruction::Ccc(c, a), input).1
            == ExecutionResult::ControlTransfer) != (execute_spec(
            v,
            Instruction::Ccc(c.spec_complement(), a),
            input,
        ).1 == ExecutionResult::ControlTransfer)),
        v.registers.sp.spec_value() <= 0xFFFD ==> ((execute_spec(v, Instruction::Rcc(c), input).1
            == ExecutionResult::ControlTransfer) != (execute_spec(
            v,
            Instruction::Rcc(c.spec_complement()),
            input,
        ).1 == ExecutionResult::ControlTransfer)),
{
}

/// A 16-bit store at the last address would straddle the top of memory:
/// the machine halts with a memory overflow and nothing else changes.
pub proof fn lemma_word_store_at_top(v: MachineView, input: Option<u8>)
    requires
        v.wf(),
        v.state == MachineState::Running,
        v.pc <= 0xFFFD,
        code_at(v).subrange(0, 3) == encoding(Instruction::Shld(0xFFFF)),
    ensures
        execute_spec(v, Instruction::Shld(0xFFFF), input) == (v, ExecutionResult::MemoryOverflow),
        cycle_spec(v, input) == (MachineView {
            state: MachineState::Halted(HaltReason::MemoryOverflow),
            ..v
        }),
{
    let code = code_at(v);
    lemma_decode_encode(Instruction::Shld(0xFFFF), code.subrange(3, code.len() as int));
    assert(encoding(Instruction::Shld(0xFFFF)) + code.subrange(3, code.len() as int) =~= code);
}

/// `PUSH` with `SP` at most 1 is a stack overflow; `POP` and `RET` with
/// `SP` at `0xFFFE` or above are a stack underflow. None of them changes
/// the state.
pub proof fn lemma_stack_faults(v: MachineView, rp: RegisterPairOrStatus, input: Option<u8>)
    requires
        v.wf(),
    ensures
        v.registers.sp.spec_value() <= 1 ==> execute_spec(v, Instruction::Push(rp), input) == (
        v,
        ExecutionResult::StackOverflow,
        ),
        v.registers.sp.spec_value() >= 0xFFFE ==> execute_spec(v, Instruction::Pop(rp), input) == (
        v,
        ExecutionResult::StackUnderflow,
        ),
        v.registers.sp.spec_value() >= 0xFFFE ==> execute_spec(v, Instruction::Ret, input) == (
        v,
        ExecutionResult::StackUnderflow,
        ),
{
}

/// An assembled program, loaded at its origin, runs its lines where their
/// labels say: with the program counter at a line's label, the machine
/// decodes exactly that line's instruction.
pub proof fn lemma_label_runs_its_line(v: MachineView, file: SourceFile, k: int)
    requires
        v.wf(),
        assemble_spec(file) is Ok,
        0 <= k < file.lines@.len(),
        file.lines@[k].label is Some,
        file.lines@[k].code is Some,
        well_formed(
            resolve(file.lines@[k].code.unwrap().instruction, label_table(file).unwrap().0).unwrap(),
        ),
        origin_of(file) + program_bytes(assemble_spec(file).unwrap().0).len() <= MEMORY_SIZE,
        v.memory.subrange(
            origin_of(file) as int,
            origin_of(file) + program_bytes(assemble_spec(file).unwrap().0).len(),
        ) == program_bytes(assemble_spec(file).unwrap().0),
        v.pc == label_table(file).unwrap().0[canonical(file.lines@[k].label.unwrap().name@)],
    ensures
        ({
            let i = resolve(
                file.lines@[k].code.unwrap().instruction,
                label_table(file).unwrap().0,
            ).unwrap();
            decode_spec(code_at(v)) == Some((i, encoding(i).len()))
        }),
{
    let table = label_table(file).unwrap().0;
    let i = resolve(file.lines@[k].code.unwrap().instruction, table).unwrap();
    let image = program_bytes(assemble_spec(file).unwrap().0);
    let origin = origin_of(file) as int;
    let enc = encoding(i);
    lemma_label_starts_instruction(file, k);
    let offset = v.pc - origin;
    let code = code_at(v);
    assert(code.subrange(0, enc.len() as int) =~= enc) by {
        assert forall|t: int| 0 <= t < enc.len() implies code[t] == enc[t] by {
            assert(v.memory.subrange(origin, origin + image.len())[offset + t] == image[offset + t]);
            assert(image.subrange(offset, offset + enc.len())[t] == enc[t]);
        }
    }
    assert(enc + code.subrange(enc.len() as int, code.len() as int) =~= code);
    lemma_decode_encode(i, code.subrange(enc.len() as int, code.len() as int));
}

} // verus!
