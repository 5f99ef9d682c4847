//! The assembler: source text to an ordered list of instructions and an
//! origin address, in two passes over the lines.
use vstd::prelude::*;

use crate::assembler::labels::{canonical, LabelLookup};
use crate::assembler::parse::{
    code_in_source, file_written, label_in_source, lemma_written_unique, parse_source, resolve,
    same_code, same_file, taken_from, with_address, CodeSegment, LabelSegment, SourceFile,
};
use crate::coding::{encoding, instruction_size, lemma_encoding_length, program_bytes};
use crate::instruction::{Address, Instruction, InstructionOrData};

pub mod labels;
pub mod number;
pub mod parse;

verus! {

/// Why a source does not assemble; each carries the byte offset where the
/// fault was found.
#[derive(Copy, Clone, Debug, Hash, PartialEq, Eq, Structural)]
pub enum AssemblyError {
    Parse(usize),
    DuplicateLabel(usize),
    UnknownLabel(usize),
    NumberOutOfRange(usize),
    AddressOverflow(usize),
}

/// The byte offset an error carries.
pub open spec fn offset_of(e: AssemblyError) -> usize {
    match e {
        AssemblyError::Parse(at) => at,
        AssemblyError::DuplicateLabel(at) => at,
        AssemblyError::UnknownLabel(at) => at,
        AssemblyError::NumberOutOfRange(at) => at,
        AssemblyError::AddressOverflow(at) => at,
    }
}

/// A failure, if any, points at most `n` bytes in.
pub open spec fn fails_within<T>(r: Result<T, AssemblyError>, n: int) -> bool {
    match r {
        Err(e) => offset_of(e) <= n,
        Ok(_) => true,
    }
}

/// A failure, if any, is one of syntax: text that does not parse, or a
/// number out of range.
pub open spec fn fails_in_syntax<T>(r: Result<T, AssemblyError>) -> bool {
    match r {
        Err(e) => e is Parse || e is NumberOutOfRange,
        Ok(_) => true,
    }
}

/// The label table and current address part-way through the first pass.
pub type PassOne = Result<(Map<Seq<u8>, u16>, int), AssemblyError>;

/// The origin address: that of the `ORG` line, else zero.
pub open spec fn origin_of(file: SourceFile) -> u16 {
    match file.origin_line {
        Some(o) => o.address,
        None => 0,
    }
}

/// Files a label at the current address; a label whose identifier is
/// already filed is a duplicate.
pub open spec fn bind_label(t: PassOne, label: Option<LabelSegment>) -> PassOne {
    match t {
        Err(e) => Err(e),
        Ok((table, address)) => match label {
            None => Ok((table, address)),
            Some(l) => if table.contains_key(canonical(l.name@)) {
                Err(AssemblyError::DuplicateLabel(l.index))
            } else {
                Ok((table.insert(canonical(l.name@), address as u16), address))
            },
        },
    }
}

/// Moves the current address past an instruction; past `0xFFFF` is an
/// address overflow.
pub open spec fn advance(t: PassOne, code: Option<CodeSegment>) -> PassOne {
    match t {
        Err(e) => Err(e),
        Ok((table, address)) => match code {
            None => Ok((table, address)),
            Some(c) => {
                let next = address + instruction_size(c.instruction.instruction);
                if next > 0xFFFF {
                    Err(AssemblyError::AddressOverflow(c.index))
                } else {
                    Ok((table, next))
                }
            },
        },
    }
}

/// The first pass over the first `n` code lines.
pub open spec fn pass_one(file: SourceFile, n: int) -> PassOne
    decreases n,
{
    if n <= 0 {
        bind_label(
            Ok((Map::empty(), origin_of(file) as int)),
            match file.origin_line {
                Some(o) => o.label,
                None => None,
            },
        )
    } else {
        let line = file.lines@[n - 1];
        advance(bind_label(pass_one(file, n - 1), line.label), line.code)
    }
}

/// The complete label table, the `END` line's label included.
pub open spec fn label_table(file: SourceFile) -> PassOne {
    bind_label(pass_one(file, file.lines@.len() as int), file.end_label)
}

/// The second pass over the first `n` code lines: each instruction with
/// its label resolved, in line order.
pub open spec fn pass_two(file: SourceFile, table: Map<Seq<u8>, u16>, n: int) -> Result<
    Seq<InstructionOrData>,
    AssemblyError,
>
    decreases n,
{
    if n <= 0 {
        Ok(Seq::empty())
    } else {
        match pass_two(file, table, n - 1) {
            Err(e) => Err(e),
            Ok(items) => match file.lines@[n - 1].code {
                None => Ok(items),
                Some(c) => match resolve(c.instruction, table) {
                    Some(i) => Ok(items.push(InstructionOrData::Instruction(i))),
                    None => Err(AssemblyError::UnknownLabel(c.index)),
                },
            },
        }
    }
}

/// What a parsed file assembles to: its items and its origin.
pub open spec fn assemble_spec(file: SourceFile) -> Result<(Seq<InstructionOrData>, u16), AssemblyError> {
    match label_table(file) {
        Err(e) => Err(e),
        Ok((table, _)) => match pass_two(file, table, file.lines@.len() as int) {
            Err(e) => Err(e),
            Ok(items) => Ok((items, origin_of(file))),
        },
    }
}

proof fn lemma_pass_one_error(file: SourceFile, k: int, n: int)
    requires
        0 <= k <= n,
        pass_one(file, k) is Err,
    ensures
        pass_one(file, n) == pass_one(file, k),
    decreases n - k,
{
    if n > k {
        lemma_pass_one_error(file, k, n - 1);
    }
}

proof fn lemma_pass_two_error(file: SourceFile, table: Map<Seq<u8>, u16>, k: int, n: int)
    requires
        0 <= k <= n,
        pass_two(file, table, k) is Err,
    ensures
        pass_two(file, table, n) == pass_two(file, table, k),
    decreases n - k,
{
    if n > k {
        lemma_pass_two_error(file, table, k, n - 1);
    }
}

proof fn lemma_pass_one_ok(file: SourceFile, j: int, n: int)
    requires
        0 <= j <= n,
        pass_one(file, n) is Ok,
    ensures
        pass_one(file, j) is Ok,
{
    if pass_one(file, j) is Err {
        lemma_pass_one_error(file, j, n);
    }
}

proof fn lemma_pass_two_ok(file: SourceFile, table: Map<Seq<u8>, u16>, j: int, n: int)
    requires
        0 <= j <= n,
        pass_two(file, table, n) is Ok,
    ensures
        pass_two(file, table, j) is Ok,
{
    if pass_two(file, table, j) is Err {
        lemma_pass_two_error(file, table, j, n);
    }
}

/// Labels filed early in the first pass stay filed, at the same address.
proof fn lemma_table_grows(file: SourceFile, j: int, n: int, key: Seq<u8>)
    requires
        0 <= j <= n,
        pass_one(file, n) is Ok,
        pass_one(file, j).unwrap().0.contains_key(key),
    ensures
        pass_one(file, n).unwrap().0.contains_key(key),
        pass_one(file, n).unwrap().0[key] == pass_one(file, j).unwrap().0[key],
    decreases n - j,
{
    if n > j {
        lemma_pass_one_ok(file, n - 1, n);
        lemma_table_grows(file, j, n - 1, key);
    }
}

proof fn lemma_address_fits(file: SourceFile, j: int)
    requires
        0 <= j <= file.lines@.len(),
        pass_one(file, j) is Ok,
    ensures
        0 <= pass_one(file, j).unwrap().1 <= 0xFFFF,
    decreases j,
{
    if j > 0 {
        lemma_pass_one_ok(file, j - 1, j);
        lemma_address_fits(file, j - 1);
    }
}

proof fn lemma_resolved_size(i: Instruction, a: u16)
    ensures
        instruction_size(with_address(i, a)) == instruction_size(i),
{
}

/// Part-way through both passes, the current address is the origin plus
/// the length of the bytes emitted so far.
proof fn lemma_current_address(file: SourceFile, table: Map<Seq<u8>, u16>, j: int)
    requires
        0 <= j <= file.lines@.len(),
        pass_one(file, j) is Ok,
        pass_two(file, table, j) is Ok,
    ensures
        pass_one(file, j).unwrap().1 == origin_of(file) + program_bytes(
            pass_two(file, table, j).unwrap(),
        ).len(),
    decreases j,
{
    if j > 0 {
        lemma_pass_one_ok(file, j - 1, j);
        lemma_current_address(file, table, j - 1);
        let items = pass_two(file, table, j - 1).unwrap();
        match file.lines@[j - 1].code {
            Some(c) => {
                let i = resolve(c.instruction, table).unwrap();
                let x = InstructionOrData::Instruction(i);
                assert(items.push(x).drop_last() =~= items);
                lemma_encoding_length(i);
                match c.instruction.target {
                    Some(name) => lemma_resolved_size(
                        c.instruction.instruction,
                        table[canonical(name@)],
                    ),
                    None => {},
                }
            },
            None => {},
        }
    }
}

/// A label on a code line is filed at the address where the line's
/// instruction begins once the program is encoded at its origin: the
/// origin plus the length of the bytes of every instruction before it.
pub proof fn lemma_label_address(file: SourceFile, k: int)
    requires
        0 <= k < file.lines@.len(),
        assemble_spec(file) is Ok,
        file.lines@[k].label is Some,
    ensures
        ({
            let table = label_table(file).unwrap().0;
            let name = file.lines@[k].label.unwrap().name@;
            &&& table.contains_key(canonical(name))
            &&& table[canonical(name)] == origin_of(file) + program_bytes(
                pass_two(file, table, k).unwrap(),
            ).len()
        }),
{
    let n = file.lines@.len() as int;
    let table = label_table(file).unwrap().0;
    let name = file.lines@[k].label.unwrap().name@;
    lemma_pass_one_ok(file, k + 1, n);
    lemma_pass_one_ok(file, k, n);
    lemma_address_fits(file, k);
    lemma_pass_one_ok(file, k, n);
    lemma_pass_two_ok(file, table, k, n);
    lemma_current_address(file, table, k);
    lemma_table_grows(file, k + 1, n, canonical(name));
}

/// The bytes emitted for the first `j` lines begin the bytes emitted for
/// the first `n`.
proof fn lemma_bytes_prefix(file: SourceFile, table: Map<Seq<u8>, u16>, j: int, n: int)
    requires
        0 <= j <= n <= file.lines@.len(),
        pass_two(file, table, n) is Ok,
    ensures
        pass_two(file, table, j) is Ok,
        program_bytes(pass_two(file, table, j).unwrap()).len() <= program_bytes(
            pass_two(file, table, n).unwrap(),
        ).len(),
        program_bytes(pass_two(file, table, n).unwrap()).subrange(
            0,
            program_bytes(pass_two(file, table, j).unwrap()).len() as int,
        ) == program_bytes(pass_two(file, table, j).unwrap()),
    decreases n - j,
{
    lemma_pass_two_ok(file, table, j, n);
    if j < n {
        lemma_bytes_prefix(file, table, j, n - 1);
        lemma_pass_two_ok(file, table, n - 1, n);
        let prev = pass_two(file, table, n - 1).unwrap();
        let bj = program_bytes(pass_two(file, table, j).unwrap());
        match file.lines@[n - 1].code {
            Some(c) => {
                let x = InstructionOrData::Instruction(resolve(c.instruction, table).unwrap());
                assert(prev.push(x).drop_last() =~= prev);
                let bn = program_bytes(prev.push(x));
                assert(bn.subrange(0, bj.len() as int) =~= program_bytes(prev).subrange(
                    0,
                    bj.len() as int,
                ));
            },
            None => {},
        }
    } else {
        let b = program_bytes(pass_two(file, table, j).unwrap());
        assert(b.subrange(0, b.len() as int) =~= b);
    }
}

/// Where a labelled code line holds an instruction, the assembled image,
/// placed at the origin, holds that instruction's encoding at the label's
/// address.
pub proof fn lemma_label_starts_instruction(file: SourceFile, k: int)
    requires
        0 <= k < file.lines@.len(),
        assemble_spec(file) is Ok,
        file.lines@[k].label is Some,
        file.lines@[k].code is Some,
    ensures
        ({
            let table = label_table(file).unwrap().0;
            let name = file.lines@[k].label.unwrap().name@;
            let image = program_bytes(assemble_spec(file).unwrap().0);
            let offset = table[canonical(name)] - origin_of(file);
            let i = resolve(file.lines@[k].code.unwrap().instruction, table).unwrap();
            &&& 0 <= offset
            &&& offset + encoding(i).len() <= image.len()
            &&& image.subrange(offset, offset + encoding(i).len()) == encoding(i)
        }),
{
    let n = file.lines@.len() as int;
    let table = label_table(file).unwrap().0;
    lemma_label_address(file, k);
    lemma_bytes_prefix(file, table, k + 1, n);
    lemma_pass_two_ok(file, table, k, n);
    let prev = pass_two(file, table, k).unwrap();
    let c = file.lines@[k].code.unwrap();
    let i = resolve(c.instruction, table).unwrap();
    let x = InstructionOrData::Instruction(i);
    assert(prev.push(x).drop_last() =~= prev);
    let bk = program_bytes(prev);
    let bk1 = program_bytes(prev.push(x));
    assert(bk1 == bk + encoding(i));
    let image = program_bytes(pass_two(file, table, n).unwrap());
    assert(image.subrange(bk.len() as int, (bk.len() + encoding(i).len()) as int) =~= encoding(i)) by {
        assert(image.subrange(0, bk1.len() as int) == bk1);
        assert forall|t: int| 0 <= t < encoding(i).len() implies image[bk.len() + t] == encoding(
            i,
        )[t] by {
            assert(image.subrange(0, bk1.len() as int)[bk.len() + t] == bk1[bk.len() + t]);
        }
    }
}

proof fn lemma_pass_one_offset(file: SourceFile, source: Seq<u8>, n: int)
    requires
        0 <= n <= file.lines@.len(),
        taken_from(file, source),
    ensures
        fails_within(pass_one(file, n), source.len() as int),
    decreases n,
{
    if n > 0 {
        lemma_pass_one_offset(file, source, n - 1);
        assert(label_in_source(file.lines@[n - 1].label, source));
        assert(code_in_source(file.lines@[n - 1].code, source));
    }
}

proof fn lemma_pass_two_offset(file: SourceFile, source: Seq<u8>, table: Map<Seq<u8>, u16>, n: int)
    requires
        0 <= n <= file.lines@.len(),
        taken_from(file, source),
    ensures
        fails_within(pass_two(file, table, n), source.len() as int),
    decreases n,
{
    if n > 0 {
        lemma_pass_two_offset(file, source, table, n - 1);
        assert(code_in_source(file.lines@[n - 1].code, source));
    }
}

/// Assembling a file taken from a source fails, if at all, at an offset
/// inside the source.
proof fn lemma_assemble_offset(file: SourceFile, source: Seq<u8>)
    requires
        taken_from(file, source),
    ensures
        fails_within(assemble_spec(file), source.len() as int),
{
    let n = file.lines@.len() as int;
    lemma_pass_one_offset(file, source, n);
    match label_table(file) {
        Ok((table, _)) => lemma_pass_two_offset(file, source, table, n),
        Err(_) => {},
    }
}

proof fn lemma_same_pass_one(f1: SourceFile, f2: SourceFile, n: int)
    requires
        same_file(f1, f2),
        0 <= n <= f1.lines@.len(),
    ensures
        pass_one(f1, n) == pass_one(f2, n),
    decreases n,
{
    if n > 0 {
        lemma_same_pass_one(f1, f2, n - 1);
        assert(same_code(f1.lines@[n - 1].code, f2.lines@[n - 1].code));
    }
}

proof fn lemma_same_pass_two(f1: SourceFile, f2: SourceFile, table: Map<Seq<u8>, u16>, n: int)
    requires
        same_file(f1, f2),
        0 <= n <= f1.lines@.len(),
    ensures
        pass_two(f1, table, n) == pass_two(f2, table, n),
    decreases n,
{
    if n > 0 {
        lemma_same_pass_two(f1, f2, table, n - 1);
        assert(same_code(f1.lines@[n - 1].code, f2.lines@[n - 1].code));
    }
}

/// Files that say the same assemble to the same.
proof fn lemma_same_assembly(f1: SourceFile, f2: SourceFile)
    requires
        same_file(f1, f2),
    ensures
        assemble_spec(f1) == assemble_spec(f2),
{
    let n = f1.lines@.len() as int;
    lemma_same_pass_one(f1, f2, n);
    match label_table(f1) {
        Ok((table, _)) => lemma_same_pass_two(f1, f2, table, n),
        Err(_) => {},
    }
}

/// Files a label segment in the table, as `bind_label` says.
fn bind(labels: &mut LabelLookup, label: &Option<LabelSegment>, address: u16) -> (r: Result<
    (),
    AssemblyError,
>)
    requires
        old(labels).wf(),
    ensures
        final(labels).wf(),
        match bind_label(Ok((old(labels)@, address as int)), *label) {
            Ok((table, _)) => r.is_ok() && final(labels)@ == table,
            Err(e) => r == Err::<(), AssemblyError>(e),
        },
{
    match label {
        Some(l) => match labels.insert(l.name.as_slice(), address) {
            Ok(()) => Ok(()),
            Err(()) => Err(AssemblyError::DuplicateLabel(l.index)),
        },
        None => Ok(()),
    }
}

/// Both passes over a parsed file: labels are filed at the address of
/// their line, and each instruction is emitted with its label resolved.
pub fn assemble(file: &SourceFile) -> (r: Result<(Vec<InstructionOrData>, Address), AssemblyError>)
    ensures
        match assemble_spec(*file) {
            Ok((items, origin)) => r.is_ok() && r.unwrap().0@ == items && r.unwrap().1 == origin,
            Err(e) => r == Err::<(Vec<InstructionOrData>, Address), AssemblyError>(e),
        },
{
    let origin: u16 = match &file.origin_line {
        Some(o) => o.address,
        None => 0,
    };
    let mut labels = LabelLookup::new();
    match &file.origin_line {
        Some(o) => bind(&mut labels, &o.label, origin)?,
        None => {},
    }
    let mut current: u32 = origin as u32;
    let n = file.lines.len();
    let mut k: usize = 0;
    while k < n
        invariant
            n == file.lines@.len(),
            k <= n,
            labels.wf(),
            current <= 0xFFFF,
            pass_one(*file, k as int) == Ok::<(Map<Seq<u8>, u16>, int), AssemblyError>(
                (labels@, current as int),
            ),
        decreases n - k,
    {
        let line = &file.lines[k];
        match bind(&mut labels, &line.label, current as u16) {
            Ok(()) => {},
            Err(e) => {
                proof {
                    lemma_pass_one_error(*file, k + 1, n as int);
                }
                return Err(e);
            },
        }
        match &line.code {
            Some(c) => {
                let next = current + c.instruction.instruction_length() as u32;
                if next > 0xFFFF {
                    proof {
                        lemma_pass_one_error(*file, k + 1, n as int);
                    }
                    return Err(AssemblyError::AddressOverflow(c.index));
                }
                current = next;
            },
            None => {},
        }
        k = k + 1;
    }
    bind(&mut labels, &file.end_label, current as u16)?;
    let mut items: Vec<InstructionOrData> = Vec::new();
    let mut k: usize = 0;
    while k < n
        invariant
            n == file.lines@.len(),
            k <= n,
            labels.wf(),
            label_table(*file) matches Ok((table, _)) && table == labels@,
            pass_two(*file, labels@, k as int) == Ok::<Seq<InstructionOrData>, AssemblyError>(
                items@,
            ),
        decreases n - k,
    {
        match &file.lines[k].code {
            Some(c) => match c.instruction.into_inner(&labels) {
                Some(i) => items.push(InstructionOrData::Instruction(i)),
                None => {
                    proof {
                        lemma_pass_two_error(*file, labels@, k + 1, n as int);
                    }
                    return Err(AssemblyError::UnknownLabel(c.index));
                },
            },
            None => {},
        }
        k = k + 1;
    }
    Ok((items, origin))
}

/// Assembles a source text: its items and its origin address. Where the
/// source is a program (some file is written in it, line by line), the
/// result is what that file assembles to, success or error; where it is
/// not, a syntax error. A failure points inside the source.
pub fn parse_assembly(source: &[u8]) -> (r: Result<(Vec<InstructionOrData>, Address), AssemblyError>)
    ensures
        forall|f: SourceFile| #[trigger]
            file_written(source@, f) ==> match assemble_spec(f) {
                Ok((items, origin)) => r.is_ok() && r.unwrap().0@ == items && r.unwrap().1 == origin,
                Err(e) => r == Err::<(Vec<InstructionOrData>, Address), AssemblyError>(e),
            },
        !(exists|f: SourceFile| file_written(source@, f)) ==> r.is_err() && fails_in_syntax(r),
        fails_within(r, source@.len() as int),
{
    let file = match parse_source(source) {
        Ok(file) => file,
        Err(e) => return Err(e),
    };
    let r = assemble(&file);
    proof {
        lemma_assemble_offset(file, source@);
        assert forall|f: SourceFile| #[trigger] file_written(source@, f) implies match assemble_spec(
            f,
        ) {
            Ok((items, origin)) => r.is_ok() && r.unwrap().0@ == items && r.unwrap().1 == origin,
            Err(e) => r == Err::<(Vec<InstructionOrData>, Address), AssemblyError>(e),
        } by {
            lemma_written_unique(source@, file, f);
            lemma_same_assembly(file, f);
        }
    }
    r
}

} // verus!
