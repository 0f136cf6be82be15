//! The emitter: legal assembly to GNU-syntax text.

use crate::assembly::{
    instruction_views, lemma_instruction_views, lemma_top_level_views, top_level_views, AsmType,
    BinaryOperator, CondCode, Instruction, InstructionV, Operand, OperandV, Reg, TopLevel,
    TopLevelV, T, TV, UnaryOperator,
};
use crate::assembly_symbols::{AsmSymbolTable, Entry};
use crate::initializers::{spec_is_zero, StaticInit};
use crate::table::spec_get;
use crate::text::{i64_to_string, int_chars};
use vstd::prelude::*;

verus! {

/// The instruction suffix of an operand width.
pub open spec fn spec_suffix(t: AsmType) -> Seq<char> {
    match t {
        AsmType::Longword => "l"@,
        AsmType::Quadword => "q"@,
    }
}

/// The 32-bit name of a register.
pub open spec fn spec_long_reg(r: Reg) -> Seq<char> {
    match r {
        Reg::AX => "%eax"@,
        Reg::CX => "%ecx"@,
        Reg::DX => "%edx"@,
        Reg::DI => "%edi"@,
        Reg::SI => "%esi"@,
        Reg::R8 => "%r8d"@,
        Reg::R9 => "%r9d"@,
        Reg::R10 => "%r10d"@,
        Reg::R11 => "%r11d"@,
        Reg::SP => "%esp"@,
    }
}

/// The 64-bit name of a register.
pub open spec fn spec_quad_reg(r: Reg) -> Seq<char> {
    match r {
        Reg::AX => "%rax"@,
        Reg::CX => "%rcx"@,
        Reg::DX => "%rdx"@,
        Reg::DI => "%rdi"@,
        Reg::SI => "%rsi"@,
        Reg::R8 => "%r8"@,
        Reg::R9 => "%r9"@,
        Reg::R10 => "%r10"@,
        Reg::R11 => "%r11"@,
        Reg::SP => "%rsp"@,
    }
}

/// The 8-bit name of a register.
pub open spec fn spec_byte_reg(r: Reg) -> Seq<char> {
    match r {
        Reg::AX => "%al"@,
        Reg::CX => "%cl"@,
        Reg::DX => "%dl"@,
        Reg::DI => "%dil"@,
        Reg::SI => "%sil"@,
        Reg::R8 => "%r8b"@,
        Reg::R9 => "%r9b"@,
        Reg::R10 => "%r10b"@,
        Reg::R11 => "%r11b"@,
        Reg::SP => "%spl"@,
    }
}

/// The spelling of an operand at a width.
pub open spec fn spec_operand(t: AsmType, o: OperandV) -> Seq<char> {
    match o {
        OperandV::Reg(r) => if t == AsmType::Longword {
            spec_long_reg(r)
        } else {
            spec_quad_reg(r)
        },
        OperandV::Imm(i) => "$"@ + int_chars(i as int),
        OperandV::Stack(i) => int_chars(i as int) + "(%rbp)"@,
        OperandV::Data(name) => name + "(%rip)"@,
        OperandV::Pseudo(name) => "%"@ + name,
    }
}

/// The spelling of a byte-width operand.
pub open spec fn spec_byte_operand(o: OperandV) -> Seq<char> {
    match o {
        OperandV::Reg(r) => spec_byte_reg(r),
        other => spec_operand(AsmType::Longword, other),
    }
}

/// The mnemonic of a unary operation.
pub open spec fn spec_unary_name(op: UnaryOperator) -> Seq<char> {
    match op {
        UnaryOperator::Neg => "neg"@,
        UnaryOperator::Not => "not"@,
    }
}

/// The mnemonic of a binary operation.
pub open spec fn spec_binary_name(op: BinaryOperator) -> Seq<char> {
    match op {
        BinaryOperator::Add => "add"@,
        BinaryOperator::Mult => "imul"@,
        BinaryOperator::Sub => "sub"@,
    }
}

/// The letters of a condition code.
pub open spec fn spec_cond_code(code: CondCode) -> Seq<char> {
    match code {
        CondCode::E => "e"@,
        CondCode::G => "g"@,
        CondCode::GE => "ge"@,
        CondCode::L => "l"@,
        CondCode::LE => "le"@,
        CondCode::NE => "ne"@,
    }
}

/// A local (jump) label, prefixed so the assembler keeps it out of the
/// symbol table.
pub open spec fn spec_local_label(l: Seq<char>) -> Seq<char> {
    ".L"@ + l
}

/// The spelling of a call target: a function the assembly symbol table
/// does not record as defined in this unit goes through the PLT.
pub open spec fn spec_fun_name(f: Seq<char>, table: Seq<(Seq<char>, Entry)>) -> Seq<char> {
    match spec_get(table, f) {
        Some(Entry::Fun { defined, bytes_required: _ }) => if defined {
            f
        } else {
            f + "@PLT"@
        },
        Some(Entry::Obj { .. }) => f,
        None => f + "@PLT"@,
    }
}

/// The text of one instruction.
pub open spec fn spec_emit_instruction(i: InstructionV, table: Seq<(Seq<char>, Entry)>) -> Seq<
    char,
> {
    match i {
        InstructionV::Mov(t, src, dst) => "\tmov"@ + spec_suffix(t) + " "@ + spec_operand(t, src)
            + ", "@ + spec_operand(t, dst) + "\n"@,
        InstructionV::Unary(op, t, dst) => "\t"@ + spec_unary_name(op) + spec_suffix(t) + " "@
            + spec_operand(t, dst) + "\n"@,
        InstructionV::Binary { op, t, src, dst } => "\t"@ + spec_binary_name(op) + spec_suffix(t)
            + " "@ + spec_operand(t, src) + ", "@ + spec_operand(t, dst) + "\n"@,
        InstructionV::Cmp(t, src, dst) => "\tcmp"@ + spec_suffix(t) + " "@ + spec_operand(t, src)
            + ", "@ + spec_operand(t, dst) + "\n"@,
        InstructionV::Idiv(t, o) => "\tidiv"@ + spec_suffix(t) + " "@ + spec_operand(t, o) + "\n"@,
        InstructionV::Cdq(AsmType::Longword) => "\tcdq\n"@,
        InstructionV::Cdq(AsmType::Quadword) => "\tcqo\n"@,
        InstructionV::Jmp(l) => "\tjmp "@ + spec_local_label(l) + "\n"@,
        InstructionV::JmpCC(code, l) => "\tj"@ + spec_cond_code(code) + " "@ + spec_local_label(l)
            + "\n"@,
        InstructionV::SetCC(code, o) => "\tset"@ + spec_cond_code(code) + " "@ + spec_byte_operand(
            o,
        ) + "\n"@,
        InstructionV::Label(l) => spec_local_label(l) + ":\n"@,
        InstructionV::Push(o) => "\tpushq "@ + spec_operand(AsmType::Quadword, o) + "\n"@,
        InstructionV::Call(f) => "\tcall "@ + spec_fun_name(f, table) + "\n"@,
        InstructionV::Movsx(src, dst) => "\tmovslq "@ + spec_operand(AsmType::Longword, src)
            + ", "@ + spec_operand(AsmType::Quadword, dst) + "\n"@,
        InstructionV::Ret => "\n\tmovq %rbp, %rsp\n\tpopq %rbp\n\tret\n"@,
    }
}

/// The text of an instruction sequence, in order.
pub open spec fn spec_emit_instrs(is: Seq<InstructionV>, table: Seq<(Seq<char>, Entry)>) -> Seq<
    char,
>
    decreases is,
{
    if is.len() == 0 {
        Seq::empty()
    } else {
        spec_emit_instrs(is.drop_last(), table) + spec_emit_instruction(is.last(), table)
    }
}

/// The `.globl` directive of an externally visible name.
pub open spec fn spec_global_directive(global: bool, label: Seq<char>) -> Seq<char> {
    if global {
        "\t.globl "@ + label + "\n"@
    } else {
        Seq::empty()
    }
}

/// The `.zero` directive of a zero initializer.
pub open spec fn spec_zero_init(init: StaticInit) -> Seq<char> {
    match init {
        StaticInit::IntInit(_) => "\t.zero 4\n"@,
        StaticInit::LongInit(_) => "\t.zero 8\n"@,
    }
}

/// The `.quad` directive of a nonzero initializer.
pub open spec fn spec_init(init: StaticInit) -> Seq<char> {
    match init {
        StaticInit::IntInit(i) => "\t.quad "@ + int_chars(i as int) + "\n"@,
        StaticInit::LongInit(l) => "\t.quad "@ + int_chars(l as int) + "\n"@,
    }
}

/// The text of one top-level item.
pub open spec fn spec_emit_tl(tl: TopLevelV, table: Seq<(Seq<char>, Entry)>) -> Seq<char> {
    match tl {
        TopLevelV::Function { name, global, instructions } => spec_global_directive(global, name)
            + "\n\t.text\n"@ + name + ":\n\tpushq %rbp\n\tmovq %rsp, %rbp\n"@ + spec_emit_instrs(
            instructions,
            table,
        ),
        TopLevelV::StaticVariable { name, alignment, global, init } => {
            if spec_is_zero(init) {
                spec_global_directive(global, name) + "\n\t.bss\n\t.align "@ + int_chars(
                    alignment as int,
                ) + "\n"@ + name + ":\n"@ + spec_zero_init(init) + "\n"@
            } else {
                spec_global_directive(global, name) + "\n\t.data\n\t.align "@ + int_chars(
                    alignment as int,
                ) + "\n"@ + name + ":\n"@ + spec_init(init)
            }
        },
    }
}

/// The text of a top-level sequence, in order.
pub open spec fn spec_emit_tls(tls: Seq<TopLevelV>, table: Seq<(Seq<char>, Entry)>) -> Seq<char>
    decreases tls,
{
    if tls.len() == 0 {
        Seq::empty()
    } else {
        spec_emit_tls(tls.drop_last(), table) + spec_emit_tl(tls.last(), table)
    }
}

/// The text of a whole program: each item, then the stack note.
pub open spec fn spec_emit(p: TV, table: Seq<(Seq<char>, Entry)>) -> Seq<char> {
    match p {
        TV::Program(tls) => spec_emit_tls(tls, table) + "\n"@
            + "\t.section .note.GNU-stack,\"\",@progbits\n"@,
    }
}

/// Renders the instruction suffix of a width.
fn suffix(t: AsmType) -> (s: &'static str)
    ensures
        s@ == spec_suffix(t),
{
    match t {
        AsmType::Longword => "l",
        AsmType::Quadword => "q",
    }
}

/// Renders the 32-bit name of a register.
fn show_long_reg(r: Reg) -> (s: &'static str)
    ensures
        s@ == spec_long_reg(r),
{
    match r {
        Reg::AX => "%eax",
        Reg::CX => "%ecx",
        Reg::DX => "%edx",
        Reg::DI => "%edi",
        Reg::SI => "%esi",
        Reg::R8 => "%r8d",
        Reg::R9 => "%r9d",
        Reg::R10 => "%r10d",
        Reg::R11 => "%r11d",
        Reg::SP => "%esp",
    }
}

/// Renders the 64-bit name of a register.
fn show_quadword_reg(r: Reg) -> (s: &'static str)
    ensures
        s@ == spec_quad_reg(r),
{
    match r {
        Reg::AX => "%rax",
        Reg::CX => "%rcx",
        Reg::DX => "%rdx",
        Reg::DI => "%rdi",
        Reg::SI => "%rsi",
        Reg::R8 => "%r8",
        Reg::R9 => "%r9",
        Reg::R10 => "%r10",
        Reg::R11 => "%r11",
        Reg::SP => "%rsp",
    }
}

/// Renders the 8-bit name of a register.
fn show_byte_reg(r: Reg) -> (s: &'static str)
    ensures
        s@ == spec_byte_reg(r),
{
    match r {
        Reg::AX => "%al",
        Reg::CX => "%cl",
        Reg::DX => "%dl",
        Reg::DI => "%dil",
        Reg::SI => "%sil",
        Reg::R8 => "%r8b",
        Reg::R9 => "%r9b",
        Reg::R10 => "%r10b",
        Reg::R11 => "%r11b",
        Reg::SP => "%spl",
    }
}

/// Renders an operand at a width.
fn show_operand(t: AsmType, operand: &Operand) -> (s: String)
    ensures
        s@ == spec_operand(t, operand@),
{
    match operand {
        Operand::Reg(r) => {
            match t {
                AsmType::Longword => show_long_reg(*r).to_owned(),
                AsmType::Quadword => show_quadword_reg(*r).to_owned(),
            }
        },
        Operand::Imm(i) => {
            let mut s = String::from_str("$");
            s.append(i64_to_string(*i).as_str());
            s
        },
        Operand::Stack(i) => {
            let mut s = i64_to_string(*i);
            s.append("(%rbp)");
            s
        },
        Operand::Data(name) => {
            let mut s = name.clone();
            s.append("(%rip)");
            s
        },
        Operand::Pseudo(name) => {
            let mut s = String::from_str("%");
            s.append(name.as_str());
            s
        },
    }
}

/// Renders a byte-width operand.
fn show_byte_operand(operand: &Operand) -> (s: String)
    ensures
        s@ == spec_byte_operand(operand@),
{
    match operand {
        Operand::Reg(r) => show_byte_reg(*r).to_owned(),
        other => show_operand(AsmType::Longword, other),
    }
}

/// Renders the mnemonic of a unary operation.
fn show_unary_instruction(op: UnaryOperator) -> (s: &'static str)
    ensures
        s@ == spec_unary_name(op),
{
    match op {
        UnaryOperator::Neg => "neg",
        UnaryOperator::Not => "not",
    }
}

/// Renders the mnemonic of a binary operation.
fn show_binary_instruction(op: BinaryOperator) -> (s: &'static str)
    ensures
        s@ == spec_binary_name(op),
{
    match op {
        BinaryOperator::Add => "add",
        BinaryOperator::Mult => "imul",
        BinaryOperator::Sub => "sub",
    }
}

/// Renders the letters of a condition code.
fn show_cond_code(code: CondCode) -> (s: &'static str)
    ensures
        s@ == spec_cond_code(code),
{
    match code {
        CondCode::E => "e",
        CondCode::G => "g",
        CondCode::GE => "ge",
        CondCode::L => "l",
        CondCode::LE => "le",
        CondCode::NE => "ne",
    }
}

/// Renders a local (jump) label.
fn show_local_label(label: &String) -> (s: String)
    ensures
        s@ == spec_local_label(label@),
{
    let mut s = String::from_str(".L");
    s.append(label.as_str());
    s
}

/// Renders a call target, with `@PLT` for a function not defined here.
fn show_fun_name(f: &String, table: &AsmSymbolTable) -> (s: String)
    ensures
        s@ == spec_fun_name(f@, table@),
{
    match table.get_opt(f) {
        Some(Entry::Fun { defined, bytes_required: _ }) => {
            if defined {
                f.clone()
            } else {
                let mut s = f.clone();
                s.append("@PLT");
                s
            }
        },
        Some(Entry::Obj { .. }) => f.clone(),
        None => {
            let mut s = f.clone();
            s.append("@PLT");
            s
        },
    }
}

/// Renders one instruction.
fn emit_instruction(instruction: &Instruction, table: &AsmSymbolTable) -> (s: String)
    ensures
        s@ == spec_emit_instruction(instruction@, table@),
{
    let s: String = match instruction {
        Instruction::Mov(t, src, dst) => {
            let mut s = String::from_str("\tmov");
            s.append(suffix(*t));
            s.append(" ");
            s.append(show_operand(*t, src).as_str());
            s.append(", ");
            s.append(show_operand(*t, dst).as_str());
            s.append("\n");
            s
        },
        Instruction::Unary(op, t, dst) => {
            let mut s = String::from_str("\t");
            s.append(show_unary_instruction(*op));
            s.append(suffix(*t));
            s.append(" ");
            s.append(show_operand(*t, dst).as_str());
            s.append("\n");
            s
        },
        Instruction::Binary { op, t, src, dst } => {
            let mut s = String::from_str("\t");
            s.append(show_binary_instruction(*op));
            s.append(suffix(*t));
            s.append(" ");
            s.append(show_operand(*t, src).as_str());
            s.append(", ");
            s.append(show_operand(*t, dst).as_str());
            s.append("\n");
            s
        },
        Instruction::Cmp(t, src, dst) => {
            let mut s = String::from_str("\tcmp");
            s.append(suffix(*t));
            s.append(" ");
            s.append(show_operand(*t, src).as_str());
            s.append(", ");
            s.append(show_operand(*t, dst).as_str());
            s.append("\n");
            s
        },
        Instruction::Idiv(t, o) => {
            let mut s = String::from_str("\tidiv");
            s.append(suffix(*t));
            s.append(" ");
            s.append(show_operand(*t, o).as_str());
            s.append("\n");
            s
        },
        Instruction::Cdq(AsmType::Longword) => String::from_str("\tcdq\n"),
        Instruction::Cdq(AsmType::Quadword) => String::from_str("\tcqo\n"),
        Instruction::Jmp(l) => {
            let mut s = String::from_str("\tjmp ");
            s.append(show_local_label(l).as_str());
            s.append("\n");
            s
        },
        Instruction::JmpCC(code, l) => {
            let mut s = String::from_str("\tj");
            s.append(show_cond_code(*code));
            s.append(" ");
            s.append(show_local_label(l).as_str());
            s.append("\n");
            s
        },
        Instruction::SetCC(code, o) => {
            let mut s = String::from_str("\tset");
            s.append(show_cond_code(*code));
            s.append(" ");
            s.append(show_byte_operand(o).as_str());
            s.append("\n");
            s
        },
        Instruction::Label(l) => {
            let mut s = show_local_label(l);
            s.append(":\n");
            s
        },
        Instruction::Push(o) => {
            let mut s = String::from_str("\tpushq ");
            s.append(show_operand(AsmType::Quadword, o).as_str());
            s.append("\n");
            s
        },
        Instruction::Call(f) => {
            let mut s = String::from_str("\tcall ");
            s.append(show_fun_name(f, table).as_str());
            s.append("\n");
            s
        },
        Instruction::Movsx(src, dst) => {
            let mut s = String::from_str("\tmovslq ");
            s.append(show_operand(AsmType::Longword, src).as_str());
            s.append(", ");
            s.append(show_operand(AsmType::Quadword, dst).as_str());
            s.append("\n");
            s
        },
        Instruction::Ret => String::from_str("\n\tmovq %rbp, %rsp\n\tpopq %rbp\n\tret\n"),
    };
    proof {
        assert(s@ =~= spec_emit_instruction(instruction@, table@));
    }
    s
}

/// Renders the `.globl` directive of an externally visible name.
fn emit_global_directive(global: bool, label: &String) -> (s: String)
    ensures
        s@ == spec_global_directive(global, label@),
{
    if global {
        let mut s = String::from_str("\t.globl ");
        s.append(label.as_str());
        s.append("\n");
        proof {
            assert(s@ =~= spec_global_directive(global, label@));
        }
        s
    } else {
        let s = String::new();
        proof {
            assert(s@ =~= spec_global_directive(global, label@));
        }
        s
    }
}

/// Renders the `.zero` directive of a zero initializer.
fn emit_zero_init(ini: StaticInit) -> (s: &'static str)
    ensures
        s@ == spec_zero_init(ini),
{
    match ini {
        StaticInit::IntInit(_) => "\t.zero 4\n",
        StaticInit::LongInit(_) => "\t.zero 8\n",
    }
}

/// Renders the `.quad` directive of an initializer.
fn emit_init(ini: StaticInit) -> (s: String)
    ensures
        s@ == spec_init(ini),
{
    match ini {
        StaticInit::IntInit(i) => {
            let mut s = String::from_str("\t.quad ");
            s.append(i64_to_string(i as i64).as_str());
            s.append("\n");
            proof {
                assert(s@ =~= spec_init(ini));
            }
            s
        },
        StaticInit::LongInit(l) => {
            let mut s = String::from_str("\t.quad ");
            s.append(i64_to_string(l).as_str());
            s.append("\n");
            proof {
                assert(s@ =~= spec_init(ini));
            }
            s
        },
    }
}

/// Renders one top-level item.
fn emit_tl(f: &TopLevel, table: &AsmSymbolTable) -> (s: String)
    ensures
        s@ == spec_emit_tl(f@, table@),
{
    match f {
        TopLevel::Function { name, global, instructions } => {
            let mut s = emit_global_directive(*global, name);
            s.append("\n\t.text\n");
            s.append(name.as_str());
            s.append(":\n\tpushq %rbp\n\tmovq %rsp, %rbp\n");
            let ghost all = instruction_views(instructions@);
            let ghost header = s@;
            proof {
                lemma_instruction_views(instructions@);
                assert(all.subrange(0, 0) =~= Seq::<InstructionV>::empty());
                assert(s@ =~= header + spec_emit_instrs(all.subrange(0, 0), table@));
            }
            let mut i: usize = 0;
            while i < instructions.len()
                invariant
                    i <= instructions.len(),
                    s@ == header + spec_emit_instrs(all.subrange(0, i as int), table@),
                decreases instructions.len() - i,
            {
                proof {
                    lemma_instruction_views(instructions@);
                }
                s.append(emit_instruction(&instructions[i], table).as_str());
                proof {
                    assert(all.subrange(0, i + 1).drop_last() =~= all.subrange(0, i as int));
                    assert(all.subrange(0, i + 1).last() == instructions@[i as int]@);
                    assert(s@ =~= header + spec_emit_instrs(all.subrange(0, i + 1), table@));
                }
                i += 1;
            }
            proof {
                assert(all.subrange(0, instructions@.len() as int) =~= all);
                assert(s@ =~= spec_emit_tl(f@, table@));
            }
            s
        },
        TopLevel::StaticVariable { name, alignment, global, init } => {
            if crate::initializers::is_zero(*init) {
                let mut s = emit_global_directive(*global, name);
                s.append("\n\t.bss\n\t.align ");
                s.append(i64_to_string(*alignment).as_str());
                s.append("\n");
                s.append(name.as_str());
                s.append(":\n");
                s.append(emit_zero_init(*init));
                s.append("\n");
                proof {
                    assert(s@ =~= spec_emit_tl(f@, table@));
                }
                s
            } else {
                let mut s = emit_global_directive(*global, name);
                s.append("\n\t.data\n\t.align ");
                s.append(i64_to_string(*alignment).as_str());
                s.append("\n");
                s.append(name.as_str());
                s.append(":\n");
                s.append(emit_init(*init).as_str());
                proof {
                    assert(s@ =~= spec_emit_tl(f@, table@));
                }
                s
            }
        },
    }
}

/// Renders a whole program as GNU-syntax assembly text, ending with the
/// note that marks the stack non-executable.
pub fn emit(program: &T, table: &AsmSymbolTable) -> (s: String)
    ensures
        s@ == spec_emit(program@, table@),
{
    match program {
        T::Program(tls) => {
            let ghost all = top_level_views(tls@);
            let mut s = String::new();
            proof {
                lemma_top_level_views(tls@);
                assert(all.subrange(0, 0) =~= Seq::<TopLevelV>::empty());
                assert(s@ =~= spec_emit_tls(all.subrange(0, 0), table@));
            }
            let mut i: usize = 0;
            while i < tls.len()
                invariant
                    i <= tls.len(),
                    s@ == spec_emit_tls(all.subrange(0, i as int), table@),
                decreases tls.len() - i,
            {
                proof {
                    lemma_top_level_views(tls@);
                }
                s.append(emit_tl(&tls[i], table).as_str());
                proof {
                    assert(all.subrange(0, i + 1).drop_last() =~= all.subrange(0, i as int));
                    assert(all.subrange(0, i + 1).last() == tls@[i as int]@);
                    assert(s@ =~= spec_emit_tls(all.subrange(0, i + 1), table@));
                }
                i += 1;
            }
            s.append("\n");
            s.append("\t.section .note.GNU-stack,\"\",@progbits\n");
            proof {
                assert(all.subrange(0, tls@.len() as int) =~= all);
                assert(s@ =~= spec_emit(program@, table@));
            }
            s
        },
    }
}

} // verus!
