//! The peephole pass that rewrites instructions into forms the x86-64
//! assembler accepts, and prepends each function's stack allocation.

use crate::assembly::{
    instr_operands, lemma_instruction_views, lemma_top_level_views, instruction_views, top_level_views, AsmType,
    BinaryOperator, Instruction, InstructionV, Operand, OperandV, Reg, TopLevel, TopLevelV, T, TV,
};
use crate::assembly_symbols::{AsmSymbolTable, Entry};
use crate::errors::{CompileError, CompileErrorV};
use crate::rounding::round_way_from_zero;
use crate::table::spec_get;
use vstd::arithmetic::div_mod::{lemma_fundamental_div_mod, lemma_fundamental_div_mod_converse_mod};
use vstd::prelude::*;

verus! {

/// Whether an operand is a memory reference.
pub open spec fn is_memory(o: OperandV) -> bool {
    o is Stack || o is Data
}

/// Whether an immediate operand fits the 32-bit signed range.
pub open spec fn fits_i32(i: i64) -> bool {
    -0x8000_0000 <= i <= 0x7fff_ffff
}

/// The rewriting of one instruction into an accepted form.
pub open spec fn spec_fixup_instruction(instr: InstructionV) -> Seq<InstructionV> {
    match instr {
        InstructionV::Mov(t, src, dst) => {
            if is_memory(src) && is_memory(dst) {
                seq![
                    InstructionV::Mov(t, src, OperandV::Reg(Reg::R10)),
                    InstructionV::Mov(t, OperandV::Reg(Reg::R10), dst),
                ]
            } else if src matches OperandV::Imm(i) && !fits_i32(i) && is_memory(dst) && t
                == AsmType::Quadword {
                seq![
                    InstructionV::Mov(t, src, OperandV::Reg(Reg::R10)),
                    InstructionV::Mov(t, OperandV::Reg(Reg::R10), dst),
                ]
            } else {
                seq![instr]
            }
        },
        InstructionV::Idiv(t, OperandV::Imm(i)) => {
            seq![
                InstructionV::Mov(t, OperandV::Imm(i), OperandV::Reg(Reg::R10)),
                InstructionV::Idiv(t, OperandV::Reg(Reg::R10)),
            ]
        },
        InstructionV::Binary { op, t, src, dst } => {
            if (op == BinaryOperator::Add || op == BinaryOperator::Sub) && is_memory(src)
                && is_memory(dst) {
                seq![
                    InstructionV::Mov(t, src, OperandV::Reg(Reg::R10)),
                    InstructionV::Binary { op, t, src: OperandV::Reg(Reg::R10), dst },
                ]
            } else if op == BinaryOperator::Mult && is_memory(dst) {
                seq![
                    InstructionV::Mov(t, dst, OperandV::Reg(Reg::R11)),
                    InstructionV::Binary { op, t, src, dst: OperandV::Reg(Reg::R11) },
                    InstructionV::Mov(t, OperandV::Reg(Reg::R11), dst),
                ]
            } else {
                seq![instr]
            }
        },
        InstructionV::Cmp(t, src, dst) => {
            if is_memory(src) && is_memory(dst) {
                seq![
                    InstructionV::Mov(t, src, OperandV::Reg(Reg::R10)),
                    InstructionV::Cmp(t, OperandV::Reg(Reg::R10), dst),
                ]
            } else if dst is Imm {
                seq![
                    InstructionV::Mov(t, dst, OperandV::Reg(Reg::R11)),
                    InstructionV::Cmp(t, src, OperandV::Reg(Reg::R11)),
                ]
            } else {
                seq![instr]
            }
        },
        InstructionV::Movsx(src, dst) => {
            if src is Imm && is_memory(dst) {
                seq![
                    InstructionV::Mov(AsmType::Longword, src, OperandV::Reg(Reg::R10)),
                    InstructionV::Movsx(OperandV::Reg(Reg::R10), OperandV::Reg(Reg::R11)),
                    InstructionV::Mov(AsmType::Quadword, OperandV::Reg(Reg::R11), dst),
                ]
            } else if src is Imm {
                seq![
                    InstructionV::Mov(AsmType::Longword, src, OperandV::Reg(Reg::R10)),
                    InstructionV::Movsx(OperandV::Reg(Reg::R10), dst),
                ]
            } else if is_memory(dst) {
                seq![
                    InstructionV::Movsx(src, OperandV::Reg(Reg::R11)),
                    InstructionV::Mov(AsmType::Quadword, OperandV::Reg(Reg::R11), dst),
                ]
            } else {
                seq![instr]
            }
        },
        _ => seq![instr],
    }
}

/// The rewriting of an instruction sequence, in order.
pub open spec fn spec_fixup_instrs(instrs: Seq<InstructionV>) -> Seq<InstructionV>
    decreases instrs,
{
    if instrs.len() == 0 {
        Seq::empty()
    } else {
        spec_fixup_instrs(instrs.drop_last()) + spec_fixup_instruction(instrs.last())
    }
}

/// `n` rounded up to the nearest multiple of 16.
pub open spec fn spec_round16(n: int) -> int {
    if n % 16 == 0 {
        n
    } else {
        n + (16 - n % 16)
    }
}

/// The rounded value is the unique multiple of 16 in `[n, n + 16)`.
proof fn lemma_round16(n: int)
    requires
        n >= 0,
    ensures
        spec_round16(n) % 16 == 0,
        n <= spec_round16(n) < n + 16,
{
    if n % 16 != 0 {
        lemma_fundamental_div_mod(n, 16);
        let q = n / 16;
        assert(spec_round16(n) == (q + 1) * 16) by (nonlinear_arith)
            requires
                n == 16 * q + n % 16,
                spec_round16(n) == n + (16 - n % 16),
        ;
        lemma_fundamental_div_mod_converse_mod(spec_round16(n), 16, q + 1, 0);
    }
}

/// Two multiples of 16 less than 16 apart are equal.
proof fn lemma_mult16_unique(a: int, b: int)
    requires
        a % 16 == 0,
        b % 16 == 0,
        -16 < a - b < 16,
    ensures
        a == b,
{
    lemma_fundamental_div_mod(a, 16);
    lemma_fundamental_div_mod(b, 16);
    assert(a == b) by (nonlinear_arith)
        requires
            a == 16 * (a / 16),
            b == 16 * (b / 16),
            -16 < a - b < 16,
    ;
}

/// The largest stack size the fixup pass accepts.
pub open spec fn max_stack_bytes() -> int {
    0x1000_0000_0000_0000
}

/// The rewriting of one top-level item: a function gets its rounded
/// stack allocation prepended and each instruction legalised; a static
/// variable passes through.  A function that the assembly symbol table
/// does not record with a usable frame size is a malformed input.
pub open spec fn spec_fixup_tl(tl: TopLevelV, table: Seq<(Seq<char>, Entry)>) -> Result<
    TopLevelV,
    CompileErrorV,
> {
    match tl {
        TopLevelV::Function { name, global, instructions } => {
            match spec_get(table, name) {
                Some(Entry::Fun { defined: _, bytes_required }) => {
                    if 0 <= bytes_required <= max_stack_bytes() {
                        Ok(
                            TopLevelV::Function {
                                name,
                                global,
                                instructions: seq![
                                    InstructionV::Binary {
                                        op: BinaryOperator::Sub,
                                        t: AsmType::Quadword,
                                        src: OperandV::Imm(
                                            spec_round16(bytes_required as int) as i64,
                                        ),
                                        dst: OperandV::Reg(Reg::SP),
                                    },
                                ] + spec_fixup_instrs(instructions),
                            },
                        )
                    } else {
                        Err(CompileErrorV::Internal)
                    }
                },
                _ => Err(CompileErrorV::Internal),
            }
        },
        static_var => Ok(static_var),
    }
}

/// The rewriting of a whole program, item by item.
pub open spec fn spec_fixup_program(tls: Seq<TopLevelV>, table: Seq<(Seq<char>, Entry)>) -> Result<
    Seq<TopLevelV>,
    CompileErrorV,
>
    decreases tls,
{
    if tls.len() == 0 {
        Ok(Seq::empty())
    } else {
        match spec_fixup_program(tls.drop_last(), table) {
            Err(e) => Err(e),
            Ok(done) => match spec_fixup_tl(tls.last(), table) {
                Err(e) => Err(e),
                Ok(tl) => Ok(done.push(tl)),
            },
        }
    }
}

/// Once a prefix fails, the whole program fails the same way.
proof fn lemma_fixup_program_err(tls: Seq<TopLevelV>, table: Seq<(Seq<char>, Entry)>, i: int)
    requires
        0 <= i <= tls.len(),
        spec_fixup_program(tls.subrange(0, i), table) is Err,
    ensures
        spec_fixup_program(tls, table) == spec_fixup_program(tls.subrange(0, i), table),
    decreases tls.len() - i,
{
    if i < tls.len() {
        assert(tls.subrange(0, i + 1).drop_last() =~= tls.subrange(0, i));
        lemma_fixup_program_err(tls, table, i + 1);
    } else {
        assert(tls.subrange(0, i) =~= tls);
    }
}

/// Whether an instruction is in a form the x86-64 assembler accepts: a
/// `Mov`, `Cmp`, `Add` or `Sub` has at most one memory operand, a `Cmp`
/// never targets an immediate, a `Mult` never targets memory, an `Idiv`
/// never takes an immediate, and a `Movsx` has no immediate source and no
/// memory destination.
pub open spec fn instr_legal(i: InstructionV) -> bool {
    match i {
        InstructionV::Mov(_, src, dst) => !(is_memory(src) && is_memory(dst)),
        InstructionV::Cmp(_, src, dst) => !(is_memory(src) && is_memory(dst)) && !(dst is Imm),
        InstructionV::Binary { op, t: _, src, dst } => {
            if op == BinaryOperator::Add || op == BinaryOperator::Sub {
                !(is_memory(src) && is_memory(dst))
            } else {
                !is_memory(dst)
            }
        },
        InstructionV::Idiv(_, o) => !(o is Imm),
        InstructionV::Movsx(src, dst) => !(src is Imm) && !is_memory(dst),
        _ => true,
    }
}

/// Everything one rewriting step produces is legal.
proof fn lemma_fixup_instruction_legal(i: InstructionV)
    ensures
        forall|j: int|
            0 <= j < spec_fixup_instruction(i).len() ==> instr_legal(
                #[trigger] spec_fixup_instruction(i)[j],
            ),
{
}

/// After instruction fixup, every instruction of the rewritten stream is
/// in a form the assembler accepts.
pub proof fn lemma_fixup_instrs_legal(instrs: Seq<InstructionV>)
    ensures
        forall|j: int|
            0 <= j < spec_fixup_instrs(instrs).len() ==> instr_legal(
                #[trigger] spec_fixup_instrs(instrs)[j],
            ),
    decreases instrs,
{
    if instrs.len() > 0 {
        lemma_fixup_instrs_legal(instrs.drop_last());
        lemma_fixup_instruction_legal(instrs.last());
        let done = spec_fixup_instrs(instrs.drop_last());
        let step = spec_fixup_instruction(instrs.last());
        assert(forall|j: int| 0 <= j < done.len() ==> (done + step)[j] == done[j]);
        assert(forall|j: int|
            done.len() <= j < done.len() + step.len() ==> (done + step)[j] == step[j - done.len()]);
    }
}

/// After instruction fixup, in every function of the program every
/// instruction is in a form the assembler accepts; the prologue's stack
/// allocation is such a form too.
pub proof fn lemma_fixup_program_legal(tls: Seq<TopLevelV>, table: Seq<(Seq<char>, Entry)>)
    ensures
        spec_fixup_program(tls, table) matches Ok(out) ==> forall|k: int, j: int|
            #![trigger out[k]->instructions[j]]
            0 <= k < out.len() && out[k] is Function && 0 <= j
                < out[k]->instructions.len() ==> instr_legal(out[k]->instructions[j]),
    decreases tls,
{
    if tls.len() > 0 && spec_fixup_program(tls, table) is Ok {
        lemma_fixup_program_legal(tls.drop_last(), table);
        let done = spec_fixup_program(tls.drop_last(), table)->Ok_0;
        let out = spec_fixup_program(tls, table)->Ok_0;
        if tls.last() is Function {
            lemma_fixup_instrs_legal(tls.last()->instructions);
        }
        assert(forall|k: int| 0 <= k < done.len() ==> out[k] == done[k]);
    }
}

/// Every operand a rewriting step produces is a register or one of the
/// original instruction's operands.
proof fn lemma_fixup_instruction_operands(i: InstructionV)
    ensures
        forall|j: int, k: int|
            #![trigger instr_operands(spec_fixup_instruction(i)[j])[k]]
            0 <= j < spec_fixup_instruction(i).len() && 0 <= k < instr_operands(
                spec_fixup_instruction(i)[j],
            ).len() ==> (instr_operands(spec_fixup_instruction(i)[j])[k] is Reg || instr_operands(
                i,
            ).contains(instr_operands(spec_fixup_instruction(i)[j])[k])),
{
    let out = spec_fixup_instruction(i);
    assert forall|j: int, k: int|
        #![trigger instr_operands(out[j])[k]]
        0 <= j < out.len() && 0 <= k < instr_operands(out[j]).len() implies (
    instr_operands(out[j])[k] is Reg || instr_operands(i).contains(
        instr_operands(out[j])[k],
    )) by {
        let o = instr_operands(out[j])[k];
        if !(o is Reg) {
            assert(instr_operands(i).contains(o)) by {
                if instr_operands(i).len() >= 1 && instr_operands(i)[0] == o {
                    assert(instr_operands(i).contains(o));
                } else if instr_operands(i).len() >= 2 && instr_operands(i)[1] == o {
                    assert(instr_operands(i).contains(o));
                }
            }
        }
    }
}

/// After instruction fixup every stack reference a function body makes
/// is one the body already made.
pub proof fn lemma_fixup_instrs_operands(instrs: Seq<InstructionV>)
    ensures
        forall|j: int, k: int|
            #![trigger instr_operands(spec_fixup_instrs(instrs)[j])[k]]
            0 <= j < spec_fixup_instrs(instrs).len() && 0 <= k < instr_operands(
                spec_fixup_instrs(instrs)[j],
            ).len() ==> (instr_operands(spec_fixup_instrs(instrs)[j])[k] is Reg || exists|
                j0: int,
                k0: int,
            |
                #![trigger instr_operands(instrs[j0])[k0]]
                0 <= j0 < instrs.len() && 0 <= k0 < instr_operands(instrs[j0]).len()
                    && instr_operands(instrs[j0])[k0] == instr_operands(
                    spec_fixup_instrs(instrs)[j],
                )[k]),
    decreases instrs,
{
    if instrs.len() > 0 {
        lemma_fixup_instrs_operands(instrs.drop_last());
        lemma_fixup_instruction_operands(instrs.last());
        let done = spec_fixup_instrs(instrs.drop_last());
        let step = spec_fixup_instruction(instrs.last());
        let out = spec_fixup_instrs(instrs);
        assert(forall|j: int| 0 <= j < done.len() ==> out[j] == done[j]);
        assert(forall|j: int|
            done.len() <= j < out.len() ==> out[j] == step[j - done.len()]);
        assert forall|j: int, k: int|
            #![trigger instr_operands(out[j])[k]]
            0 <= j < out.len() && 0 <= k < instr_operands(out[j]).len() && !(
            instr_operands(out[j])[k] is Reg) implies exists|j0: int, k0: int|
            #![trigger instr_operands(instrs[j0])[k0]]
            0 <= j0 < instrs.len() && 0 <= k0 < instr_operands(instrs[j0]).len()
                && instr_operands(instrs[j0])[k0] == instr_operands(out[j])[k] by {
            let o = instr_operands(out[j])[k];
            if j < done.len() {
                let (j0, k0) = choose|j0: int, k0: int|
                    #![trigger instr_operands(instrs.drop_last()[j0])[k0]]
                    0 <= j0 < instrs.drop_last().len() && 0 <= k0 < instr_operands(
                        instrs.drop_last()[j0],
                    ).len() && instr_operands(instrs.drop_last()[j0])[k0] == o;
                assert(instrs.drop_last()[j0] == instrs[j0]);
                assert(0 <= j0 < instrs.len() && 0 <= k0 < instr_operands(instrs[j0]).len()
                    && instr_operands(instrs[j0])[k0] == o);
            } else {
                assert(instr_operands(i_last_operand_helper(instrs)).len() >= 0);
                let jl = instrs.len() - 1;
                assert(instrs[jl] == instrs.last());
                if instr_operands(instrs.last()).len() >= 1 && instr_operands(instrs.last())[0]
                    == o {
                    assert(instr_operands(instrs[jl])[0] == o);
                } else {
                    assert(instr_operands(instrs.last()).contains(o));
                    let k0 = choose|k0: int|
                        0 <= k0 < instr_operands(instrs.last()).len() && instr_operands(
                            instrs.last(),
                        )[k0] == o;
                    assert(instr_operands(instrs[jl])[k0] == o);
                }
            }
        }
    }
}

/// A trivial helper naming the last instruction, for triggering.
spec fn i_last_operand_helper(instrs: Seq<InstructionV>) -> InstructionV {
    instrs.last()
}

/// Each function prologue's stack allocation is a multiple of 16 bytes
/// and covers the deepest stack slot the body touches: after fixup the
/// body's first instruction subtracts `N` from the stack pointer, where
/// `N` is a multiple of 16 at least as large as `-offset` for every
/// `Stack(offset)` operand with a negative offset in the body.  Stack
/// operands with nonnegative offsets address the caller's frame (incoming
/// stack arguments) and are not covered by the allocation.
pub proof fn lemma_prologue_covers_stack(tl: TopLevelV, table: Seq<(Seq<char>, Entry)>)
    requires
        tl matches TopLevelV::Function { name, instructions, .. },
        spec_get(table, tl->Function_name) matches Some(Entry::Fun { defined: _, bytes_required }),
        0 <= spec_get(table, tl->Function_name)->Some_0->bytes_required <= max_stack_bytes(),
        forall|j: int, k: int|
            #![trigger instr_operands(tl->instructions[j])[k]]
            0 <= j < tl->instructions.len() && 0 <= k < instr_operands(
                tl->instructions[j],
            ).len() && instr_operands(tl->instructions[j])[k] is Stack && instr_operands(
                tl->instructions[j],
            )[k]->Stack_0 < 0 ==> -instr_operands(tl->instructions[j])[k]->Stack_0 <= spec_get(
                table,
                tl->Function_name,
            )->Some_0->bytes_required,
    ensures
        spec_fixup_tl(tl, table) matches Ok(out),
        spec_fixup_tl(tl, table)->Ok_0->instructions.len() >= 1,
        spec_fixup_tl(tl, table)->Ok_0->instructions[0] matches InstructionV::Binary {
            op: BinaryOperator::Sub,
            t: AsmType::Quadword,
            src: OperandV::Imm(n),
            dst: OperandV::Reg(Reg::SP),
        },
        spec_fixup_tl(tl, table)->Ok_0->instructions[0]->src->Imm_0 as int % 16 == 0,
        spec_fixup_tl(tl, table)->Ok_0->instructions[0]->src->Imm_0 >= spec_get(
            table,
            tl->Function_name,
        )->Some_0->bytes_required,
        forall|j: int, k: int|
            #![trigger instr_operands(spec_fixup_tl(tl, table)->Ok_0->instructions[j])[k]]
            1 <= j < spec_fixup_tl(tl, table)->Ok_0->instructions.len() && 0 <= k < instr_operands(
                spec_fixup_tl(tl, table)->Ok_0->instructions[j],
            ).len() && instr_operands(spec_fixup_tl(tl, table)->Ok_0->instructions[j])[k]
                is Stack && instr_operands(
                spec_fixup_tl(tl, table)->Ok_0->instructions[j],
            )[k]->Stack_0 < 0 ==> -instr_operands(
                spec_fixup_tl(tl, table)->Ok_0->instructions[j],
            )[k]->Stack_0 <= spec_fixup_tl(tl, table)->Ok_0->instructions[0]->src->Imm_0,
{
    let bytes = spec_get(table, tl->Function_name)->Some_0->bytes_required;
    lemma_round16(bytes as int);
    let out = spec_fixup_tl(tl, table)->Ok_0;
    let body = spec_fixup_instrs(tl->instructions);
    lemma_fixup_instrs_operands(tl->instructions);
    assert(forall|j: int| 1 <= j < out->instructions.len() ==> out->instructions[j] == body[j - 1]);
    assert forall|j: int, k: int|
        #![trigger instr_operands(out->instructions[j])[k]]
        1 <= j < out->instructions.len() && 0 <= k < instr_operands(
            out->instructions[j],
        ).len() && instr_operands(out->instructions[j])[k] is Stack && instr_operands(
        out->instructions[j],
    )[k]->Stack_0 < 0 implies -instr_operands(out->instructions[j])[k]->Stack_0
        <= out->instructions[0]->src->Imm_0 by {
        let o = instr_operands(out->instructions[j])[k];
        assert(out->instructions[j] == body[j - 1]);
        assert(!(o is Reg));
        let (j0, k0) = choose|j0: int, k0: int|
            #![trigger instr_operands(tl->instructions[j0])[k0]]
            0 <= j0 < tl->instructions.len() && 0 <= k0 < instr_operands(
                tl->instructions[j0],
            ).len() && instr_operands(tl->instructions[j0])[k0] == o;
        assert(-o->Stack_0 <= bytes);
    }
}

/// Whether an operand is a memory reference.
fn is_mem(o: &Operand) -> (b: bool)
    ensures
        b == is_memory(o@),
{
    match o {
        Operand::Stack(_) => true,
        Operand::Data(_) => true,
        _ => false,
    }
}

/// Rewrites one instruction into a form the assembler accepts.
pub fn fixup_instruction(instruction: Instruction) -> (r: Vec<Instruction>)
    ensures
        instruction_views(r@) == spec_fixup_instruction(instruction@),
{
    let ghost iv = instruction@;
    let r: Vec<Instruction> = match instruction {
        Instruction::Mov(t, src, dst) => {
            let big_imm: bool = match &src {
                Operand::Imm(i) => (*i < -0x8000_0000 || *i > 0x7fff_ffff) && matches!(
                    t,
                    AsmType::Quadword,
                ),
                _ => false,
            };
            if is_mem(&src) && is_mem(&dst) {
                vec![
                    Instruction::Mov(t, src, Operand::Reg(Reg::R10)),
                    Instruction::Mov(t, Operand::Reg(Reg::R10), dst),
                ]
            } else if big_imm && is_mem(&dst) {
                vec![
                    Instruction::Mov(t, src, Operand::Reg(Reg::R10)),
                    Instruction::Mov(t, Operand::Reg(Reg::R10), dst),
                ]
            } else {
                vec![Instruction::Mov(t, src, dst)]
            }
        },
        Instruction::Idiv(t, o) => {
            match o {
                Operand::Imm(i) => vec![
                    Instruction::Mov(t, Operand::Imm(i), Operand::Reg(Reg::R10)),
                    Instruction::Idiv(t, Operand::Reg(Reg::R10)),
                ],
                other => vec![Instruction::Idiv(t, other)],
            }
        },
        Instruction::Binary { op, t, src, dst } => {
            let add_or_sub = matches!(op, BinaryOperator::Add | BinaryOperator::Sub);
            if add_or_sub && is_mem(&src) && is_mem(&dst) {
                vec![
                    Instruction::Mov(t, src, Operand::Reg(Reg::R10)),
                    Instruction::Binary { op, t, src: Operand::Reg(Reg::R10), dst },
                ]
            } else if matches!(op, BinaryOperator::Mult) && is_mem(&dst) {
                vec![
                    Instruction::Mov(t, dst.clone(), Operand::Reg(Reg::R11)),
                    Instruction::Binary { op, t, src, dst: Operand::Reg(Reg::R11) },
                    Instruction::Mov(t, Operand::Reg(Reg::R11), dst),
                ]
            } else {
                vec![Instruction::Binary { op, t, src, dst }]
            }
        },
        Instruction::Cmp(t, src, dst) => {
            if is_mem(&src) && is_mem(&dst) {
                vec![
                    Instruction::Mov(t, src, Operand::Reg(Reg::R10)),
                    Instruction::Cmp(t, Operand::Reg(Reg::R10), dst),
                ]
            } else if matches!(dst, Operand::Imm(_)) {
                vec![
                    Instruction::Mov(t, dst, Operand::Reg(Reg::R11)),
                    Instruction::Cmp(t, src, Operand::Reg(Reg::R11)),
                ]
            } else {
                vec![Instruction::Cmp(t, src, dst)]
            }
        },
        Instruction::Movsx(src, dst) => {
            let src_imm = matches!(src, Operand::Imm(_));
            if src_imm && is_mem(&dst) {
                vec![
                    Instruction::Mov(AsmType::Longword, src, Operand::Reg(Reg::R10)),
                    Instruction::Movsx(Operand::Reg(Reg::R10), Operand::Reg(Reg::R11)),
                    Instruction::Mov(AsmType::Quadword, Operand::Reg(Reg::R11), dst),
                ]
            } else if src_imm {
                vec![
                    Instruction::Mov(AsmType::Longword, src, Operand::Reg(Reg::R10)),
                    Instruction::Movsx(Operand::Reg(Reg::R10), dst),
                ]
            } else if is_mem(&dst) {
                vec![
                    Instruction::Movsx(src, Operand::Reg(Reg::R11)),
                    Instruction::Mov(AsmType::Quadword, Operand::Reg(Reg::R11), dst),
                ]
            } else {
                vec![Instruction::Movsx(src, dst)]
            }
        },
        other => vec![other],
    };
    proof {
        lemma_instruction_views(r@);
        assert(instruction_views(r@) =~= spec_fixup_instruction(iv));
    }
    r
}

/// Rewrites one top-level item; a function receives its prologue's stack
/// allocation, rounded up to a multiple of 16 bytes.
pub fn fixup_tl(tl: TopLevel, table: &AsmSymbolTable) -> (r: Result<TopLevel, CompileError>)
    ensures
        match r {
            Ok(out) => spec_fixup_tl(tl@, table@) == Ok::<TopLevelV, CompileErrorV>(out@),
            Err(e) => spec_fixup_tl(tl@, table@) == Err::<TopLevelV, CompileErrorV>(e@),
        },
{
    let ghost tlv = tl@;
    match tl {
        TopLevel::Function { name, global, instructions } => {
            let entry = table.get_opt(&name);
            match entry {
                Some(Entry::Fun { defined: _, bytes_required }) => {
                    if 0 <= bytes_required && bytes_required <= 0x1000_0000_0000_0000 {
                        let n = round_way_from_zero(16, bytes_required);
                        proof {
                            lemma_round16(bytes_required as int);
                            lemma_mult16_unique(n as int, spec_round16(bytes_required as int));
                        }
                        let mut out: Vec<Instruction> = Vec::new();
                        out.push(
                            Instruction::Binary {
                                op: BinaryOperator::Sub,
                                t: AsmType::Quadword,
                                src: Operand::Imm(n),
                                dst: Operand::Reg(Reg::SP),
                            },
                        );
                        let ghost alloc = InstructionV::Binary {
                            op: BinaryOperator::Sub,
                            t: AsmType::Quadword,
                            src: OperandV::Imm(spec_round16(bytes_required as int) as i64),
                            dst: OperandV::Reg(Reg::SP),
                        };
                        let ghost all = instruction_views(instructions@);
                        proof {
                            lemma_instruction_views(instructions@);
                            lemma_instruction_views(out@);
                            assert(instruction_views(out@) =~= seq![alloc] + spec_fixup_instrs(
                                all.subrange(0, 0),
                            ));
                        }
                        let mut i: usize = 0;
                        while i < instructions.len()
                            invariant
                                i <= instructions.len(),
                                instruction_views(out@) == seq![alloc] + spec_fixup_instrs(
                                    all.subrange(0, i as int),
                                ),
                            decreases instructions.len() - i,
                        {
                            let mut fixed = fixup_instruction(instructions[i].clone());
                            let ghost out_before = out@;
                            let ghost fixed_v = fixed@;
                            out.append(&mut fixed);
                            proof {
                                lemma_instruction_views(out@);
                                lemma_instruction_views(out_before);
                                lemma_instruction_views(fixed_v);
                                assert(instruction_views(out@) =~= instruction_views(out_before)
                                    + instruction_views(fixed_v));
                                assert(all.subrange(0, i + 1).drop_last() =~= all.subrange(
                                    0,
                                    i as int,
                                ));
                                assert(all.subrange(0, i + 1).last() == instructions@[i as int]@);
                                assert(instruction_views(out@) =~= seq![alloc] + spec_fixup_instrs(
                                    all.subrange(0, i + 1),
                                ));
                            }
                            i += 1;
                        }
                        proof {
                            assert(all.subrange(0, instructions@.len() as int) =~= all);
                        }
                        Ok(TopLevel::Function { name, global, instructions: out })
                    } else {
                        Err(CompileError::Internal)
                    }
                },
                _ => Err(CompileError::Internal),
            }
        },
        static_var => Ok(static_var),
    }
}

/// Rewrites a whole program so that every instruction is in a form the
/// assembler accepts and every function allocates its rounded stack frame.
pub fn fixup_program(program: T, table: &AsmSymbolTable) -> (r: Result<T, CompileError>)
    ensures
        match r {
            Ok(out) => {
                &&& program@ matches TV::Program(tls)
                &&& out@ matches TV::Program(fixed) && spec_fixup_program(tls, table@)
                    == Ok::<Seq<TopLevelV>, CompileErrorV>(fixed)
            },
            Err(e) => {
                &&& program@ matches TV::Program(tls)
                &&& spec_fixup_program(tls, table@) == Err::<Seq<TopLevelV>, CompileErrorV>(e@)
            },
        },
{
    match program {
        T::Program(tls) => {
            let ghost all = top_level_views(tls@);
            let mut out: Vec<TopLevel> = Vec::new();
            proof {
                lemma_top_level_views(tls@);
                lemma_top_level_views(out@);
                assert(top_level_views(out@) =~= Seq::<TopLevelV>::empty());
                assert(all.subrange(0, 0) =~= Seq::<TopLevelV>::empty());
            }
            let mut i: usize = 0;
            while i < tls.len()
                invariant
                    i <= tls.len(),
                    spec_fixup_program(all.subrange(0, i as int), table@) == Ok::<
                        Seq<TopLevelV>,
                        CompileErrorV,
                    >(top_level_views(out@)),
                decreases tls.len() - i,
            {
                proof {
                    lemma_top_level_views(tls@);
                }
                let tl = fixup_tl(tls[i].clone(), table);
                match tl {
                    Ok(t) => {
                        let ghost out_before = out@;
                        out.push(t);
                        proof {
                            lemma_top_level_views(out@);
                            lemma_top_level_views(out_before);
                            assert(top_level_views(out@) =~= top_level_views(out_before).push(t@));
                            assert(all.subrange(0, i + 1).drop_last() =~= all.subrange(0, i as int));
                            assert(all.subrange(0, i + 1).last() == tls@[i as int]@);
                        }
                    },
                    Err(e) => {
                        proof {
                            assert(all.subrange(0, i + 1).drop_last() =~= all.subrange(0, i as int));
                            assert(all.subrange(0, i + 1).last() == tls@[i as int]@);
                            assert(spec_fixup_program(all.subrange(0, i + 1), table@) == Err::<
                                Seq<TopLevelV>,
                                CompileErrorV,
                            >(e@));
                            lemma_fixup_program_err(all, table@, i + 1);
                        }
                        return Err(e);
                    },
                }
                i += 1;
            }
            proof {
                assert(all.subrange(0, tls@.len() as int) =~= all);
            }
            Ok(T::Program(out))
        },
    }
}

} // verus!
