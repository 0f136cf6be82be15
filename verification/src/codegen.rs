//! Instruction selection: IR to virtual-register assembly, using the
//! System V integer-argument convention.

use crate::assembly;
use crate::assembly::{
    instruction_views, lemma_instruction_views, top_level_views, AsmType, CondCode, InstructionV,
    OperandV, Reg, TopLevelV,
};
use crate::assembly_symbols::AsmSymbolTable;
use crate::constants;
use crate::errors::{CompileError, CompileErrorV};
use crate::ir;
use crate::ir::{ir_value_views, lemma_ir_value_views, IrValue, IrValueV};
use crate::symbols::{EntryV, IdentifierAttrs, SymbolTable};
use crate::table::spec_get;
use crate::text::{lemma_string_views, string_views};
use crate::types::TypeV;
use vstd::prelude::*;

verus! {

/// The symbol table's model, as instruction selection reads it.
pub type SymTableV = Seq<(Seq<char>, EntryV)>;

/// The assembly symbol table's model.
pub type AsmTableV = Seq<(Seq<char>, crate::assembly_symbols::Entry)>;

/// The register carrying integer argument `i`.
pub open spec fn spec_param_reg(i: int) -> Reg {
    if i == 0 {
        Reg::DI
    } else if i == 1 {
        Reg::SI
    } else if i == 2 {
        Reg::DX
    } else if i == 3 {
        Reg::CX
    } else if i == 4 {
        Reg::R8
    } else {
        Reg::R9
    }
}

/// The largest argument or parameter list instruction selection accepts.
pub open spec fn max_args() -> int {
    0x10_0000
}

/// The operand of an IR value: constants become immediates, variables
/// become pseudo registers.
pub open spec fn spec_convert_val(v: IrValueV) -> OperandV {
    match v {
        IrValueV::Constant(constants::T::ConstInt(i)) => OperandV::Imm(i as i64),
        IrValueV::Constant(constants::T::ConstLong(i)) => OperandV::Imm(i),
        IrValueV::Var(name) => OperandV::Pseudo(name),
    }
}

/// The assembly width of a scalar type.
pub open spec fn spec_convert_type(t: TypeV) -> Result<AsmType, CompileErrorV> {
    match t {
        TypeV::Int => Ok(AsmType::Longword),
        TypeV::Long => Ok(AsmType::Quadword),
        _ => Err(CompileErrorV::Internal),
    }
}

/// The assembly width of an IR value: a constant by its tag, never by
/// its magnitude; a variable by its recorded type.
pub open spec fn spec_asm_type(v: IrValueV, table: SymTableV) -> Result<
    AsmType,
    CompileErrorV,
> {
    match v {
        IrValueV::Constant(constants::T::ConstInt(_)) => Ok(AsmType::Longword),
        IrValueV::Constant(constants::T::ConstLong(_)) => Ok(AsmType::Quadword),
        IrValueV::Var(name) => match spec_get(table, name) {
            Some(e) => spec_convert_type(e.t),
            None => Err(CompileErrorV::Internal),
        },
    }
}

/// A `long` constant keeps quadword width whatever its magnitude, and
/// an `int` constant keeps longword width: the width comes from the
/// token's tag, never from the value.
pub proof fn lemma_constant_width_by_tag(i: i64, j: i32, table: SymTableV)
    ensures
        spec_asm_type(IrValueV::Constant(constants::T::ConstLong(i)), table) == Ok::<
            AsmType,
            CompileErrorV,
        >(AsmType::Quadword),
        spec_asm_type(IrValueV::Constant(constants::T::ConstInt(j)), table) == Ok::<
            AsmType,
            CompileErrorV,
        >(AsmType::Longword),
{
}

/// A variable's width comes from its recorded type: longword for `int`,
/// quadword for `long`.
pub proof fn lemma_var_width_by_type(n: Seq<char>, table: SymTableV)
    ensures
        spec_get(table, n) matches Some(e) && e.t == TypeV::Int ==> spec_asm_type(
            IrValueV::Var(n),
            table,
        ) == Ok::<AsmType, CompileErrorV>(AsmType::Longword),
        spec_get(table, n) matches Some(e) && e.t == TypeV::Long ==> spec_asm_type(
            IrValueV::Var(n),
            table,
        ) == Ok::<AsmType, CompileErrorV>(AsmType::Quadword),
{
}

/// The seventh and later arguments go to the stack, pushed right to
/// left: the lowered call pushes the last argument first, and the sixth
/// argument's register move targets `R9`.
pub proof fn lemma_stack_args_reverse_order(args: Seq<IrValueV>, table: SymTableV, k: int)
    requires
        6 <= k < args.len() - 1,
    ensures
        spec_stack_pushes_from(args, k, table) matches Ok(pushes) ==> spec_stack_pushes_from(
            args,
            k + 1,
            table,
        ) matches Ok(rest) && spec_push_one(args[k], table) matches Ok(own) && pushes == rest + own,
        spec_reg_arg_moves(args.subrange(0, 6), table) matches Ok(moves) ==> moves.len() == 6
            && moves[5] matches InstructionV::Mov(_, _, OperandV::Reg(Reg::R9)),
{
    if spec_reg_arg_moves(args.subrange(0, 6), table) is Ok {
        let rs = args.subrange(0, 6);
        assert(spec_reg_arg_moves(rs, table)->Ok_0.len() == 6) by {
            lemma_reg_arg_moves_len(rs, table);
        }
        lemma_reg_arg_moves_len(rs.drop_last(), table);
    }
}

/// Each register move list has one move per argument: the `i`-th is the
/// `i`-th argument's operand moved into the register of position `i`, at
/// the argument's own width.
pub proof fn lemma_reg_arg_moves_pointwise(args: Seq<IrValueV>, table: SymTableV)
    ensures
        spec_reg_arg_moves(args, table) matches Ok(moves) ==> moves.len() == args.len() && forall|
            i: int,
        |
            0 <= i < args.len() ==> #[trigger] moves[i] == InstructionV::Mov(
                spec_asm_type(args[i], table)->Ok_0,
                spec_convert_val(args[i]),
                OperandV::Reg(spec_param_reg(i)),
            ) && spec_asm_type(args[i], table) is Ok,
    decreases args,
{
    if args.len() > 0 && spec_reg_arg_moves(args, table) is Ok {
        lemma_reg_arg_moves_pointwise(args.drop_last(), table);
        match spec_reg_arg_moves(args.drop_last(), table) {
            Ok(done) => {
                let moves = spec_reg_arg_moves(args, table)->Ok_0;
                assert(forall|i: int| 0 <= i < done.len() ==> moves[i] == done[i]);
                assert(forall|i: int|
                    0 <= i < args.len() - 1 ==> args.drop_last()[i] == args[i]);
            },
            _ => {},
        }
    }
}

/// Each register move list has one move per argument, the last into the
/// register of its position.
proof fn lemma_reg_arg_moves_len(args: Seq<IrValueV>, table: SymTableV)
    ensures
        spec_reg_arg_moves(args, table) matches Ok(moves) ==> moves.len() == args.len() && (
        args.len() > 0 ==> (moves.last() matches InstructionV::Mov(
            _,
            _,
            OperandV::Reg(r),
        ) && r == spec_param_reg(args.len() - 1))),
    decreases args,
{
    if args.len() > 0 && spec_reg_arg_moves(args, table) is Ok {
        lemma_reg_arg_moves_len(args.drop_last(), table);
    }
}

/// The assembly operator of an arithmetic IR operator.
pub open spec fn spec_convert_binop(op: ir::BinaryOperator) -> Result<
    assembly::BinaryOperator,
    CompileErrorV,
> {
    match op {
        ir::BinaryOperator::Add => Ok(assembly::BinaryOperator::Add),
        ir::BinaryOperator::Subtract => Ok(assembly::BinaryOperator::Sub),
        ir::BinaryOperator::Multiply => Ok(assembly::BinaryOperator::Mult),
        _ => Err(CompileErrorV::Internal),
    }
}

/// The condition code of a relational IR operator.
pub open spec fn spec_convert_cond_code(op: ir::BinaryOperator) -> Result<
    CondCode,
    CompileErrorV,
> {
    match op {
        ir::BinaryOperator::Equal => Ok(CondCode::E),
        ir::BinaryOperator::NotEqual => Ok(CondCode::NE),
        ir::BinaryOperator::GreaterThan => Ok(CondCode::G),
        ir::BinaryOperator::GreaterOrEqual => Ok(CondCode::GE),
        ir::BinaryOperator::LessThan => Ok(CondCode::L),
        ir::BinaryOperator::LessOrEqual => Ok(CondCode::LE),
        _ => Err(CompileErrorV::Internal),
    }
}

/// Whether a relational operator compares rather than computes.
pub open spec fn is_relational(op: ir::BinaryOperator) -> bool {
    op == ir::BinaryOperator::Equal || op == ir::BinaryOperator::NotEqual || op
        == ir::BinaryOperator::GreaterThan || op == ir::BinaryOperator::GreaterOrEqual || op
        == ir::BinaryOperator::LessThan || op == ir::BinaryOperator::LessOrEqual
}

/// The register moves of the first six call arguments, in order.
pub open spec fn spec_reg_arg_moves(args: Seq<IrValueV>, table: SymTableV) -> Result<
    Seq<InstructionV>,
    CompileErrorV,
>
    decreases args,
{
    if args.len() == 0 {
        Ok(Seq::empty())
    } else {
        match spec_reg_arg_moves(args.drop_last(), table) {
            Err(e) => Err(e),
            Ok(done) => match spec_asm_type(args.last(), table) {
                Err(e) => Err(e),
                Ok(t) => Ok(
                    done.push(
                        InstructionV::Mov(
                            t,
                            spec_convert_val(args.last()),
                            OperandV::Reg(spec_param_reg(args.len() - 1)),
                        ),
                    ),
                ),
            },
        }
    }
}

/// The pushes of one stack argument: an immediate or register pushes
/// directly; a quadword memory value pushes directly; a longword value
/// moves through `AX` first so the push reads no bytes past it.
pub open spec fn spec_push_one(arg: IrValueV, table: SymTableV) -> Result<
    Seq<InstructionV>,
    CompileErrorV,
> {
    let op = spec_convert_val(arg);
    match op {
        OperandV::Imm(_) => Ok(seq![InstructionV::Push(op)]),
        OperandV::Reg(_) => Ok(seq![InstructionV::Push(op)]),
        _ => match spec_asm_type(arg, table) {
            Err(e) => Err(e),
            Ok(t) => if t == AsmType::Quadword {
                Ok(seq![InstructionV::Push(op)])
            } else {
                Ok(
                    seq![
                        InstructionV::Mov(t, op, OperandV::Reg(Reg::AX)),
                        InstructionV::Push(OperandV::Reg(Reg::AX)),
                    ],
                )
            },
        },
    }
}

/// The pushes of the stack arguments `args[k..]`, pushed right to left.
pub open spec fn spec_stack_pushes_from(args: Seq<IrValueV>, k: int, table: SymTableV) -> Result<
    Seq<InstructionV>,
    CompileErrorV,
>
    decreases args.len() - k,
{
    if k < 0 || k >= args.len() {
        Ok(Seq::empty())
    } else {
        match spec_stack_pushes_from(args, k + 1, table) {
            Err(e) => Err(e),
            Ok(done) => match spec_push_one(args[k], table) {
                Err(e) => Err(e),
                Ok(step) => Ok(done + step),
            },
        }
    }
}

/// The lowering of a call: pad the stack to sixteen bytes, load the
/// first six arguments into registers, push the rest right to left, call,
/// pop the stack arguments and padding, and copy the result out of `AX`.
pub open spec fn spec_convert_function_call(
    f: Seq<char>,
    args: Seq<IrValueV>,
    dst: IrValueV,
    table: SymTableV,
) -> Result<Seq<InstructionV>, CompileErrorV> {
    if args.len() > max_args() {
        Err(CompileErrorV::Internal)
    } else {
        let reg_args = if args.len() <= 6 {
            args
        } else {
            args.subrange(0, 6)
        };
        let stack_arg_count = if args.len() <= 6 {
            0int
        } else {
            args.len() - 6
        };
        let padding: int = if stack_arg_count % 2 == 0 {
            0
        } else {
            8
        };
        let pad_instrs: Seq<InstructionV> = if padding == 0 {
            Seq::empty()
        } else {
            seq![
                InstructionV::Binary {
                    op: assembly::BinaryOperator::Sub,
                    t: AsmType::Quadword,
                    src: OperandV::Imm(padding as i64),
                    dst: OperandV::Reg(Reg::SP),
                },
            ]
        };
        match spec_reg_arg_moves(reg_args, table) {
            Err(e) => Err(e),
            Ok(moves) => match spec_stack_pushes_from(args, 6, table) {
                Err(e) => Err(e),
                Ok(pushes) => {
                    let bytes_to_remove = 8 * stack_arg_count + padding;
                    let dealloc: Seq<InstructionV> = if bytes_to_remove == 0 {
                        Seq::empty()
                    } else {
                        seq![
                            InstructionV::Binary {
                                op: assembly::BinaryOperator::Add,
                                t: AsmType::Quadword,
                                src: OperandV::Imm(bytes_to_remove as i64),
                                dst: OperandV::Reg(Reg::SP),
                            },
                        ]
                    };
                    match spec_asm_type(dst, table) {
                        Err(e) => Err(e),
                        Ok(dst_t) => Ok(
                            pad_instrs + moves + pushes + seq![InstructionV::Call(f)] + dealloc
                                + seq![
                                InstructionV::Mov(
                                    dst_t,
                                    OperandV::Reg(Reg::AX),
                                    spec_convert_val(dst),
                                ),
                            ],
                        ),
                    }
                },
            },
        }
    }
}

/// The lowering of one IR instruction.
pub open spec fn spec_convert_instruction(instr: ir::InstructionV, table: SymTableV) -> Result<
    Seq<InstructionV>,
    CompileErrorV,
> {
    match instr {
        ir::InstructionV::Copy { src, dst } => {
            match spec_asm_type(src, table) {
                Err(e) => Err(e),
                Ok(t) => Ok(
                    seq![InstructionV::Mov(t, spec_convert_val(src), spec_convert_val(dst))],
                ),
            }
        },
        ir::InstructionV::Return(v) => {
            match spec_asm_type(v, table) {
                Err(e) => Err(e),
                Ok(t) => Ok(
                    seq![
                        InstructionV::Mov(t, spec_convert_val(v), OperandV::Reg(Reg::AX)),
                        InstructionV::Ret,
                    ],
                ),
            }
        },
        ir::InstructionV::Unary { op: ir::UnaryOperator::Not, src, dst } => {
            match spec_asm_type(src, table) {
                Err(e) => Err(e),
                Ok(src_t) => match spec_asm_type(dst, table) {
                    Err(e) => Err(e),
                    Ok(dst_t) => Ok(
                        seq![
                            InstructionV::Cmp(src_t, OperandV::Imm(0), spec_convert_val(src)),
                            InstructionV::Mov(dst_t, OperandV::Imm(0), spec_convert_val(dst)),
                            InstructionV::SetCC(CondCode::E, spec_convert_val(dst)),
                        ],
                    ),
                },
            }
        },
        ir::InstructionV::Unary { op, src, dst } => {
            let asm_op = if op == ir::UnaryOperator::Complement {
                assembly::UnaryOperator::Not
            } else {
                assembly::UnaryOperator::Neg
            };
            match spec_asm_type(src, table) {
                Err(e) => Err(e),
                Ok(t) => Ok(
                    seq![
                        InstructionV::Mov(t, spec_convert_val(src), spec_convert_val(dst)),
                        InstructionV::Unary(asm_op, t, spec_convert_val(dst)),
                    ],
                ),
            }
        },
        ir::InstructionV::Binary { op, src1, src2, dst } => {
            match spec_asm_type(src1, table) {
                Err(e) => Err(e),
                Ok(src_t) => {
                    if is_relational(op) {
                        match spec_asm_type(dst, table) {
                            Err(e) => Err(e),
                            Ok(dst_t) => match spec_convert_cond_code(op) {
                                Err(e) => Err(e),
                                Ok(cc) => Ok(
                                    seq![
                                        InstructionV::Cmp(
                                            src_t,
                                            spec_convert_val(src2),
                                            spec_convert_val(src1),
                                        ),
                                        InstructionV::Mov(
                                            dst_t,
                                            OperandV::Imm(0),
                                            spec_convert_val(dst),
                                        ),
                                        InstructionV::SetCC(cc, spec_convert_val(dst)),
                                    ],
                                ),
                            },
                        }
                    } else if op == ir::BinaryOperator::Divide || op == ir::BinaryOperator::Mod {
                        let result_reg = if op == ir::BinaryOperator::Divide {
                            Reg::AX
                        } else {
                            Reg::DX
                        };
                        Ok(
                            seq![
                                InstructionV::Mov(
                                    src_t,
                                    spec_convert_val(src1),
                                    OperandV::Reg(Reg::AX),
                                ),
                                InstructionV::Cdq(src_t),
                                InstructionV::Idiv(src_t, spec_convert_val(src2)),
                                InstructionV::Mov(
                                    src_t,
                                    OperandV::Reg(result_reg),
                                    spec_convert_val(dst),
                                ),
                            ],
                        )
                    } else {
                        match spec_convert_binop(op) {
                            Err(e) => Err(e),
                            Ok(asm_op) => Ok(
                                seq![
                                    InstructionV::Mov(
                                        src_t,
                                        spec_convert_val(src1),
                                        spec_convert_val(dst),
                                    ),
                                    InstructionV::Binary {
                                        op: asm_op,
                                        t: src_t,
                                        src: spec_convert_val(src2),
                                        dst: spec_convert_val(dst),
                                    },
                                ],
                            ),
                        }
                    }
                },
            }
        },
        ir::InstructionV::Jump(target) => Ok(seq![InstructionV::Jmp(target)]),
        ir::InstructionV::JumpIfZero(cond, target) => {
            match spec_asm_type(cond, table) {
                Err(e) => Err(e),
                Ok(t) => Ok(
                    seq![
                        InstructionV::Cmp(t, OperandV::Imm(0), spec_convert_val(cond)),
                        InstructionV::JmpCC(CondCode::E, target),
                    ],
                ),
            }
        },
        ir::InstructionV::JumpIfNotZero(cond, target) => {
            match spec_asm_type(cond, table) {
                Err(e) => Err(e),
                Ok(t) => Ok(
                    seq![
                        InstructionV::Cmp(t, OperandV::Imm(0), spec_convert_val(cond)),
                        InstructionV::JmpCC(CondCode::NE, target),
                    ],
                ),
            }
        },
        ir::InstructionV::Label(l) => Ok(seq![InstructionV::Label(l)]),
        ir::InstructionV::FunCall { f, args, dst } => spec_convert_function_call(
            f,
            args,
            dst,
            table,
        ),
        ir::InstructionV::SignExtend { src, dst } => Ok(
            seq![InstructionV::Movsx(spec_convert_val(src), spec_convert_val(dst))],
        ),
        ir::InstructionV::Truncate { src, dst } => Ok(
            seq![
                InstructionV::Mov(
                    AsmType::Longword,
                    spec_convert_val(src),
                    spec_convert_val(dst),
                ),
            ],
        ),
    }
}

/// The lowering of an instruction sequence, in order.
pub open spec fn spec_convert_instrs(instrs: Seq<ir::InstructionV>, table: SymTableV) -> Result<
    Seq<InstructionV>,
    CompileErrorV,
>
    decreases instrs,
{
    if instrs.len() == 0 {
        Ok(Seq::empty())
    } else {
        match spec_convert_instrs(instrs.drop_last(), table) {
            Err(e) => Err(e),
            Ok(done) => match spec_convert_instruction(instrs.last(), table) {
                Err(e) => Err(e),
                Ok(step) => Ok(done + step),
            },
        }
    }
}

/// The moves that receive the parameters: the first six from registers,
/// the rest from the caller's frame above the return address.
pub open spec fn spec_pass_params(params: Seq<Seq<char>>, table: SymTableV) -> Result<
    Seq<InstructionV>,
    CompileErrorV,
>
    decreases params,
{
    if params.len() == 0 {
        Ok(Seq::empty())
    } else {
        match spec_pass_params(params.drop_last(), table) {
            Err(e) => Err(e),
            Ok(done) => {
                let i = params.len() - 1;
                match spec_asm_type(IrValueV::Var(params.last()), table) {
                    Err(e) => Err(e),
                    Ok(t) => {
                        let src: OperandV = if i < 6 {
                            OperandV::Reg(spec_param_reg(i))
                        } else {
                            OperandV::Stack((16 + 8 * (i - 6)) as i64)
                        };
                        Ok(done.push(InstructionV::Mov(t, src, OperandV::Pseudo(params.last()))))
                    },
                }
            },
        }
    }
}

/// The lowering of one top-level item.
pub open spec fn spec_convert_top_level(tl: ir::TopLevelV, table: SymTableV) -> Result<
    TopLevelV,
    CompileErrorV,
> {
    match tl {
        ir::TopLevelV::Function { name, global, params, body } => {
            if params.len() > max_args() {
                Err(CompileErrorV::Internal)
            } else {
                match spec_pass_params(params, table) {
                    Err(e) => Err(e),
                    Ok(prologue) => match spec_convert_instrs(body, table) {
                        Err(e) => Err(e),
                        Ok(instrs) => Ok(
                            TopLevelV::Function { name, global, instructions: prologue + instrs },
                        ),
                    },
                }
            }
        },
        ir::TopLevelV::StaticVariable { name, t, global, init } => {
            match t {
                TypeV::Int => Ok(
                    TopLevelV::StaticVariable { name, alignment: 4, global, init },
                ),
                TypeV::Long => Ok(
                    TopLevelV::StaticVariable { name, alignment: 8, global, init },
                ),
                _ => Err(CompileErrorV::Internal),
            }
        },
    }
}

/// The lowering of the top-level items, in order.
pub open spec fn spec_convert_top_levels(tls: Seq<ir::TopLevelV>, table: SymTableV) -> Result<
    Seq<TopLevelV>,
    CompileErrorV,
>
    decreases tls,
{
    if tls.len() == 0 {
        Ok(Seq::empty())
    } else {
        match spec_convert_top_levels(tls.drop_last(), table) {
            Err(e) => Err(e),
            Ok(done) => match spec_convert_top_level(tls.last(), table) {
                Err(e) => Err(e),
                Ok(tl) => Ok(done.push(tl)),
            },
        }
    }
}

/// One symbol carried into the assembly symbol table: a function with
/// whether it is defined; a static variable as a static object; a local
/// as a stack object.
pub open spec fn spec_convert_symbol(
    name: Seq<char>,
    e: EntryV,
    asm_table: AsmTableV,
) -> Result<AsmTableV, CompileErrorV> {
    match e.attrs {
        IdentifierAttrs::FunAttr { defined, global: _, stack_frame_size: _ } => Ok(
            crate::table::spec_insert(
                asm_table,
                name,
                crate::assembly_symbols::Entry::Fun { defined, bytes_required: 0 },
            ),
        ),
        IdentifierAttrs::StaticAttr { .. } => {
            match spec_convert_type(e.t) {
                Err(err) => Err(err),
                Ok(t) => Ok(
                    crate::table::spec_insert(
                        asm_table,
                        name,
                        crate::assembly_symbols::Entry::Obj { t, is_static: true },
                    ),
                ),
            }
        },
        IdentifierAttrs::LocalAttr => {
            match spec_convert_type(e.t) {
                Err(err) => Err(err),
                Ok(t) => Ok(
                    crate::table::spec_insert(
                        asm_table,
                        name,
                        crate::assembly_symbols::Entry::Obj { t, is_static: false },
                    ),
                ),
            }
        },
    }
}

/// The assembly symbol table derived from the symbol table's bindings,
/// in order.
pub open spec fn spec_convert_symbols(bindings: SymTableV, asm_table: AsmTableV) -> Result<
    AsmTableV,
    CompileErrorV,
>
    decreases bindings,
{
    if bindings.len() == 0 {
        Ok(asm_table)
    } else {
        match spec_convert_symbols(bindings.drop_last(), asm_table) {
            Err(e) => Err(e),
            Ok(table1) => spec_convert_symbol(bindings.last().0, bindings.last().1, table1),
        }
    }
}

/// The whole pass: lower every top-level item, then derive the assembly
/// symbol table from the symbol table.
pub open spec fn spec_gen(p: ir::TV, table: SymTableV, asm_table: AsmTableV) -> Result<
    (crate::assembly::TV, AsmTableV),
    CompileErrorV,
> {
    match p {
        ir::TV::Program(tls) => match spec_convert_top_levels(tls, table) {
            Err(e) => Err(e),
            Ok(out) => match spec_convert_symbols(table, asm_table) {
                Err(e) => Err(e),
                Ok(asm1) => Ok((crate::assembly::TV::Program(out), asm1)),
            },
        },
    }
}

/// Once a prefix fails, the whole instruction sequence fails the same way.
proof fn lemma_convert_instrs_err(instrs: Seq<ir::InstructionV>, table: SymTableV, i: int)
    requires
        0 <= i <= instrs.len(),
        spec_convert_instrs(instrs.subrange(0, i), table) is Err,
    ensures
        spec_convert_instrs(instrs, table) == spec_convert_instrs(instrs.subrange(0, i), table),
    decreases instrs.len() - i,
{
    if i < instrs.len() {
        assert(instrs.subrange(0, i + 1).drop_last() =~= instrs.subrange(0, i));
        lemma_convert_instrs_err(instrs, table, i + 1);
    } else {
        assert(instrs.subrange(0, i) =~= instrs);
    }
}

/// Once a prefix fails, the register moves fail the same way.
proof fn lemma_reg_arg_moves_err(args: Seq<IrValueV>, table: SymTableV, i: int)
    requires
        0 <= i <= args.len(),
        spec_reg_arg_moves(args.subrange(0, i), table) is Err,
    ensures
        spec_reg_arg_moves(args, table) == spec_reg_arg_moves(args.subrange(0, i), table),
    decreases args.len() - i,
{
    if i < args.len() {
        assert(args.subrange(0, i + 1).drop_last() =~= args.subrange(0, i));
        lemma_reg_arg_moves_err(args, table, i + 1);
    } else {
        assert(args.subrange(0, i) =~= args);
    }
}

/// Once a later push fails, the pushes from an earlier index fail the
/// same way.
proof fn lemma_stack_pushes_err(args: Seq<IrValueV>, table: SymTableV, k: int, i: int)
    requires
        0 <= k <= i,
        spec_stack_pushes_from(args, i, table) is Err,
    ensures
        spec_stack_pushes_from(args, k, table) == spec_stack_pushes_from(args, i, table),
    decreases i - k,
{
    if k < i {
        lemma_stack_pushes_err(args, table, k + 1, i);
    }
}

/// Once a prefix fails, the parameter moves fail the same way.
proof fn lemma_pass_params_err(params: Seq<Seq<char>>, table: SymTableV, i: int)
    requires
        0 <= i <= params.len(),
        spec_pass_params(params.subrange(0, i), table) is Err,
    ensures
        spec_pass_params(params, table) == spec_pass_params(params.subrange(0, i), table),
    decreases params.len() - i,
{
    if i < params.len() {
        assert(params.subrange(0, i + 1).drop_last() =~= params.subrange(0, i));
        lemma_pass_params_err(params, table, i + 1);
    } else {
        assert(params.subrange(0, i) =~= params);
    }
}

/// Once a prefix fails, the top-level lowering fails the same way.
proof fn lemma_convert_top_levels_err(tls: Seq<ir::TopLevelV>, table: SymTableV, i: int)
    requires
        0 <= i <= tls.len(),
        spec_convert_top_levels(tls.subrange(0, i), table) is Err,
    ensures
        spec_convert_top_levels(tls, table) == spec_convert_top_levels(tls.subrange(0, i), table),
    decreases tls.len() - i,
{
    if i < tls.len() {
        assert(tls.subrange(0, i + 1).drop_last() =~= tls.subrange(0, i));
        lemma_convert_top_levels_err(tls, table, i + 1);
    } else {
        assert(tls.subrange(0, i) =~= tls);
    }
}

/// Once a prefix fails, the symbol walk fails the same way.
proof fn lemma_convert_symbols_err(bindings: SymTableV, asm_table: AsmTableV, i: int)
    requires
        0 <= i <= bindings.len(),
        spec_convert_symbols(bindings.subrange(0, i), asm_table) is Err,
    ensures
        spec_convert_symbols(bindings, asm_table) == spec_convert_symbols(
            bindings.subrange(0, i),
            asm_table,
        ),
    decreases bindings.len() - i,
{
    if i < bindings.len() {
        assert(bindings.subrange(0, i + 1).drop_last() =~= bindings.subrange(0, i));
        lemma_convert_symbols_err(bindings, asm_table, i + 1);
    } else {
        assert(bindings.subrange(0, i) =~= bindings);
    }
}

/// Whether an instruction stream references no stack slot below the
/// frame base: every `Stack` operand has a nonnegative offset.
pub open spec fn no_negative_stack(instrs: Seq<InstructionV>) -> bool {
    forall|j: int, k: int|
        #![trigger crate::assembly::instr_operands(instrs[j])[k]]
        0 <= j < instrs.len() && 0 <= k < crate::assembly::instr_operands(instrs[j]).len()
            && crate::assembly::instr_operands(instrs[j])[k] is Stack
            ==> crate::assembly::instr_operands(instrs[j])[k]->Stack_0 >= 0
}

/// The parameter moves reference the caller's frame only at or above the
/// return address: every stack operand they make is at `+16` or higher.
proof fn lemma_pass_params_no_negative_stack(params: Seq<Seq<char>>, table: SymTableV)
    requires
        params.len() <= max_args(),
    ensures
        spec_pass_params(params, table) matches Ok(instrs) ==> no_negative_stack(instrs),
    decreases params,
{
    if params.len() > 0 && spec_pass_params(params, table) is Ok {
        lemma_pass_params_no_negative_stack(params.drop_last(), table);
        let done = spec_pass_params(params.drop_last(), table)->Ok_0;
        let out = spec_pass_params(params, table)->Ok_0;
        assert(forall|j: int| 0 <= j < done.len() ==> out[j] == done[j]);
    }
}

/// The register moves of a call's arguments reference no stack slot.
proof fn lemma_reg_arg_moves_no_stack(args: Seq<IrValueV>, table: SymTableV)
    ensures
        spec_reg_arg_moves(args, table) matches Ok(moves) ==> no_negative_stack(moves),
    decreases args,
{
    if args.len() > 0 && spec_reg_arg_moves(args, table) is Ok {
        lemma_reg_arg_moves_no_stack(args.drop_last(), table);
        let done = spec_reg_arg_moves(args.drop_last(), table)->Ok_0;
        let out = spec_reg_arg_moves(args, table)->Ok_0;
        assert(forall|j: int| 0 <= j < done.len() ==> out[j] == done[j]);
    }
}

/// The pushes of a call's stack arguments reference no stack slot.
proof fn lemma_stack_pushes_no_stack(args: Seq<IrValueV>, k: int, table: SymTableV)
    ensures
        spec_stack_pushes_from(args, k, table) matches Ok(pushes) ==> no_negative_stack(pushes),
    decreases args.len() - k,
{
    if 0 <= k < args.len() && spec_stack_pushes_from(args, k, table) is Ok {
        lemma_stack_pushes_no_stack(args, k + 1, table);
        let done = spec_stack_pushes_from(args, k + 1, table)->Ok_0;
        let out = spec_stack_pushes_from(args, k, table)->Ok_0;
        assert(forall|j: int| 0 <= j < done.len() ==> out[j] == done[j]);
        assert(forall|j: int|
            done.len() <= j < out.len() ==> out[j] == spec_push_one(args[k], table)->Ok_0[j
                - done.len()]);
    }
}

/// A lowered call references no stack slot.
proof fn lemma_call_no_stack(f: Seq<char>, args: Seq<IrValueV>, dst: IrValueV, table: SymTableV)
    ensures
        spec_convert_function_call(f, args, dst, table) matches Ok(instrs) ==> no_negative_stack(
            instrs,
        ),
{
    if spec_convert_function_call(f, args, dst, table) is Ok {
        let reg_args = if args.len() <= 6 {
            args
        } else {
            args.subrange(0, 6)
        };
        lemma_reg_arg_moves_no_stack(reg_args, table);
        lemma_stack_pushes_no_stack(args, 6, table);
    }
}

/// A lowered instruction references no stack slot.
proof fn lemma_convert_instruction_no_stack(instr: ir::InstructionV, table: SymTableV)
    ensures
        spec_convert_instruction(instr, table) matches Ok(instrs) ==> no_negative_stack(instrs),
{
    match instr {
        ir::InstructionV::FunCall { f, args, dst } => {
            lemma_call_no_stack(f, args, dst, table);
        },
        _ => {},
    }
}

/// A lowered instruction stream references no stack slot.
proof fn lemma_convert_instrs_no_stack(instrs: Seq<ir::InstructionV>, table: SymTableV)
    ensures
        spec_convert_instrs(instrs, table) matches Ok(out) ==> no_negative_stack(out),
    decreases instrs,
{
    if instrs.len() > 0 && spec_convert_instrs(instrs, table) is Ok {
        lemma_convert_instrs_no_stack(instrs.drop_last(), table);
        lemma_convert_instruction_no_stack(instrs.last(), table);
        let done = spec_convert_instrs(instrs.drop_last(), table)->Ok_0;
        let step = spec_convert_instruction(instrs.last(), table)->Ok_0;
        let out = spec_convert_instrs(instrs, table)->Ok_0;
        assert(forall|j: int| 0 <= j < done.len() ==> out[j] == done[j]);
        assert(forall|j: int| done.len() <= j < out.len() ==> out[j] == step[j - done.len()]);
    }
}

/// A lowered function never references a stack slot below the frame
/// base: the only stack operands instruction selection makes receive the
/// seventh and later parameters from the caller's frame, at `+16` and
/// above.  Pseudo replacement is what hands out the negative offsets.
pub proof fn lemma_convert_top_level_no_negative_stack(tl: ir::TopLevelV, table: SymTableV)
    ensures
        spec_convert_top_level(tl, table) matches Ok(out) ==> (out is Function
            ==> no_negative_stack(out->instructions)),
{
    if tl is Function && spec_convert_top_level(tl, table) is Ok {
        let params = tl->Function_params;
        let body = tl->Function_body;
        lemma_pass_params_no_negative_stack(params, table);
        lemma_convert_instrs_no_stack(body, table);
        let prologue = spec_pass_params(params, table)->Ok_0;
        let instrs = spec_convert_instrs(body, table)->Ok_0;
        let out = spec_convert_top_level(tl, table)->Ok_0->instructions;
        assert(forall|j: int| 0 <= j < prologue.len() ==> out[j] == prologue[j]);
        assert(forall|j: int|
            prologue.len() <= j < out.len() ==> out[j] == instrs[j - prologue.len()]);
    }
}

/// Lowers an IR value to an operand.
fn convert_val(v: &IrValue) -> (r: assembly::Operand)
    ensures
        r@ == spec_convert_val(v@),
{
    match v {
        IrValue::Constant(constants::T::ConstInt(i)) => assembly::Operand::Imm(*i as i64),
        IrValue::Constant(constants::T::ConstLong(i)) => assembly::Operand::Imm(*i),
        IrValue::Var(name) => assembly::Operand::Pseudo(name.clone()),
    }
}

/// The assembly width of an IR value.
fn asm_type(v: &IrValue, table: &SymbolTable) -> (r: Result<AsmType, CompileError>)
    ensures
        match r {
            Ok(t) => spec_asm_type(v@, table@) == Ok::<AsmType, CompileErrorV>(t),
            Err(e) => spec_asm_type(v@, table@) == Err::<AsmType, CompileErrorV>(e@),
        },
{
    match v {
        IrValue::Constant(constants::T::ConstInt(_)) => Ok(AsmType::Longword),
        IrValue::Constant(constants::T::ConstLong(_)) => Ok(AsmType::Quadword),
        IrValue::Var(name) => {
            match table.get_opt(name) {
                Some(e) => match e.t {
                    crate::types::Type::Int => Ok(AsmType::Longword),
                    crate::types::Type::Long => Ok(AsmType::Quadword),
                    _ => Err(CompileError::Internal),
                },
                None => Err(CompileError::Internal),
            }
        },
    }
}

/// The register carrying integer argument `i`.
fn param_reg(i: usize) -> (r: Reg)
    ensures
        r == spec_param_reg(i as int),
{
    if i == 0 {
        Reg::DI
    } else if i == 1 {
        Reg::SI
    } else if i == 2 {
        Reg::DX
    } else if i == 3 {
        Reg::CX
    } else if i == 4 {
        Reg::R8
    } else {
        Reg::R9
    }
}

/// The pushes of one stack argument.
fn push_one(arg: &IrValue, table: &SymbolTable) -> (r: Result<Vec<assembly::Instruction>, CompileError>)
    ensures
        match r {
            Ok(out) => spec_push_one(arg@, table@) == Ok::<Seq<InstructionV>, CompileErrorV>(
                instruction_views(out@),
            ),
            Err(e) => spec_push_one(arg@, table@) == Err::<Seq<InstructionV>, CompileErrorV>(e@),
        },
{
    let op = convert_val(arg);
    let direct: bool = matches!(op, assembly::Operand::Imm(_) | assembly::Operand::Reg(_));
    if direct {
        let r = vec![assembly::Instruction::Push(op)];
        proof {
            lemma_instruction_views(r@);
            assert(instruction_views(r@) =~= spec_push_one(arg@, table@)->Ok_0);
        }
        Ok(r)
    } else {
        match asm_type(arg, table) {
            Err(e) => Err(e),
            Ok(t) => {
                if matches!(t, AsmType::Quadword) {
                    let r = vec![assembly::Instruction::Push(op)];
                    proof {
                        lemma_instruction_views(r@);
                        assert(instruction_views(r@) =~= spec_push_one(arg@, table@)->Ok_0);
                    }
                    Ok(r)
                } else {
                    let r = vec![
                        assembly::Instruction::Mov(t, op, assembly::Operand::Reg(Reg::AX)),
                        assembly::Instruction::Push(assembly::Operand::Reg(Reg::AX)),
                    ];
                    proof {
                        lemma_instruction_views(r@);
                        assert(instruction_views(r@) =~= spec_push_one(arg@, table@)->Ok_0);
                    }
                    Ok(r)
                }
            },
        }
    }
}

/// Lowers one call.
#[verifier::rlimit(100)]
fn convert_function_call(
    f: &String,
    args: &Vec<IrValue>,
    dst: &IrValue,
    table: &SymbolTable,
) -> (r: Result<Vec<assembly::Instruction>, CompileError>)
    ensures
        match r {
            Ok(out) => spec_convert_function_call(f@, ir_value_views(args@), dst@, table@) == Ok::<
                Seq<InstructionV>,
                CompileErrorV,
            >(instruction_views(out@)),
            Err(e) => spec_convert_function_call(f@, ir_value_views(args@), dst@, table@) == Err::<
                Seq<InstructionV>,
                CompileErrorV,
            >(e@),
        },
{
    let ghost argv = ir_value_views(args@);
    proof {
        lemma_ir_value_views(args@);
    }
    if args.len() > 0x10_0000 {
        return Err(CompileError::Internal);
    }
    let reg_count: usize = if args.len() <= 6 {
        args.len()
    } else {
        6
    };
    let stack_arg_count: usize = args.len() - reg_count;
    let padding: i64 = if stack_arg_count % 2 == 0 {
        0
    } else {
        8
    };
    let ghost reg_args = if argv.len() <= 6 {
        argv
    } else {
        argv.subrange(0, 6)
    };
    proof {
        assert(reg_args =~= argv.subrange(0, reg_count as int));
    }
    let mut instructions: Vec<assembly::Instruction> = Vec::new();
    if padding != 0 {
        instructions.push(
            assembly::Instruction::Binary {
                op: assembly::BinaryOperator::Sub,
                t: AsmType::Quadword,
                src: assembly::Operand::Imm(padding),
                dst: assembly::Operand::Reg(Reg::SP),
            },
        );
    }
    let ghost pad_instrs = instruction_views(instructions@);
    proof {
        lemma_instruction_views(instructions@);
        assert(spec_reg_arg_moves(reg_args.subrange(0, 0), table@) == Ok::<
            Seq<InstructionV>,
            CompileErrorV,
        >(Seq::<InstructionV>::empty()));
        assert(instruction_views(instructions@) =~= pad_instrs + spec_reg_arg_moves(
            reg_args.subrange(0, 0),
            table@,
        )->Ok_0);
    }
    let mut i: usize = 0;
    while i < reg_count
        invariant
            i <= reg_count <= 6,
            reg_count <= args.len(),
            reg_args == argv.subrange(0, reg_count as int),
            argv == ir_value_views(args@),
            argv.len() == args.len(),
            forall|j: int| 0 <= j < argv.len() ==> argv[j] == args@[j]@,
            spec_reg_arg_moves(reg_args.subrange(0, i as int), table@) is Ok,
            instruction_views(instructions@) == pad_instrs + spec_reg_arg_moves(
                reg_args.subrange(0, i as int),
                table@,
            )->Ok_0,
        decreases reg_count - i,
    {
        let t = match asm_type(&args[i], table) {
            Ok(t) => t,
            Err(e) => {
                proof {
                    assert(reg_args.subrange(0, i + 1).drop_last() =~= reg_args.subrange(
                        0,
                        i as int,
                    ));
                    assert(reg_args.subrange(0, i + 1).last() == argv[i as int]);
                    lemma_reg_arg_moves_err(reg_args, table@, i + 1);
                }
                return Err(e);
            },
        };
        let av = convert_val(&args[i]);
        let ghost before = instructions@;
        instructions.push(assembly::Instruction::Mov(t, av, assembly::Operand::Reg(param_reg(i))));
        proof {
            lemma_instruction_views(instructions@);
            lemma_instruction_views(before);
            assert(instruction_views(instructions@) =~= instruction_views(before).push(
                InstructionV::Mov(t, av@, OperandV::Reg(spec_param_reg(i as int))),
            ));
            assert(reg_args.subrange(0, i + 1).drop_last() =~= reg_args.subrange(0, i as int));
            assert(reg_args.subrange(0, i + 1).last() == argv[i as int]);
            assert(reg_args.subrange(0, i + 1).len() - 1 == i);
            assert(instruction_views(instructions@) =~= pad_instrs + spec_reg_arg_moves(
                reg_args.subrange(0, i + 1),
                table@,
            )->Ok_0);
        }
        i += 1;
    }
    proof {
        assert(reg_args.subrange(0, reg_count as int) =~= reg_args);
    }
    let ghost moves = spec_reg_arg_moves(reg_args, table@)->Ok_0;
    let mut k: usize = args.len();
    proof {
        assert(spec_stack_pushes_from(argv, args@.len() as int, table@) == Ok::<
            Seq<InstructionV>,
            CompileErrorV,
        >(Seq::<InstructionV>::empty()));
        assert(instruction_views(instructions@) =~= pad_instrs + moves + spec_stack_pushes_from(
            argv,
            args@.len() as int,
            table@,
        )->Ok_0);
    }
    while k > 6 && k > 0
        invariant
            6 <= k <= args.len() || (args.len() <= 6 && k == args.len()),
            argv == ir_value_views(args@),
            argv.len() == args.len(),
            forall|j: int| 0 <= j < argv.len() ==> argv[j] == args@[j]@,
            spec_stack_pushes_from(argv, k as int, table@) is Ok,
            instruction_views(instructions@) == pad_instrs + moves + spec_stack_pushes_from(
                argv,
                k as int,
                table@,
            )->Ok_0,
        decreases k,
    {
        let idx = k - 1;
        let step = match push_one(&args[idx], table) {
            Ok(s) => s,
            Err(e) => {
                proof {
                    lemma_stack_pushes_err(argv, table@, 6, idx as int);
                }
                return Err(e);
            },
        };
        let ghost before = instructions@;
        let mut step_mut = step;
        let ghost stepv = step_mut@;
        instructions.append(&mut step_mut);
        proof {
            lemma_instruction_views(instructions@);
            lemma_instruction_views(before);
            lemma_instruction_views(stepv);
            assert(instruction_views(instructions@) =~= instruction_views(before)
                + instruction_views(stepv));
            assert(instruction_views(instructions@) =~= pad_instrs + moves
                + spec_stack_pushes_from(argv, idx as int, table@)->Ok_0);
        }
        k = idx;
    }
    let ghost pushes = spec_stack_pushes_from(argv, 6, table@)->Ok_0;
    proof {
        if argv.len() <= 6 {
            assert(spec_stack_pushes_from(argv, k as int, table@)->Ok_0
                =~= Seq::<InstructionV>::empty());
            assert(spec_stack_pushes_from(argv, 6, table@)->Ok_0 =~= Seq::<InstructionV>::empty());
        }
        assert(instruction_views(instructions@) =~= pad_instrs + moves + pushes);
    }
    let ghost base = instructions@;
    instructions.push(assembly::Instruction::Call(f.clone()));
    proof {
        lemma_instruction_views(instructions@);
        lemma_instruction_views(base);
        assert(instruction_views(instructions@) =~= (pad_instrs + moves + pushes).push(
            InstructionV::Call(f@),
        ));
    }
    let bytes_to_remove: i64 = 8 * (stack_arg_count as i64) + padding;
    let ghost dealloc_v: Seq<InstructionV> = if bytes_to_remove == 0 {
        Seq::empty()
    } else {
        seq![
            InstructionV::Binary {
                op: assembly::BinaryOperator::Add,
                t: AsmType::Quadword,
                src: OperandV::Imm(bytes_to_remove),
                dst: OperandV::Reg(Reg::SP),
            },
        ]
    };
    let ghost base2 = instructions@;
    if bytes_to_remove != 0 {
        instructions.push(
            assembly::Instruction::Binary {
                op: assembly::BinaryOperator::Add,
                t: AsmType::Quadword,
                src: assembly::Operand::Imm(bytes_to_remove),
                dst: assembly::Operand::Reg(Reg::SP),
            },
        );
        proof {
            lemma_instruction_views(instructions@);
            lemma_instruction_views(base2);
        }
    }
    proof {
        assert(instruction_views(instructions@) =~= pad_instrs + moves + pushes + seq![
            InstructionV::Call(f@),
        ] + dealloc_v);
    }
    let dst_t = match asm_type(dst, table) {
        Ok(t) => t,
        Err(e) => {
            return Err(e);
        },
    };
    let dv = convert_val(dst);
    let ghost base3 = instructions@;
    instructions.push(assembly::Instruction::Mov(dst_t, assembly::Operand::Reg(Reg::AX), dv));
    proof {
        lemma_instruction_views(instructions@);
        lemma_instruction_views(base3);
        assert(instruction_views(instructions@) =~= pad_instrs + moves + pushes + seq![
            InstructionV::Call(f@),
        ] + dealloc_v + seq![InstructionV::Mov(dst_t, OperandV::Reg(Reg::AX), dv@)]);
        assert(instruction_views(instructions@) =~= spec_convert_function_call(
            f@,
            argv,
            dst@,
            table@,
        )->Ok_0);
    }
    Ok(instructions)
}

/// Lowers one IR instruction.
#[verifier::rlimit(100)]
fn convert_instruction(instr: &ir::Instruction, table: &SymbolTable) -> (r: Result<
    Vec<assembly::Instruction>,
    CompileError,
>)
    ensures
        match r {
            Ok(out) => spec_convert_instruction(instr@, table@) == Ok::<
                Seq<InstructionV>,
                CompileErrorV,
            >(instruction_views(out@)),
            Err(e) => spec_convert_instruction(instr@, table@) == Err::<
                Seq<InstructionV>,
                CompileErrorV,
            >(e@),
        },
{
    let ghost iv = instr@;
    match instr {
        ir::Instruction::Copy { src, dst } => {
            let t = asm_type(src, table)?;
            let r = vec![assembly::Instruction::Mov(t, convert_val(src), convert_val(dst))];
            proof {
                lemma_instruction_views(r@);
                assert(instruction_views(r@) =~= spec_convert_instruction(iv, table@)->Ok_0);
            }
            Ok(r)
        },
        ir::Instruction::Return(v) => {
            let t = asm_type(v, table)?;
            let r = vec![
                assembly::Instruction::Mov(t, convert_val(v), assembly::Operand::Reg(Reg::AX)),
                assembly::Instruction::Ret,
            ];
            proof {
                lemma_instruction_views(r@);
                assert(instruction_views(r@) =~= spec_convert_instruction(iv, table@)->Ok_0);
            }
            Ok(r)
        },
        ir::Instruction::Unary { op: ir::UnaryOperator::Not, src, dst } => {
            let src_t = asm_type(src, table)?;
            let dst_t = asm_type(dst, table)?;
            let r = vec![
                assembly::Instruction::Cmp(src_t, assembly::Operand::Imm(0), convert_val(src)),
                assembly::Instruction::Mov(dst_t, assembly::Operand::Imm(0), convert_val(dst)),
                assembly::Instruction::SetCC(CondCode::E, convert_val(dst)),
            ];
            proof {
                lemma_instruction_views(r@);
                assert(instruction_views(r@) =~= spec_convert_instruction(iv, table@)->Ok_0);
            }
            Ok(r)
        },
        ir::Instruction::Unary { op, src, dst } => {
            let asm_op = match op {
                ir::UnaryOperator::Complement => assembly::UnaryOperator::Not,
                _ => assembly::UnaryOperator::Neg,
            };
            let t = asm_type(src, table)?;
            let r = vec![
                assembly::Instruction::Mov(t, convert_val(src), convert_val(dst)),
                assembly::Instruction::Unary(asm_op, t, convert_val(dst)),
            ];
            proof {
                lemma_instruction_views(r@);
                assert(instruction_views(r@) =~= spec_convert_instruction(iv, table@)->Ok_0);
            }
            Ok(r)
        },
        ir::Instruction::Binary { op, src1, src2, dst } => {
            let src_t = asm_type(src1, table)?;
            let relational = matches!(
                op,
                ir::BinaryOperator::Equal | ir::BinaryOperator::NotEqual
                    | ir::BinaryOperator::GreaterThan | ir::BinaryOperator::GreaterOrEqual
                    | ir::BinaryOperator::LessThan | ir::BinaryOperator::LessOrEqual
            );
            if relational {
                let dst_t = asm_type(dst, table)?;
                let cc = match op {
                    ir::BinaryOperator::Equal => CondCode::E,
                    ir::BinaryOperator::NotEqual => CondCode::NE,
                    ir::BinaryOperator::GreaterThan => CondCode::G,
                    ir::BinaryOperator::GreaterOrEqual => CondCode::GE,
                    ir::BinaryOperator::LessThan => CondCode::L,
                    _ => CondCode::LE,
                };
                let r = vec![
                    assembly::Instruction::Cmp(src_t, convert_val(src2), convert_val(src1)),
                    assembly::Instruction::Mov(dst_t, assembly::Operand::Imm(0), convert_val(dst)),
                    assembly::Instruction::SetCC(cc, convert_val(dst)),
                ];
                proof {
                    lemma_instruction_views(r@);
                    assert(instruction_views(r@) =~= spec_convert_instruction(iv, table@)->Ok_0);
                }
                Ok(r)
            } else if matches!(op, ir::BinaryOperator::Divide | ir::BinaryOperator::Mod) {
                let result_reg = match op {
                    ir::BinaryOperator::Divide => Reg::AX,
                    _ => Reg::DX,
                };
                let r = vec![
                    assembly::Instruction::Mov(
                        src_t,
                        convert_val(src1),
                        assembly::Operand::Reg(Reg::AX),
                    ),
                    assembly::Instruction::Cdq(src_t),
                    assembly::Instruction::Idiv(src_t, convert_val(src2)),
                    assembly::Instruction::Mov(
                        src_t,
                        assembly::Operand::Reg(result_reg),
                        convert_val(dst),
                    ),
                ];
                proof {
                    lemma_instruction_views(r@);
                    assert(instruction_views(r@) =~= spec_convert_instruction(iv, table@)->Ok_0);
                }
                Ok(r)
            } else {
                let asm_op = match op {
                    ir::BinaryOperator::Add => assembly::BinaryOperator::Add,
                    ir::BinaryOperator::Subtract => assembly::BinaryOperator::Sub,
                    _ => assembly::BinaryOperator::Mult,
                };
                let r = vec![
                    assembly::Instruction::Mov(src_t, convert_val(src1), convert_val(dst)),
                    assembly::Instruction::Binary {
                        op: asm_op,
                        t: src_t,
                        src: convert_val(src2),
                        dst: convert_val(dst),
                    },
                ];
                proof {
                    lemma_instruction_views(r@);
                    assert(instruction_views(r@) =~= spec_convert_instruction(iv, table@)->Ok_0);
                }
                Ok(r)
            }
        },
        ir::Instruction::Jump(target) => {
            let r = vec![assembly::Instruction::Jmp(target.clone())];
            proof {
                lemma_instruction_views(r@);
                assert(instruction_views(r@) =~= spec_convert_instruction(iv, table@)->Ok_0);
            }
            Ok(r)
        },
        ir::Instruction::JumpIfZero(cond, target) => {
            let t = asm_type(cond, table)?;
            let r = vec![
                assembly::Instruction::Cmp(t, assembly::Operand::Imm(0), convert_val(cond)),
                assembly::Instruction::JmpCC(CondCode::E, target.clone()),
            ];
            proof {
                lemma_instruction_views(r@);
                assert(instruction_views(r@) =~= spec_convert_instruction(iv, table@)->Ok_0);
            }
            Ok(r)
        },
        ir::Instruction::JumpIfNotZero(cond, target) => {
            let t = asm_type(cond, table)?;
            let r = vec![
                assembly::Instruction::Cmp(t, assembly::Operand::Imm(0), convert_val(cond)),
                assembly::Instruction::JmpCC(CondCode::NE, target.clone()),
            ];
            proof {
                lemma_instruction_views(r@);
                assert(instruction_views(r@) =~= spec_convert_instruction(iv, table@)->Ok_0);
            }
            Ok(r)
        },
        ir::Instruction::Label(l) => {
            let r = vec![assembly::Instruction::Label(l.clone())];
            proof {
                lemma_instruction_views(r@);
                assert(instruction_views(r@) =~= spec_convert_instruction(iv, table@)->Ok_0);
            }
            Ok(r)
        },
        ir::Instruction::FunCall { f, args, dst } => convert_function_call(f, args, dst, table),
        ir::Instruction::SignExtend { src, dst } => {
            let r = vec![assembly::Instruction::Movsx(convert_val(src), convert_val(dst))];
            proof {
                lemma_instruction_views(r@);
                assert(instruction_views(r@) =~= spec_convert_instruction(iv, table@)->Ok_0);
            }
            Ok(r)
        },
        ir::Instruction::Truncate { src, dst } => {
            let r = vec![
                assembly::Instruction::Mov(
                    AsmType::Longword,
                    convert_val(src),
                    convert_val(dst),
                ),
            ];
            proof {
                lemma_instruction_views(r@);
                assert(instruction_views(r@) =~= spec_convert_instruction(iv, table@)->Ok_0);
            }
            Ok(r)
        },
    }
}

/// Emits the moves that receive a function's parameters.
fn pass_params(param_list: &Vec<String>, table: &SymbolTable) -> (r: Result<
    Vec<assembly::Instruction>,
    CompileError,
>)
    requires
        param_list@.len() <= max_args(),
    ensures
        match r {
            Ok(out) => spec_pass_params(string_views(param_list@), table@) == Ok::<
                Seq<InstructionV>,
                CompileErrorV,
            >(instruction_views(out@)),
            Err(e) => spec_pass_params(string_views(param_list@), table@) == Err::<
                Seq<InstructionV>,
                CompileErrorV,
            >(e@),
        },
{
    let ghost pv = string_views(param_list@);
    proof {
        lemma_string_views(param_list@);
    }
    let mut instructions: Vec<assembly::Instruction> = Vec::new();
    proof {
        lemma_instruction_views(instructions@);
        assert(pv.subrange(0, 0) =~= Seq::<Seq<char>>::empty());
        assert(instruction_views(instructions@) =~= spec_pass_params(
            pv.subrange(0, 0),
            table@,
        )->Ok_0);
    }
    let mut i: usize = 0;
    while i < param_list.len()
        invariant
            i <= param_list.len(),
            param_list@.len() <= max_args(),
            pv == string_views(param_list@),
            pv.len() == param_list@.len(),
            forall|j: int| 0 <= j < pv.len() ==> pv[j] == param_list@[j]@,
            spec_pass_params(pv.subrange(0, i as int), table@) is Ok,
            instruction_views(instructions@) == spec_pass_params(
                pv.subrange(0, i as int),
                table@,
            )->Ok_0,
        decreases param_list.len() - i,
    {
        let param = &param_list[i];
        let tr = {
            match table.get_opt(param) {
                Some(e) => match e.t {
                    crate::types::Type::Int => Ok(AsmType::Longword),
                    crate::types::Type::Long => Ok(AsmType::Quadword),
                    _ => Err(CompileError::Internal),
                },
                None => Err(CompileError::Internal),
            }
        };
        proof {
            assert(pv.subrange(0, i + 1).drop_last() =~= pv.subrange(0, i as int));
            assert(pv.subrange(0, i + 1).last() == param_list@[i as int]@);
        }
        let t = match tr {
            Ok(t) => t,
            Err(e) => {
                proof {
                    assert(spec_asm_type(IrValueV::Var(param@), table@) == Err::<
                        AsmType,
                        CompileErrorV,
                    >(e@));
                    lemma_pass_params_err(pv, table@, i + 1);
                }
                return Err(e);
            },
        };
        let src: assembly::Operand = if i < 6 {
            assembly::Operand::Reg(param_reg(i))
        } else {
            assembly::Operand::Stack(16 + 8 * ((i - 6) as i64))
        };
        let ghost before = instructions@;
        instructions.push(assembly::Instruction::Mov(t, src, assembly::Operand::Pseudo(param.clone())));
        proof {
            lemma_instruction_views(instructions@);
            lemma_instruction_views(before);
            assert(instruction_views(instructions@) =~= instruction_views(before).push(
                InstructionV::Mov(t, src@, OperandV::Pseudo(param@)),
            ));
            assert(instruction_views(instructions@) =~= spec_pass_params(
                pv.subrange(0, i + 1),
                table@,
            )->Ok_0);
        }
        i += 1;
    }
    proof {
        assert(pv.subrange(0, param_list@.len() as int) =~= pv);
    }
    Ok(instructions)
}

/// Lowers one top-level item.
fn convert_top_level(top_level: &ir::TopLevel, table: &SymbolTable) -> (r: Result<
    assembly::TopLevel,
    CompileError,
>)
    ensures
        match r {
            Ok(out) => spec_convert_top_level(top_level@, table@) == Ok::<
                TopLevelV,
                CompileErrorV,
            >(out@),
            Err(e) => spec_convert_top_level(top_level@, table@) == Err::<
                TopLevelV,
                CompileErrorV,
            >(e@),
        },
{
    match top_level {
        ir::TopLevel::Function { name, global, params, body } => {
            proof {
                lemma_string_views(params@);
            }
            if params.len() > 0x10_0000 {
                return Err(CompileError::Internal);
            }
            let mut instructions = pass_params(params, table)?;
            let ghost prologue = instructions@;
            let ghost all = ir::instruction_views(body@);
            proof {
                ir::lemma_instruction_views(body@);
                lemma_instruction_views(instructions@);
                assert(all.subrange(0, 0) =~= Seq::<ir::InstructionV>::empty());
                assert(instruction_views(instructions@) =~= instruction_views(prologue)
                    + spec_convert_instrs(all.subrange(0, 0), table@)->Ok_0);
            }
            let mut i: usize = 0;
            while i < body.len()
                invariant
                    i <= body.len(),
                    all == ir::instruction_views(body@),
                    all.len() == body@.len(),
                    forall|j: int| 0 <= j < all.len() ==> all[j] == body@[j]@,
                    spec_convert_instrs(all.subrange(0, i as int), table@) is Ok,
                    instruction_views(instructions@) == instruction_views(prologue)
                        + spec_convert_instrs(all.subrange(0, i as int), table@)->Ok_0,
                decreases body.len() - i,
            {
                proof {
                    assert(all.subrange(0, i + 1).drop_last() =~= all.subrange(0, i as int));
                    assert(all.subrange(0, i + 1).last() == body@[i as int]@);
                }
                let step = match convert_instruction(&body[i], table) {
                    Ok(s) => s,
                    Err(e) => {
                        proof {
                            lemma_convert_instrs_err(all, table@, i + 1);
                        }
                        return Err(e);
                    },
                };
                let ghost before = instructions@;
                let mut step_mut = step;
                let ghost stepv = step_mut@;
                instructions.append(&mut step_mut);
                proof {
                    lemma_instruction_views(instructions@);
                    lemma_instruction_views(before);
                    lemma_instruction_views(stepv);
                    assert(instruction_views(instructions@) =~= instruction_views(before)
                        + instruction_views(stepv));
                    assert(instruction_views(instructions@) =~= instruction_views(prologue)
                        + spec_convert_instrs(all.subrange(0, i + 1), table@)->Ok_0);
                }
                i += 1;
            }
            proof {
                assert(all.subrange(0, body@.len() as int) =~= all);
            }
            Ok(
                assembly::TopLevel::Function {
                    name: name.clone(),
                    global: *global,
                    instructions,
                },
            )
        },
        ir::TopLevel::StaticVariable { name, t, global, init } => {
            match t {
                crate::types::Type::Int => Ok(
                    assembly::TopLevel::StaticVariable {
                        name: name.clone(),
                        alignment: 4,
                        global: *global,
                        init: *init,
                    },
                ),
                crate::types::Type::Long => Ok(
                    assembly::TopLevel::StaticVariable {
                        name: name.clone(),
                        alignment: 8,
                        global: *global,
                        init: *init,
                    },
                ),
                _ => Err(CompileError::Internal),
            }
        },
    }
}

/// Carries one symbol into the assembly symbol table.
fn convert_symbol(
    name: &String,
    e: &crate::symbols::Entry,
    asm_table: &mut AsmSymbolTable,
) -> (r: Result<(), CompileError>)
    ensures
        match r {
            Ok(_) => spec_convert_symbol(name@, e@, old(asm_table)@) == Ok::<
                AsmTableV,
                CompileErrorV,
            >(final(asm_table)@),
            Err(err) => spec_convert_symbol(name@, e@, old(asm_table)@) == Err::<
                AsmTableV,
                CompileErrorV,
            >(err@) && final(asm_table)@ == old(asm_table)@,
        },
{
    match e.attrs {
        IdentifierAttrs::FunAttr { defined, global: _, stack_frame_size: _ } => {
            asm_table.add_fun(name.clone(), defined);
            Ok(())
        },
        IdentifierAttrs::StaticAttr { .. } => {
            match e.t {
                crate::types::Type::Int => {
                    asm_table.add_var(name.clone(), AsmType::Longword, true);
                    Ok(())
                },
                crate::types::Type::Long => {
                    asm_table.add_var(name.clone(), AsmType::Quadword, true);
                    Ok(())
                },
                _ => Err(CompileError::Internal),
            }
        },
        IdentifierAttrs::LocalAttr => {
            match e.t {
                crate::types::Type::Int => {
                    asm_table.add_var(name.clone(), AsmType::Longword, false);
                    Ok(())
                },
                crate::types::Type::Long => {
                    asm_table.add_var(name.clone(), AsmType::Quadword, false);
                    Ok(())
                },
                _ => Err(CompileError::Internal),
            }
        },
    }
}

/// Lowers an IR program to virtual-register assembly and derives the
/// assembly symbol table from the symbol table.
pub fn gen(program: &ir::T, table: &SymbolTable, asm_table: &mut AsmSymbolTable) -> (r: Result<
    assembly::T,
    CompileError,
>)
    ensures
        match r {
            Ok(out) => spec_gen(program@, table@, old(asm_table)@) == Ok::<
                (crate::assembly::TV, AsmTableV),
                CompileErrorV,
            >((out@, final(asm_table)@)),
            Err(e) => spec_gen(program@, table@, old(asm_table)@) == Err::<
                (crate::assembly::TV, AsmTableV),
                CompileErrorV,
            >(e@),
        },
{
    match program {
        ir::T::Program(tls) => {
            let ghost all = ir::top_level_views(tls@);
            let mut out: Vec<assembly::TopLevel> = Vec::new();
            proof {
                ir::lemma_top_level_views(tls@);
                assert(all.subrange(0, 0) =~= Seq::<ir::TopLevelV>::empty());
                assert(top_level_views(out@) =~= Seq::<TopLevelV>::empty());
            }
            let mut i: usize = 0;
            while i < tls.len()
                invariant
                    i <= tls.len(),
                    all == ir::top_level_views(tls@),
                    all.len() == tls@.len(),
                    forall|j: int| 0 <= j < all.len() ==> all[j] == tls@[j]@,
                    spec_convert_top_levels(all.subrange(0, i as int), table@) == Ok::<
                        Seq<TopLevelV>,
                        CompileErrorV,
                    >(top_level_views(out@)),
                decreases tls.len() - i,
            {
                proof {
                    assert(all.subrange(0, i + 1).drop_last() =~= all.subrange(0, i as int));
                    assert(all.subrange(0, i + 1).last() == tls@[i as int]@);
                }
                match convert_top_level(&tls[i], table) {
                    Ok(tl) => {
                        let ghost before = out@;
                        out.push(tl);
                        proof {
                            crate::assembly::lemma_top_level_views(out@);
                            crate::assembly::lemma_top_level_views(before);
                            assert(top_level_views(out@) =~= top_level_views(before).push(
                                out@[out@.len() - 1]@,
                            ));
                        }
                    },
                    Err(e) => {
                        proof {
                            lemma_convert_top_levels_err(all, table@, i + 1);
                        }
                        return Err(e);
                    },
                }
                i += 1;
            }
            proof {
                assert(all.subrange(0, tls@.len() as int) =~= all);
            }
            let bindings = table.bindings();
            let ghost tv = table@;
            proof {
                crate::table::lemma_pair_views(bindings@);
                assert(tv.subrange(0, 0) =~= Seq::<(Seq<char>, EntryV)>::empty());
            }
            let mut j: usize = 0;
            while j < bindings.len()
                invariant
                    j <= bindings.len(),
                    crate::table::pair_views(bindings@) == tv,
                    tv == table@,
                    tv.len() == bindings@.len(),
                    forall|m: int|
                        0 <= m < tv.len() ==> tv[m] == (bindings@[m].0@, bindings@[m].1@),
                    spec_convert_symbols(tv.subrange(0, j as int), old(asm_table)@) == Ok::<
                        AsmTableV,
                        CompileErrorV,
                    >(asm_table@),
                decreases bindings.len() - j,
            {
                proof {
                    assert(tv.subrange(0, j + 1).drop_last() =~= tv.subrange(0, j as int));
                    assert(tv.subrange(0, j + 1).last() == tv[j as int]);
                }
                match convert_symbol(&bindings[j].0, &bindings[j].1, asm_table) {
                    Ok(_) => {},
                    Err(e) => {
                        proof {
                            lemma_convert_symbols_err(tv, old(asm_table)@, j + 1);
                        }
                        return Err(e);
                    },
                }
                j += 1;
            }
            proof {
                assert(tv.subrange(0, tv.len() as int) =~= tv);
            }
            Ok(assembly::T::Program(out))
        },
    }
}

} // verus!
