//! Lowering of the typed tree into three-address IR.

use crate::ast::{
    lemma_typed_exp_views, typed_exp_views, Block, BlockItem, BlockItemV, BlockV, Declaration,
    DeclarationV, ForInit, ForInitV, FunctionDeclaration, FunctionDeclarationV, ProgType,
    ProgTypeV, Statement, StatementV, StorageClass, TypedExp, TypedExpV, TypedInnerExp,
    TypedInnerExpV, TypedProgType, VariableDeclaration, VariableDeclarationV,
};
use crate::ast::{block_item_views, declaration_views, lemma_block_item_views,
    lemma_declaration_views};
use crate::constants;
use crate::errors::{CompileError, CompileErrorV};
use crate::initializers::{spec_zero, StaticInit};
use crate::ir;
use crate::ir::{instruction_views, ir_value_views, lemma_instruction_views, lemma_ir_value_views,
    IrValue, IrValueV};
use crate::symbols::{EntryV, IdentifierAttrs, InitialValue, SymbolTable};
use crate::table::{spec_get, spec_insert};
use crate::types::{is_scalar, Type, TypeV};
use crate::unique_ids::{bump, label_name, temp_name, Counter};
use vstd::prelude::*;

verus! {

/// The symbol table's model, as lowering reads and extends it.
pub type SymTableV = Seq<(Seq<char>, EntryV)>;

/// The label a `break` with the given loop id jumps to.
pub open spec fn spec_break_label(id: Seq<char>) -> Seq<char> {
    "break."@ + id
}

/// The label a `continue` with the given loop id jumps to.
pub open spec fn spec_continue_label(id: Seq<char>) -> Seq<char> {
    "continue."@ + id
}

/// A fresh temporary of the given type, registered as an automatic local.
pub open spec fn spec_create_tmp(t: TypeV, table: SymTableV, c: nat) -> (Seq<char>, SymTableV, nat) {
    let name = temp_name(c);
    (name, spec_insert(table, name, EntryV { t, attrs: IdentifierAttrs::LocalAttr }), bump(c))
}

/// The IR operator of a source unary operator.
pub open spec fn spec_convert_op(op: crate::ast::UnaryOperator) -> ir::UnaryOperator {
    match op {
        crate::ast::UnaryOperator::Complement => ir::UnaryOperator::Complement,
        crate::ast::UnaryOperator::Negate => ir::UnaryOperator::Negate,
        crate::ast::UnaryOperator::Not => ir::UnaryOperator::Not,
    }
}

/// The IR operator of a source binary operator; the short-circuit
/// operators are lowered to jumps instead.
pub open spec fn spec_convert_binop(op: crate::ast::BinaryOperator) -> Result<
    ir::BinaryOperator,
    CompileErrorV,
> {
    match op {
        crate::ast::BinaryOperator::Add => Ok(ir::BinaryOperator::Add),
        crate::ast::BinaryOperator::Subtract => Ok(ir::BinaryOperator::Subtract),
        crate::ast::BinaryOperator::Multiply => Ok(ir::BinaryOperator::Multiply),
        crate::ast::BinaryOperator::Divide => Ok(ir::BinaryOperator::Divide),
        crate::ast::BinaryOperator::Mod => Ok(ir::BinaryOperator::Mod),
        crate::ast::BinaryOperator::Equal => Ok(ir::BinaryOperator::Equal),
        crate::ast::BinaryOperator::NotEqual => Ok(ir::BinaryOperator::NotEqual),
        crate::ast::BinaryOperator::LessThan => Ok(ir::BinaryOperator::LessThan),
        crate::ast::BinaryOperator::LessOrEqual => Ok(ir::BinaryOperator::LessOrEqual),
        crate::ast::BinaryOperator::GreaterThan => Ok(ir::BinaryOperator::GreaterThan),
        crate::ast::BinaryOperator::GreaterOrEqual => Ok(ir::BinaryOperator::GreaterOrEqual),
        _ => Err(CompileErrorV::Internal),
    }
}

/// The values an IR instruction reads or writes.
pub open spec fn instr_values(i: ir::InstructionV) -> Seq<IrValueV> {
    match i {
        ir::InstructionV::Return(v) => seq![v],
        ir::InstructionV::SignExtend { src, dst } => seq![src, dst],
        ir::InstructionV::Truncate { src, dst } => seq![src, dst],
        ir::InstructionV::Unary { op: _, src, dst } => seq![src, dst],
        ir::InstructionV::Binary { op: _, src1, src2, dst } => seq![src1, src2, dst],
        ir::InstructionV::Copy { src, dst } => seq![src, dst],
        ir::InstructionV::JumpIfZero(v, _) => seq![v],
        ir::InstructionV::JumpIfNotZero(v, _) => seq![v],
        ir::InstructionV::FunCall { f: _, args, dst } => args.push(dst),
        _ => Seq::empty(),
    }
}

/// Whether a value's variable, if it is one, is bound in the table.
pub open spec fn var_bound(v: IrValueV, table: SymTableV) -> bool {
    v matches IrValueV::Var(n) ==> spec_get(table, n) is Some
}

/// Whether every variable an instruction stream mentions is bound.
pub open spec fn instrs_vars_bound(instrs: Seq<ir::InstructionV>, table: SymTableV) -> bool {
    forall|j: int, k: int|
        #![trigger instr_values(instrs[j])[k]]
        0 <= j < instrs.len() && 0 <= k < instr_values(instrs[j]).len() ==> var_bound(
            instr_values(instrs[j])[k],
            table,
        )
}

/// Whether the second table binds every name the first does.
pub open spec fn table_extends(t1: SymTableV, t2: SymTableV) -> bool {
    forall|n: Seq<char>| spec_get(t1, n) is Some ==> #[trigger] spec_get(t2, n) is Some
}

/// Extension is transitive.
pub proof fn lemma_extends_trans(a: SymTableV, b: SymTableV, c2: SymTableV)
    requires
        table_extends(a, b),
        table_extends(b, c2),
    ensures
        table_extends(a, c2),
{
    assert forall|n: Seq<char>| spec_get(a, n) is Some implies #[trigger] spec_get(
        c2,
        n,
    ) is Some by {
        assert(spec_get(b, n) is Some);
    }
}

/// An insertion binds its key and keeps every other binding.
pub proof fn lemma_insert_extends(table: SymTableV, name: Seq<char>, e: EntryV)
    ensures
        table_extends(table, spec_insert(table, name, e)),
        spec_get(spec_insert(table, name, e), name) is Some,
{
    crate::table::lemma_spec_insert(table, name, e);
}

/// Whether every variable of a typed expression is bound in the table.
pub open spec fn exp_vars_bound(e: TypedExpV, table: SymTableV) -> bool
    decreases e,
{
    match *e.e {
        TypedInnerExpV::Constant(_) => true,
        TypedInnerExpV::Var(v) => spec_get(table, v) is Some,
        TypedInnerExpV::Cast { target_type: _, e: inner } => exp_vars_bound(inner, table),
        TypedInnerExpV::Unary(_, inner) => exp_vars_bound(inner, table),
        TypedInnerExpV::Binary(_, a, b) => exp_vars_bound(a, table) && exp_vars_bound(b, table),
        TypedInnerExpV::Assignment(l, r) => exp_vars_bound(l, table) && exp_vars_bound(r, table),
        TypedInnerExpV::Conditional { condition, then_result, else_result } => exp_vars_bound(
            condition,
            table,
        ) && exp_vars_bound(then_result, table) && exp_vars_bound(else_result, table),
        TypedInnerExpV::FunCall { f: _, args } => exps_vars_bound(args, table),
    }
}

/// Whether every variable of each expression is bound in the table.
pub open spec fn exps_vars_bound(es: Seq<TypedExpV>, table: SymTableV) -> bool
    decreases es,
{
    if es.len() == 0 {
        true
    } else {
        exps_vars_bound(es.drop_last(), table) && exp_vars_bound(es.last(), table)
    }
}

/// Bound variables stay bound in an extending table.
pub proof fn lemma_exp_vars_bound_monotone(e: TypedExpV, t1: SymTableV, t2: SymTableV)
    requires
        exp_vars_bound(e, t1),
        table_extends(t1, t2),
    ensures
        exp_vars_bound(e, t2),
    decreases e,
{
    match *e.e {
        TypedInnerExpV::Cast { target_type: _, e: inner } => {
            lemma_exp_vars_bound_monotone(inner, t1, t2);
        },
        TypedInnerExpV::Unary(_, inner) => {
            lemma_exp_vars_bound_monotone(inner, t1, t2);
        },
        TypedInnerExpV::Binary(_, a, b) => {
            lemma_exp_vars_bound_monotone(a, t1, t2);
            lemma_exp_vars_bound_monotone(b, t1, t2);
        },
        TypedInnerExpV::Assignment(l, r) => {
            lemma_exp_vars_bound_monotone(l, t1, t2);
            lemma_exp_vars_bound_monotone(r, t1, t2);
        },
        TypedInnerExpV::Conditional { condition, then_result, else_result } => {
            lemma_exp_vars_bound_monotone(condition, t1, t2);
            lemma_exp_vars_bound_monotone(then_result, t1, t2);
            lemma_exp_vars_bound_monotone(else_result, t1, t2);
        },
        TypedInnerExpV::FunCall { f: _, args } => {
            lemma_exps_vars_bound_monotone(args, t1, t2);
        },
        _ => {},
    }
}

/// Bound variables stay bound in an extending table, over a sequence.
pub proof fn lemma_exps_vars_bound_monotone(es: Seq<TypedExpV>, t1: SymTableV, t2: SymTableV)
    requires
        exps_vars_bound(es, t1),
        table_extends(t1, t2),
    ensures
        exps_vars_bound(es, t2),
    decreases es,
{
    if es.len() > 0 {
        lemma_exps_vars_bound_monotone(es.drop_last(), t1, t2);
        lemma_exp_vars_bound_monotone(es.last(), t1, t2);
    }
}

/// Bound instruction streams stay bound in an extending table.
proof fn lemma_instrs_vars_bound_monotone(
    instrs: Seq<ir::InstructionV>,
    t1: SymTableV,
    t2: SymTableV,
)
    requires
        instrs_vars_bound(instrs, t1),
        table_extends(t1, t2),
    ensures
        instrs_vars_bound(instrs, t2),
{
}

/// Binding is kept under concatenation.
proof fn lemma_bound_concat(a: Seq<ir::InstructionV>, b: Seq<ir::InstructionV>, t: SymTableV)
    requires
        instrs_vars_bound(a, t),
        instrs_vars_bound(b, t),
    ensures
        instrs_vars_bound(a + b, t),
{
    assert forall|j: int, k: int|
        0 <= j < (a + b).len() && 0 <= k < instr_values((a + b)[j]).len() implies var_bound(
        #[trigger] instr_values((a + b)[j])[k],
        t,
    ) by {
        if j < a.len() {
            assert((a + b)[j] == a[j]);
            assert(var_bound(instr_values(a[j])[k], t));
        } else {
            assert((a + b)[j] == b[j - a.len()]);
            assert(var_bound(instr_values(b[j - a.len()])[k], t));
        }
    }
}

/// Binding is kept when one bound instruction is appended.
proof fn lemma_bound_push(a: Seq<ir::InstructionV>, i: ir::InstructionV, t: SymTableV)
    requires
        instrs_vars_bound(a, t),
        forall|k: int| 0 <= k < instr_values(i).len() ==> var_bound(#[trigger] instr_values(i)[k], t),
    ensures
        instrs_vars_bound(a.push(i), t),
{
    assert forall|j: int, k: int|
        0 <= j < a.push(i).len() && 0 <= k < instr_values(a.push(i)[j]).len() implies var_bound(
        #[trigger] instr_values(a.push(i)[j])[k],
        t,
    ) by {
        if j < a.len() {
            assert(a.push(i)[j] == a[j]);
            assert(var_bound(instr_values(a[j])[k], t));
        } else {
            assert(a.push(i)[j] == i);
        }
    }
}

/// What the variable lemma claims of one expression lowering.
pub open spec fn emit_exp_vars_ok(e: TypedExpV, table: SymTableV, c: nat) -> bool {
    spec_emit_exp(e, table, c) matches Ok((instrs, v, t1, c1)) ==> table_extends(table, t1)
        && var_bound(v, t1) && instrs_vars_bound(instrs, t1)
}

/// The binary arm of the variable lemma.
#[verifier::rlimit(100)]
#[verifier::spinoff_prover]
proof fn lemma_emit_exp_vars_binary(e: TypedExpV, table: SymTableV, c: nat)
    requires
        exp_vars_bound(e, table),
        *e.e is Binary,
    ensures
        emit_exp_vars_ok(e, table, c),
    decreases e, 0int,
{
    if spec_emit_exp(e, table, c) is Ok {
        match *e.e {
            TypedInnerExpV::Binary(op, e1, e2) => {
                lemma_emit_exp_vars(e1, table, c);
                match spec_emit_exp(e1, table, c) {
                    Ok((i1, v1, t1, c1)) => {
                        lemma_exp_vars_bound_monotone(e2, table, t1);
                        lemma_emit_exp_vars(e2, t1, c1);
                        match spec_emit_exp(e2, t1, c1) {
                            Ok((i2, v2, t2, c2)) => {
                                lemma_instrs_vars_bound_monotone(i1, t1, t2);
                                if op == crate::ast::BinaryOperator::And {
                                    let (dst_name, t3, _c3) = spec_create_tmp(
                                        TypeV::Int,
                                        t2,
                                        bump(bump(c2)),
                                    );
                                    lemma_insert_extends(
                                        t2,
                                        temp_name(bump(bump(c2))),
                                        EntryV { t: TypeV::Int, attrs: IdentifierAttrs::LocalAttr },
                                    );
                                    lemma_instrs_vars_bound_monotone(i1, t2, t3);
                                    lemma_instrs_vars_bound_monotone(i2, t2, t3);
                                    let dst = IrValueV::Var(dst_name);
                                    let fl = label_name("and_false"@, c2);
                                    let el = label_name("and_end"@, bump(c2));
                                    lemma_bound_push(i1, ir::InstructionV::JumpIfZero(v1, fl), t3);
                                    let tail = seq![
                                        ir::InstructionV::JumpIfZero(v2, fl),
                                        ir::InstructionV::Copy {
                                            src: IrValueV::Constant(constants::T::ConstInt(1)),
                                            dst,
                                        },
                                        ir::InstructionV::Jump(el),
                                        ir::InstructionV::Label(fl),
                                        ir::InstructionV::Copy {
                                            src: IrValueV::Constant(constants::T::ConstInt(0)),
                                            dst,
                                        },
                                        ir::InstructionV::Label(el),
                                    ];
                                    assert(instrs_vars_bound(tail, t3));
                                    lemma_bound_concat(
                                        i1.push(ir::InstructionV::JumpIfZero(v1, fl)),
                                        i2,
                                        t3,
                                    );
                                    lemma_bound_concat(
                                        i1.push(ir::InstructionV::JumpIfZero(v1, fl)) + i2,
                                        tail,
                                        t3,
                                    );
                                } else if op == crate::ast::BinaryOperator::Or {
                                    let (dst_name, t3, _c3) = spec_create_tmp(
                                        TypeV::Int,
                                        t2,
                                        bump(bump(c2)),
                                    );
                                    lemma_insert_extends(
                                        t2,
                                        temp_name(bump(bump(c2))),
                                        EntryV { t: TypeV::Int, attrs: IdentifierAttrs::LocalAttr },
                                    );
                                    lemma_instrs_vars_bound_monotone(i1, t2, t3);
                                    lemma_instrs_vars_bound_monotone(i2, t2, t3);
                                    let dst = IrValueV::Var(dst_name);
                                    let tl = label_name("or_true"@, c2);
                                    let el = label_name("or_end"@, bump(c2));
                                    lemma_bound_push(
                                        i1,
                                        ir::InstructionV::JumpIfNotZero(v1, tl),
                                        t3,
                                    );
                                    let tail = seq![
                                        ir::InstructionV::JumpIfNotZero(v2, tl),
                                        ir::InstructionV::Copy {
                                            src: IrValueV::Constant(constants::T::ConstInt(0)),
                                            dst,
                                        },
                                        ir::InstructionV::Jump(el),
                                        ir::InstructionV::Label(tl),
                                        ir::InstructionV::Copy {
                                            src: IrValueV::Constant(constants::T::ConstInt(1)),
                                            dst,
                                        },
                                        ir::InstructionV::Label(el),
                                    ];
                                    assert(instrs_vars_bound(tail, t3));
                                    lemma_bound_concat(
                                        i1.push(ir::InstructionV::JumpIfNotZero(v1, tl)),
                                        i2,
                                        t3,
                                    );
                                    lemma_bound_concat(
                                        i1.push(ir::InstructionV::JumpIfNotZero(v1, tl)) + i2,
                                        tail,
                                        t3,
                                    );
                                } else {
                                    let (dst_name, t3, _c3) = spec_create_tmp(e.t, t2, c2);
                                    lemma_insert_extends(
                                        t2,
                                        temp_name(c2),
                                        EntryV { t: e.t, attrs: IdentifierAttrs::LocalAttr },
                                    );
                                    lemma_instrs_vars_bound_monotone(i1, t2, t3);
                                    lemma_instrs_vars_bound_monotone(i2, t2, t3);
                                    let dst = IrValueV::Var(dst_name);
                                    lemma_bound_concat(i1, i2, t3);
                                    match spec_convert_binop(op) {
                                        Ok(ir_op) => {
                                            lemma_bound_concat(
                                                i1 + i2,
                                                seq![
                                                    ir::InstructionV::Binary {
                                                        op: ir_op,
                                                        src1: v1,
                                                        src2: v2,
                                                        dst,
                                                    },
                                                ],
                                                t3,
                                            );
                                        },
                                        _ => {},
                                    }
                                }
                            },
                            _ => {},
                        }
                    },
                    _ => {},
                }
            },
            _ => {},
        }
    }
}

/// The conditional arm of the variable lemma.
#[verifier::rlimit(100)]
#[verifier::spinoff_prover]
proof fn lemma_emit_exp_vars_conditional(e: TypedExpV, table: SymTableV, c: nat)
    requires
        exp_vars_bound(e, table),
        *e.e is Conditional,
    ensures
        emit_exp_vars_ok(e, table, c),
    decreases e, 0int,
{
    if spec_emit_exp(e, table, c) is Ok {
        match *e.e {
            TypedInnerExpV::Conditional { condition, then_result, else_result } => {
                lemma_emit_exp_vars(condition, table, c);
                match spec_emit_exp(condition, table, c) {
                    Ok((ic, vc, t1, c1)) => {
                        lemma_exp_vars_bound_monotone(then_result, table, t1);
                        lemma_emit_exp_vars(then_result, t1, c1);
                        match spec_emit_exp(then_result, t1, c1) {
                            Ok((i1, v1, t2, c2)) => {
                                lemma_exp_vars_bound_monotone(else_result, table, t1);
                                lemma_exp_vars_bound_monotone(else_result, t1, t2);
                                lemma_emit_exp_vars(else_result, t2, c2);
                                match spec_emit_exp(else_result, t2, c2) {
                                    Ok((i2, v2, t3, c3)) => {
                                        let (dst_name, t4, _c4) = spec_create_tmp(
                                            e.t,
                                            t3,
                                            bump(bump(c3)),
                                        );
                                        lemma_insert_extends(
                                            t3,
                                            temp_name(bump(bump(c3))),
                                            EntryV { t: e.t, attrs: IdentifierAttrs::LocalAttr },
                                        );
                                        lemma_instrs_vars_bound_monotone(ic, t1, t2);
                                        lemma_instrs_vars_bound_monotone(ic, t2, t3);
                                        lemma_instrs_vars_bound_monotone(ic, t3, t4);
                                        lemma_instrs_vars_bound_monotone(i1, t2, t3);
                                        lemma_instrs_vars_bound_monotone(i1, t3, t4);
                                        lemma_instrs_vars_bound_monotone(i2, t3, t4);
                                        let dst = IrValueV::Var(dst_name);
                                        let el = label_name("conditional_else"@, c3);
                                        let en = label_name("conditional_end"@, bump(c3));
                                        lemma_bound_push(
                                            ic,
                                            ir::InstructionV::JumpIfZero(vc, el),
                                            t4,
                                        );
                                        lemma_bound_concat(
                                            ic.push(ir::InstructionV::JumpIfZero(vc, el)),
                                            i1,
                                            t4,
                                        );
                                        let mid = seq![
                                            ir::InstructionV::Copy { src: v1, dst },
                                            ir::InstructionV::Jump(en),
                                            ir::InstructionV::Label(el),
                                        ];
                                        assert(instrs_vars_bound(mid, t4));
                                        lemma_bound_concat(
                                            ic.push(ir::InstructionV::JumpIfZero(vc, el)) + i1,
                                            mid,
                                            t4,
                                        );
                                        lemma_bound_concat(
                                            ic.push(ir::InstructionV::JumpIfZero(vc, el)) + i1
                                                + mid,
                                            i2,
                                            t4,
                                        );
                                        let tail = seq![
                                            ir::InstructionV::Copy { src: v2, dst },
                                            ir::InstructionV::Label(en),
                                        ];
                                        assert(instrs_vars_bound(tail, t4));
                                        lemma_bound_concat(
                                            ic.push(ir::InstructionV::JumpIfZero(vc, el)) + i1
                                                + mid + i2,
                                            tail,
                                            t4,
                                        );
                                    },
                                    _ => {},
                                }
                            },
                            _ => {},
                        }
                    },
                    _ => {},
                }
            },
            _ => {},
        }
    }
}

/// Every variable the lowering of an expression writes into the stream
/// is bound in the table it returns: the expression's own variables were
/// bound coming in, and every fresh temporary is registered on the spot.
#[verifier::rlimit(100)]
#[verifier::spinoff_prover]
pub proof fn lemma_emit_exp_vars(e: TypedExpV, table: SymTableV, c: nat)
    requires
        exp_vars_bound(e, table),
    ensures
        emit_exp_vars_ok(e, table, c),
    decreases e, 1int,
{
    if spec_emit_exp(e, table, c) is Ok {
        match *e.e {
            TypedInnerExpV::Constant(_) => {},
            TypedInnerExpV::Var(_) => {},
            TypedInnerExpV::Cast { target_type, e: inner } => {
                lemma_emit_exp_vars(inner, table, c);
                match spec_emit_exp(inner, table, c) {
                    Ok((instrs, result, t1, c1)) => {
                        if target_type != inner.t {
                            let (dst_name, t2, _c2) = spec_create_tmp(target_type, t1, c1);
                            lemma_insert_extends(
                                t1,
                                temp_name(c1),
                                EntryV { t: target_type, attrs: IdentifierAttrs::LocalAttr },
                            );
                            lemma_instrs_vars_bound_monotone(instrs, t1, t2);
                            if target_type == TypeV::Long {
                                lemma_bound_push(
                                    instrs,
                                    ir::InstructionV::SignExtend {
                                        src: result,
                                        dst: IrValueV::Var(dst_name),
                                    },
                                    t2,
                                );
                            } else {
                                lemma_bound_push(
                                    instrs,
                                    ir::InstructionV::Truncate {
                                        src: result,
                                        dst: IrValueV::Var(dst_name),
                                    },
                                    t2,
                                );
                            }
                        }
                    },
                    _ => {},
                }
            },
            TypedInnerExpV::Unary(op, inner) => {
                lemma_emit_exp_vars(inner, table, c);
                match spec_emit_exp(inner, table, c) {
                    Ok((instrs, v1, t1, c1)) => {
                        let (dst_name, t2, _c2) = spec_create_tmp(e.t, t1, c1);
                        lemma_insert_extends(
                            t1,
                            temp_name(c1),
                            EntryV { t: e.t, attrs: IdentifierAttrs::LocalAttr },
                        );
                        lemma_instrs_vars_bound_monotone(instrs, t1, t2);
                        lemma_bound_push(
                            instrs,
                            ir::InstructionV::Unary {
                                op: spec_convert_op(op),
                                src: v1,
                                dst: IrValueV::Var(dst_name),
                            },
                            t2,
                        );
                    },
                    _ => {},
                }
            },
            TypedInnerExpV::Binary(_, _, _) => {
                lemma_emit_exp_vars_binary(e, table, c);
            },
            TypedInnerExpV::Assignment(lhs, rhs) => {
                match *lhs.e {
                    TypedInnerExpV::Var(v) => {
                        lemma_emit_exp_vars(rhs, table, c);
                        match spec_emit_exp(rhs, table, c) {
                            Ok((instrs, result, t1, c1)) => {
                                assert(exp_vars_bound(lhs, table));
                                assert(spec_get(table, v) is Some);
                                assert(spec_get(t1, v) is Some);
                                lemma_bound_push(
                                    instrs,
                                    ir::InstructionV::Copy { src: result, dst: IrValueV::Var(v) },
                                    t1,
                                );
                            },
                            _ => {},
                        }
                    },
                    _ => {},
                }
            },
            TypedInnerExpV::Conditional { .. } => {
                lemma_emit_exp_vars_conditional(e, table, c);
            },
            TypedInnerExpV::FunCall { f, args } => {
                lemma_emit_args_vars(args, Ghost(e), table, c);
                match spec_emit_args(args, table, c) {
                    Ok((instrs, vals, t1, c1)) => {
                        let (dst_name, t2, _c2) = spec_create_tmp(e.t, t1, c1);
                        lemma_insert_extends(
                            t1,
                            temp_name(c1),
                            EntryV { t: e.t, attrs: IdentifierAttrs::LocalAttr },
                        );
                        lemma_instrs_vars_bound_monotone(instrs, t1, t2);
                        assert forall|k: int|
                            0 <= k < vals.push(IrValueV::Var(dst_name)).len() implies var_bound(
                            #[trigger] vals.push(IrValueV::Var(dst_name))[k],
                            t2,
                        ) by {
                            if k < vals.len() {
                                assert(var_bound(vals[k], t1));
                            }
                        }
                        lemma_bound_push(
                            instrs,
                            ir::InstructionV::FunCall {
                                f,
                                args: vals,
                                dst: IrValueV::Var(dst_name),
                            },
                            t2,
                        );
                    },
                    _ => {},
                }
            },
        }
    }
}

/// Every variable the lowering of an argument list mentions or returns
/// is bound in the table it returns.
#[verifier::rlimit(100)]
#[verifier::spinoff_prover]
proof fn lemma_emit_args_vars(
    args: Seq<TypedExpV>,
    parent: Ghost<TypedExpV>,
    table: SymTableV,
    c: nat,
)
    requires
        exps_vars_bound(args, table),
        decreases_to!(parent@ => args),
    ensures
        spec_emit_args(args, table, c) matches Ok((instrs, vals, t1, c1)) ==> table_extends(
            table,
            t1,
        ) && instrs_vars_bound(instrs, t1) && forall|k: int|
            0 <= k < vals.len() ==> var_bound(#[trigger] vals[k], t1),
    decreases parent@, 0int, args.len(),
{
    if args.len() > 0 && spec_emit_args(args, table, c) is Ok {
        lemma_emit_args_vars(args.drop_last(), parent, table, c);
        match spec_emit_args(args.drop_last(), table, c) {
            Ok((instrs, vals, t1, c1)) => {
                lemma_exp_vars_bound_monotone(args.last(), table, t1);
                assert(decreases_to!(args => args.last()));
                lemma_emit_exp_vars(args.last(), t1, c1);
                match spec_emit_exp(args.last(), t1, c1) {
                    Ok((i1, v1, t2, c2)) => {
                        lemma_instrs_vars_bound_monotone(instrs, t1, t2);
                        let out = spec_emit_args(args, table, c)->Ok_0.0;
                        lemma_bound_concat(instrs, i1, t2);
                        assert forall|k: int|
                            0 <= k < vals.push(v1).len() implies var_bound(
                            #[trigger] vals.push(v1)[k],
                            t2,
                        ) by {
                            if k < vals.len() {
                                assert(var_bound(vals[k], t1));
                            }
                        }
                    },
                    _ => {},
                }
            },
            _ => {},
        }
    }
}

/// The lowering of one expression: its instructions, the value holding
/// its result, and the extended symbol table and counter.
pub open spec fn spec_emit_exp(e: TypedExpV, table: SymTableV, c: nat) -> Result<
    (Seq<ir::InstructionV>, IrValueV, SymTableV, nat),
    CompileErrorV,
>
    decreases e,
{
    match *e.e {
        TypedInnerExpV::Constant(k) => Ok((Seq::empty(), IrValueV::Constant(k), table, c)),
        TypedInnerExpV::Var(v) => Ok((Seq::empty(), IrValueV::Var(v), table, c)),
        TypedInnerExpV::Cast { target_type, e: inner } => {
            match spec_emit_exp(inner, table, c) {
                Err(err) => Err(err),
                Ok((instrs, result, table1, c1)) => {
                    if target_type == inner.t {
                        Ok((instrs, result, table1, c1))
                    } else if target_type == TypeV::Long {
                        let (dst_name, table2, c2) = spec_create_tmp(target_type, table1, c1);
                        Ok(
                            (
                                instrs.push(
                                    ir::InstructionV::SignExtend {
                                        src: result,
                                        dst: IrValueV::Var(dst_name),
                                    },
                                ),
                                IrValueV::Var(dst_name),
                                table2,
                                c2,
                            ),
                        )
                    } else if target_type == TypeV::Int {
                        let (dst_name, table2, c2) = spec_create_tmp(target_type, table1, c1);
                        Ok(
                            (
                                instrs.push(
                                    ir::InstructionV::Truncate {
                                        src: result,
                                        dst: IrValueV::Var(dst_name),
                                    },
                                ),
                                IrValueV::Var(dst_name),
                                table2,
                                c2,
                            ),
                        )
                    } else {
                        Err(CompileErrorV::Internal)
                    }
                },
            }
        },
        TypedInnerExpV::Unary(op, inner) => {
            match spec_emit_exp(inner, table, c) {
                Err(err) => Err(err),
                Ok((instrs, v, table1, c1)) => {
                    let (dst_name, table2, c2) = spec_create_tmp(e.t, table1, c1);
                    Ok(
                        (
                            instrs.push(
                                ir::InstructionV::Unary {
                                    op: spec_convert_op(op),
                                    src: v,
                                    dst: IrValueV::Var(dst_name),
                                },
                            ),
                            IrValueV::Var(dst_name),
                            table2,
                            c2,
                        ),
                    )
                },
            }
        },
        TypedInnerExpV::Binary(op, e1, e2) => {
            if op == crate::ast::BinaryOperator::And {
                match spec_emit_exp(e1, table, c) {
                    Err(err) => Err(err),
                    Ok((i1, v1, table1, c1)) => match spec_emit_exp(e2, table1, c1) {
                        Err(err) => Err(err),
                        Ok((i2, v2, table2, c2)) => {
                            let false_label = label_name("and_false"@, c2);
                            let end_label = label_name("and_end"@, bump(c2));
                            let (dst_name, table3, c3) = spec_create_tmp(
                                TypeV::Int,
                                table2,
                                bump(bump(c2)),
                            );
                            let dst = IrValueV::Var(dst_name);
                            Ok(
                                (
                                    i1.push(ir::InstructionV::JumpIfZero(v1, false_label)) + i2
                                        + seq![
                                        ir::InstructionV::JumpIfZero(v2, false_label),
                                        ir::InstructionV::Copy {
                                            src: IrValueV::Constant(constants::T::ConstInt(1)),
                                            dst,
                                        },
                                        ir::InstructionV::Jump(end_label),
                                        ir::InstructionV::Label(false_label),
                                        ir::InstructionV::Copy {
                                            src: IrValueV::Constant(constants::T::ConstInt(0)),
                                            dst,
                                        },
                                        ir::InstructionV::Label(end_label),
                                    ],
                                    dst,
                                    table3,
                                    c3,
                                ),
                            )
                        },
                    },
                }
            } else if op == crate::ast::BinaryOperator::Or {
                match spec_emit_exp(e1, table, c) {
                    Err(err) => Err(err),
                    Ok((i1, v1, table1, c1)) => match spec_emit_exp(e2, table1, c1) {
                        Err(err) => Err(err),
                        Ok((i2, v2, table2, c2)) => {
                            let true_label = label_name("or_true"@, c2);
                            let end_label = label_name("or_end"@, bump(c2));
                            let (dst_name, table3, c3) = spec_create_tmp(
                                TypeV::Int,
                                table2,
                                bump(bump(c2)),
                            );
                            let dst = IrValueV::Var(dst_name);
                            Ok(
                                (
                                    i1.push(ir::InstructionV::JumpIfNotZero(v1, true_label)) + i2
                                        + seq![
                                        ir::InstructionV::JumpIfNotZero(v2, true_label),
                                        ir::InstructionV::Copy {
                                            src: IrValueV::Constant(constants::T::ConstInt(0)),
                                            dst,
                                        },
                                        ir::InstructionV::Jump(end_label),
                                        ir::InstructionV::Label(true_label),
                                        ir::InstructionV::Copy {
                                            src: IrValueV::Constant(constants::T::ConstInt(1)),
                                            dst,
                                        },
                                        ir::InstructionV::Label(end_label),
                                    ],
                                    dst,
                                    table3,
                                    c3,
                                ),
                            )
                        },
                    },
                }
            } else {
                match spec_emit_exp(e1, table, c) {
                    Err(err) => Err(err),
                    Ok((i1, v1, table1, c1)) => match spec_emit_exp(e2, table1, c1) {
                        Err(err) => Err(err),
                        Ok((i2, v2, table2, c2)) => match spec_convert_binop(op) {
                            Err(err) => Err(err),
                            Ok(ir_op) => {
                                let (dst_name, table3, c3) = spec_create_tmp(e.t, table2, c2);
                                let dst = IrValueV::Var(dst_name);
                                Ok(
                                    (
                                        i1 + i2 + seq![
                                            ir::InstructionV::Binary {
                                                op: ir_op,
                                                src1: v1,
                                                src2: v2,
                                                dst,
                                            },
                                        ],
                                        dst,
                                        table3,
                                        c3,
                                    ),
                                )
                            },
                        },
                    },
                }
            }
        },
        TypedInnerExpV::Assignment(lhs, rhs) => {
            match *lhs.e {
                TypedInnerExpV::Var(v) => {
                    match spec_emit_exp(rhs, table, c) {
                        Err(err) => Err(err),
                        Ok((instrs, result, table1, c1)) => Ok(
                            (
                                instrs.push(
                                    ir::InstructionV::Copy { src: result, dst: IrValueV::Var(v) },
                                ),
                                IrValueV::Var(v),
                                table1,
                                c1,
                            ),
                        ),
                    }
                },
                _ => Err(CompileErrorV::Internal),
            }
        },
        TypedInnerExpV::Conditional { condition, then_result, else_result } => {
            match spec_emit_exp(condition, table, c) {
                Err(err) => Err(err),
                Ok((ic, vc, table1, c1)) => match spec_emit_exp(then_result, table1, c1) {
                    Err(err) => Err(err),
                    Ok((i1, v1, table2, c2)) => match spec_emit_exp(else_result, table2, c2) {
                        Err(err) => Err(err),
                        Ok((i2, v2, table3, c3)) => {
                            let else_label = label_name("conditional_else"@, c3);
                            let end_label = label_name("conditional_end"@, bump(c3));
                            let (dst_name, table4, c4) = spec_create_tmp(
                                e.t,
                                table3,
                                bump(bump(c3)),
                            );
                            let dst = IrValueV::Var(dst_name);
                            Ok(
                                (
                                    ic.push(ir::InstructionV::JumpIfZero(vc, else_label)) + i1
                                        + seq![
                                        ir::InstructionV::Copy { src: v1, dst },
                                        ir::InstructionV::Jump(end_label),
                                        ir::InstructionV::Label(else_label),
                                    ] + i2 + seq![
                                        ir::InstructionV::Copy { src: v2, dst },
                                        ir::InstructionV::Label(end_label),
                                    ],
                                    dst,
                                    table4,
                                    c4,
                                ),
                            )
                        },
                    },
                },
            }
        },
        TypedInnerExpV::FunCall { f, args } => {
            match spec_emit_args(args, table, c) {
                Err(err) => Err(err),
                Ok((instrs, vals, table1, c1)) => {
                    let (dst_name, table2, c2) = spec_create_tmp(e.t, table1, c1);
                    let dst = IrValueV::Var(dst_name);
                    Ok(
                        (
                            instrs.push(ir::InstructionV::FunCall { f, args: vals, dst }),
                            dst,
                            table2,
                            c2,
                        ),
                    )
                },
            }
        },
    }
}

/// A cast from `int` to `long` lowers to a sign extension, and a cast
/// from `long` to `int` lowers to a truncation, each into a fresh
/// temporary of the target type.
pub proof fn lemma_cast_lowering(e: TypedExpV, table: SymTableV, c: nat)
    requires
        *e.e is Cast,
        spec_emit_exp(e, table, c) is Ok,
    ensures
        ({
            let target = (*e.e)->Cast_target_type;
            let src = (*e.e)->Cast_e;
            &&& (target == TypeV::Long && src.t == TypeV::Int ==> spec_emit_exp(
                e,
                table,
                c,
            )->Ok_0.0.last() is SignExtend)
            &&& (target == TypeV::Int && src.t == TypeV::Long ==> spec_emit_exp(
                e,
                table,
                c,
            )->Ok_0.0.last() is Truncate)
            &&& (target == src.t ==> spec_emit_exp(e, table, c) == spec_emit_exp(src, table, c))
        }),
{
}

/// A `break` (resp. `continue`) lowers to exactly one jump, to the
/// `break.` (resp. `continue.`) label of its loop id.
pub proof fn lemma_break_continue_lowering(id: Seq<char>, table: SymTableV, c: nat)
    ensures
        spec_emit_statement(StatementV::Break(id), table, c) == Ok::<
            (Seq<ir::InstructionV>, SymTableV, nat),
            CompileErrorV,
        >((seq![ir::InstructionV::Jump(spec_break_label(id))], table, c)),
        spec_emit_statement(StatementV::Continue(id), table, c) == Ok::<
            (Seq<ir::InstructionV>, SymTableV, nat),
            CompileErrorV,
        >((seq![ir::InstructionV::Jump(spec_continue_label(id))], table, c)),
{
}

/// Whether every variable a local variable declaration mentions is
/// bound: its own name, and its initializer's variables.
pub open spec fn decl_vars_bound(vd: VariableDeclarationV<TypedExpV>, table: SymTableV) -> bool {
    spec_get(table, vd.name) is Some && (vd.init matches Some(e) ==> exp_vars_bound(e, table))
}

/// Whether every variable a statement mentions is bound.
pub open spec fn stmt_vars_bound(s: StatementV<TypedExpV>, table: SymTableV) -> bool
    decreases s,
{
    match s {
        StatementV::Return(e) => exp_vars_bound(e, table),
        StatementV::Expression(e) => exp_vars_bound(e, table),
        StatementV::If { condition, then_clause, else_clause } => exp_vars_bound(condition, table)
            && stmt_vars_bound(*then_clause, table) && (else_clause matches Some(els)
            ==> stmt_vars_bound(*els, table)),
        StatementV::Compound(BlockV::Block(items)) => items_vars_bound(items, table),
        StatementV::While { condition, body, id: _ } => exp_vars_bound(condition, table)
            && stmt_vars_bound(*body, table),
        StatementV::DoWhile { body, condition, id: _ } => exp_vars_bound(condition, table)
            && stmt_vars_bound(*body, table),
        StatementV::For { init, condition, post, body, id: _ } => {
            &&& (match init {
                ForInitV::InitDecl(vd) => decl_vars_bound(vd, table),
                ForInitV::InitExp(Some(e)) => exp_vars_bound(e, table),
                ForInitV::InitExp(None) => true,
            })
            &&& (condition matches Some(e) ==> exp_vars_bound(e, table))
            &&& (post matches Some(e) ==> exp_vars_bound(e, table))
            &&& stmt_vars_bound(*body, table)
        },
        _ => true,
    }
}

/// Whether every variable of each block item is bound.
pub open spec fn items_vars_bound(items: Seq<BlockItemV<TypedExpV>>, table: SymTableV) -> bool
    decreases items,
{
    if items.len() == 0 {
        true
    } else {
        items_vars_bound(items.drop_last(), table) && (match items.last() {
            BlockItemV::S(s) => stmt_vars_bound(s, table),
            BlockItemV::D(DeclarationV::VarDecl(vd)) => decl_vars_bound(vd, table),
            BlockItemV::D(DeclarationV::FunDecl(_)) => true,
        })
    }
}

/// Bound statements stay bound in an extending table.
pub proof fn lemma_stmt_vars_bound_monotone(s: StatementV<TypedExpV>, t1: SymTableV, t2: SymTableV)
    requires
        stmt_vars_bound(s, t1),
        table_extends(t1, t2),
    ensures
        stmt_vars_bound(s, t2),
    decreases s,
{
    match s {
        StatementV::Return(e) => {
            lemma_exp_vars_bound_monotone(e, t1, t2);
        },
        StatementV::Expression(e) => {
            lemma_exp_vars_bound_monotone(e, t1, t2);
        },
        StatementV::If { condition, then_clause, else_clause } => {
            lemma_exp_vars_bound_monotone(condition, t1, t2);
            lemma_stmt_vars_bound_monotone(*then_clause, t1, t2);
            match else_clause {
                Some(els) => lemma_stmt_vars_bound_monotone(*els, t1, t2),
                None => {},
            }
        },
        StatementV::Compound(BlockV::Block(items)) => {
            lemma_items_vars_bound_monotone(items, t1, t2);
        },
        StatementV::While { condition, body, id: _ } => {
            lemma_exp_vars_bound_monotone(condition, t1, t2);
            lemma_stmt_vars_bound_monotone(*body, t1, t2);
        },
        StatementV::DoWhile { body, condition, id: _ } => {
            lemma_exp_vars_bound_monotone(condition, t1, t2);
            lemma_stmt_vars_bound_monotone(*body, t1, t2);
        },
        StatementV::For { init, condition, post, body, id: _ } => {
            match init {
                ForInitV::InitDecl(vd) => {
                    match vd.init {
                        Some(e) => lemma_exp_vars_bound_monotone(e, t1, t2),
                        None => {},
                    }
                },
                ForInitV::InitExp(Some(e)) => lemma_exp_vars_bound_monotone(e, t1, t2),
                ForInitV::InitExp(None) => {},
            }
            match condition {
                Some(e) => lemma_exp_vars_bound_monotone(e, t1, t2),
                None => {},
            }
            match post {
                Some(e) => lemma_exp_vars_bound_monotone(e, t1, t2),
                None => {},
            }
            lemma_stmt_vars_bound_monotone(*body, t1, t2);
        },
        _ => {},
    }
}

/// Bound block items stay bound in an extending table.
pub proof fn lemma_items_vars_bound_monotone(
    items: Seq<BlockItemV<TypedExpV>>,
    t1: SymTableV,
    t2: SymTableV,
)
    requires
        items_vars_bound(items, t1),
        table_extends(t1, t2),
    ensures
        items_vars_bound(items, t2),
    decreases items,
{
    if items.len() > 0 {
        lemma_items_vars_bound_monotone(items.drop_last(), t1, t2);
        match items.last() {
            BlockItemV::S(s) => lemma_stmt_vars_bound_monotone(s, t1, t2),
            BlockItemV::D(DeclarationV::VarDecl(vd)) => {
                match vd.init {
                    Some(e) => lemma_exp_vars_bound_monotone(e, t1, t2),
                    None => {},
                }
            },
            BlockItemV::D(DeclarationV::FunDecl(_)) => {},
        }
    }
}

/// Every variable a lowered declaration writes is bound afterwards.
proof fn lemma_emit_var_declaration_vars(
    vd: VariableDeclarationV<TypedExpV>,
    table: SymTableV,
    c: nat,
)
    requires
        decl_vars_bound(vd, table),
    ensures
        spec_emit_var_declaration(vd, table, c) matches Ok((instrs, t1, c1)) ==> table_extends(
            table,
            t1,
        ) && instrs_vars_bound(instrs, t1),
{
    if spec_emit_var_declaration(vd, table, c) is Ok {
        if !(vd.storage_class is Some) {
            match vd.init {
                Some(e) => {
                    lemma_emit_exp_vars(e, table, c);
                    match spec_emit_exp(e, table, c) {
                        Ok((instrs, result, t1, c1)) => {
                            assert(spec_get(t1, vd.name) is Some);
                            lemma_bound_push(
                                instrs,
                                ir::InstructionV::Copy {
                                    src: result,
                                    dst: IrValueV::Var(vd.name),
                                },
                                t1,
                            );
                        },
                        _ => {},
                    }
                },
                None => {},
            }
        }
    }
}

/// The lowering of a call's arguments, left to right.
pub open spec fn spec_emit_args(args: Seq<TypedExpV>, table: SymTableV, c: nat) -> Result<
    (Seq<ir::InstructionV>, Seq<IrValueV>, SymTableV, nat),
    CompileErrorV,
>
    decreases args,
{
    if args.len() == 0 {
        Ok((Seq::empty(), Seq::empty(), table, c))
    } else {
        match spec_emit_args(args.drop_last(), table, c) {
            Err(err) => Err(err),
            Ok((instrs, vals, table1, c1)) => match spec_emit_exp(args.last(), table1, c1) {
                Err(err) => Err(err),
                Ok((i1, v1, table2, c2)) => Ok((instrs + i1, vals.push(v1), table2, c2)),
            },
        }
    }
}

/// The lowering of a local variable declaration: an automatic local
/// with an initializer becomes a copy into the variable; everything
/// else lowers to nothing.
pub open spec fn spec_emit_var_declaration(
    vd: VariableDeclarationV<TypedExpV>,
    table: SymTableV,
    c: nat,
) -> Result<(Seq<ir::InstructionV>, SymTableV, nat), CompileErrorV> {
    if vd.storage_class is Some {
        Ok((Seq::empty(), table, c))
    } else {
        match vd.init {
            Some(e) => {
                match spec_emit_exp(e, table, c) {
                    Err(err) => Err(err),
                    Ok((instrs, result, table1, c1)) => Ok(
                        (
                            instrs.push(
                                ir::InstructionV::Copy {
                                    src: result,
                                    dst: IrValueV::Var(vd.name),
                                },
                            ),
                            table1,
                            c1,
                        ),
                    ),
                }
            },
            None => Ok((Seq::empty(), table, c)),
        }
    }
}

/// The lowering of one statement.
pub open spec fn spec_emit_statement(
    s: StatementV<TypedExpV>,
    table: SymTableV,
    c: nat,
) -> Result<(Seq<ir::InstructionV>, SymTableV, nat), CompileErrorV>
    decreases s,
{
    match s {
        StatementV::Return(e) => {
            match spec_emit_exp(e, table, c) {
                Err(err) => Err(err),
                Ok((instrs, v, table1, c1)) => Ok(
                    (instrs.push(ir::InstructionV::Return(v)), table1, c1),
                ),
            }
        },
        StatementV::Expression(e) => {
            match spec_emit_exp(e, table, c) {
                Err(err) => Err(err),
                Ok((instrs, _, table1, c1)) => Ok((instrs, table1, c1)),
            }
        },
        StatementV::If { condition, then_clause, else_clause } => {
            match else_clause {
                None => {
                    let end_label = label_name("if_end"@, c);
                    match spec_emit_exp(condition, table, bump(c)) {
                        Err(err) => Err(err),
                        Ok((ic, vc, table1, c1)) => match spec_emit_statement(
                            *then_clause,
                            table1,
                            c1,
                        ) {
                            Err(err) => Err(err),
                            Ok((it, table2, c2)) => Ok(
                                (
                                    ic.push(ir::InstructionV::JumpIfZero(vc, end_label)) + it
                                        + seq![ir::InstructionV::Label(end_label)],
                                    table2,
                                    c2,
                                ),
                            ),
                        },
                    }
                },
                Some(els) => {
                    let else_label = label_name("else"@, c);
                    let end_label = label_name("if_end"@, bump(c));
                    match spec_emit_exp(condition, table, bump(bump(c))) {
                        Err(err) => Err(err),
                        Ok((ic, vc, table1, c1)) => match spec_emit_statement(
                            *then_clause,
                            table1,
                            c1,
                        ) {
                            Err(err) => Err(err),
                            Ok((it, table2, c2)) => match spec_emit_statement(
                                *els,
                                table2,
                                c2,
                            ) {
                                Err(err) => Err(err),
                                Ok((ie, table3, c3)) => Ok(
                                    (
                                        ic.push(ir::InstructionV::JumpIfZero(vc, else_label)) + it
                                            + seq![
                                            ir::InstructionV::Jump(end_label),
                                            ir::InstructionV::Label(else_label),
                                        ] + ie + seq![ir::InstructionV::Label(end_label)],
                                        table3,
                                        c3,
                                    ),
                                ),
                            },
                        },
                    }
                },
            }
        },
        StatementV::Compound(BlockV::Block(items)) => spec_emit_items(items, table, c),
        StatementV::Break(id) => Ok(
            (seq![ir::InstructionV::Jump(spec_break_label(id))], table, c),
        ),
        StatementV::Continue(id) => Ok(
            (seq![ir::InstructionV::Jump(spec_continue_label(id))], table, c),
        ),
        StatementV::DoWhile { body, condition, id } => {
            let start_label = label_name("do_loop_start"@, c);
            match spec_emit_statement(*body, table, bump(c)) {
                Err(err) => Err(err),
                Ok((ib, table1, c1)) => match spec_emit_exp(condition, table1, c1) {
                    Err(err) => Err(err),
                    Ok((ic, vc, table2, c2)) => Ok(
                        (
                            seq![ir::InstructionV::Label(start_label)] + ib + seq![
                                ir::InstructionV::Label(spec_continue_label(id)),
                            ] + ic + seq![
                                ir::InstructionV::JumpIfNotZero(vc, start_label),
                                ir::InstructionV::Label(spec_break_label(id)),
                            ],
                            table2,
                            c2,
                        ),
                    ),
                },
            }
        },
        StatementV::While { condition, body, id } => {
            match spec_emit_exp(condition, table, c) {
                Err(err) => Err(err),
                Ok((ic, vc, table1, c1)) => match spec_emit_statement(*body, table1, c1) {
                    Err(err) => Err(err),
                    Ok((ib, table2, c2)) => Ok(
                        (
                            seq![ir::InstructionV::Label(spec_continue_label(id))] + ic + seq![
                                ir::InstructionV::JumpIfZero(vc, spec_break_label(id)),
                            ] + ib + seq![
                                ir::InstructionV::Jump(spec_continue_label(id)),
                                ir::InstructionV::Label(spec_break_label(id)),
                            ],
                            table2,
                            c2,
                        ),
                    ),
                },
            }
        },
        StatementV::For { init, condition, post, body, id } => {
            let start_label = label_name("for_start"@, c);
            let init_r: Result<(Seq<ir::InstructionV>, SymTableV, nat), CompileErrorV> = match init {
                ForInitV::InitDecl(d) => spec_emit_var_declaration(d, table, bump(c)),
                ForInitV::InitExp(Some(e)) => match spec_emit_exp(e, table, bump(c)) {
                    Err(err) => Err(err),
                    Ok((ii, _, t1, c1)) => Ok((ii, t1, c1)),
                },
                ForInitV::InitExp(None) => Ok((Seq::empty(), table, bump(c))),
            };
            match init_r {
                Err(err) => Err(err),
                Ok((ii, table1, c1)) => {
                    let cond_r: Result<
                        (Seq<ir::InstructionV>, SymTableV, nat),
                        CompileErrorV,
                    > = match condition {
                        Some(ce) => match spec_emit_exp(ce, table1, c1) {
                            Err(err) => Err(err),
                            Ok((ic, vc, t2, c2)) => Ok(
                                (
                                    ic.push(
                                        ir::InstructionV::JumpIfZero(vc, spec_break_label(id)),
                                    ),
                                    t2,
                                    c2,
                                ),
                            ),
                        },
                        None => Ok((Seq::empty(), table1, c1)),
                    };
                    match cond_r {
                        Err(err) => Err(err),
                        Ok((ic, table2, c2)) => {
                            let post_r: Result<
                                (Seq<ir::InstructionV>, SymTableV, nat),
                                CompileErrorV,
                            > = match post {
                                Some(pe) => match spec_emit_exp(pe, table2, c2) {
                                    Err(err) => Err(err),
                                    Ok((ip, _, t3, c3)) => Ok((ip, t3, c3)),
                                },
                                None => Ok((Seq::empty(), table2, c2)),
                            };
                            match post_r {
                                Err(err) => Err(err),
                                Ok((ip, table3, c3)) => match spec_emit_statement(
                                    *body,
                                    table3,
                                    c3,
                                ) {
                                    Err(err) => Err(err),
                                    Ok((ib, table4, c4)) => Ok(
                                        (
                                            ii + seq![ir::InstructionV::Label(start_label)] + ic
                                                + ib + seq![
                                                ir::InstructionV::Label(spec_continue_label(id)),
                                            ] + ip + seq![
                                                ir::InstructionV::Jump(start_label),
                                                ir::InstructionV::Label(spec_break_label(id)),
                                            ],
                                            table4,
                                            c4,
                                        ),
                                    ),
                                },
                            }
                        },
                    }
                },
            }
        },
        StatementV::Null => Ok((Seq::empty(), table, c)),
    }
}

/// What the variable lemma claims of one statement lowering.
pub open spec fn emit_stmt_vars_ok(s: StatementV<TypedExpV>, table: SymTableV, c: nat) -> bool {
    spec_emit_statement(s, table, c) matches Ok((instrs, t1, c1)) ==> table_extends(table, t1)
        && instrs_vars_bound(instrs, t1)
}

/// The `if` arm of the statement variable lemma.
#[verifier::rlimit(100)]
#[verifier::spinoff_prover]
proof fn lemma_emit_stmt_vars_if(s: StatementV<TypedExpV>, table: SymTableV, c: nat)
    requires
        stmt_vars_bound(s, table),
        s is If,
    ensures
        emit_stmt_vars_ok(s, table, c),
    decreases s, 0int,
{
    if spec_emit_statement(s, table, c) is Ok {
        match s {
            StatementV::If { condition, then_clause, else_clause } => {
                match else_clause {
                    None => {
                        let el = label_name("if_end"@, c);
                        lemma_emit_exp_vars(condition, table, bump(c));
                        match spec_emit_exp(condition, table, bump(c)) {
                            Ok((ic, vc, t1, c1)) => {
                                lemma_stmt_vars_bound_monotone(*then_clause, table, t1);
                                lemma_emit_statement_vars(*then_clause, t1, c1);
                                match spec_emit_statement(*then_clause, t1, c1) {
                                    Ok((it, t2, c2)) => {
                                        lemma_instrs_vars_bound_monotone(ic, t1, t2);
                                        lemma_bound_push(
                                            ic,
                                            ir::InstructionV::JumpIfZero(vc, el),
                                            t2,
                                        );
                                        lemma_bound_concat(
                                            ic.push(ir::InstructionV::JumpIfZero(vc, el)),
                                            it,
                                            t2,
                                        );
                                        lemma_bound_concat(
                                            ic.push(ir::InstructionV::JumpIfZero(vc, el)) + it,
                                            seq![ir::InstructionV::Label(el)],
                                            t2,
                                        );
                                    },
                                    _ => {},
                                }
                            },
                            _ => {},
                        }
                    },
                    Some(els) => {
                        let el = label_name("else"@, c);
                        let en = label_name("if_end"@, bump(c));
                        lemma_emit_exp_vars(condition, table, bump(bump(c)));
                        match spec_emit_exp(condition, table, bump(bump(c))) {
                            Ok((ic, vc, t1, c1)) => {
                                lemma_stmt_vars_bound_monotone(*then_clause, table, t1);
                                lemma_emit_statement_vars(*then_clause, t1, c1);
                                match spec_emit_statement(*then_clause, t1, c1) {
                                    Ok((it, t2, c2)) => {
                                        lemma_stmt_vars_bound_monotone(*els, table, t1);
                                        lemma_stmt_vars_bound_monotone(*els, t1, t2);
                                        lemma_emit_statement_vars(*els, t2, c2);
                                        match spec_emit_statement(*els, t2, c2) {
                                            Ok((ie, t3, c3)) => {
                                                lemma_instrs_vars_bound_monotone(ic, t1, t2);
                                                lemma_instrs_vars_bound_monotone(ic, t2, t3);
                                                lemma_instrs_vars_bound_monotone(it, t2, t3);
                                                lemma_bound_push(
                                                    ic,
                                                    ir::InstructionV::JumpIfZero(vc, el),
                                                    t3,
                                                );
                                                lemma_bound_concat(
                                                    ic.push(
                                                        ir::InstructionV::JumpIfZero(vc, el),
                                                    ),
                                                    it,
                                                    t3,
                                                );
                                                let mid = seq![
                                                    ir::InstructionV::Jump(en),
                                                    ir::InstructionV::Label(el),
                                                ];
                                                assert(instrs_vars_bound(mid, t3));
                                                lemma_bound_concat(
                                                    ic.push(
                                                        ir::InstructionV::JumpIfZero(vc, el),
                                                    ) + it,
                                                    mid,
                                                    t3,
                                                );
                                                lemma_bound_concat(
                                                    ic.push(
                                                        ir::InstructionV::JumpIfZero(vc, el),
                                                    ) + it + mid,
                                                    ie,
                                                    t3,
                                                );
                                                lemma_bound_concat(
                                                    ic.push(
                                                        ir::InstructionV::JumpIfZero(vc, el),
                                                    ) + it + mid + ie,
                                                    seq![ir::InstructionV::Label(en)],
                                                    t3,
                                                );
                                            },
                                            _ => {},
                                        }
                                    },
                                    _ => {},
                                }
                            },
                            _ => {},
                        }
                    },
                }
            },
            _ => {},
        }
    }
}

/// The loop arms of the statement variable lemma.
#[verifier::rlimit(100)]
#[verifier::spinoff_prover]
proof fn lemma_emit_stmt_vars_loops(s: StatementV<TypedExpV>, table: SymTableV, c: nat)
    requires
        stmt_vars_bound(s, table),
        s is While || s is DoWhile || s is For,
    ensures
        emit_stmt_vars_ok(s, table, c),
    decreases s, 0int,
{
    if spec_emit_statement(s, table, c) is Ok {
        match s {
            StatementV::While { condition, body, id } => {
                lemma_emit_exp_vars(condition, table, c);
                match spec_emit_exp(condition, table, c) {
                    Ok((ic, vc, t1, c1)) => {
                        lemma_stmt_vars_bound_monotone(*body, table, t1);
                        lemma_emit_statement_vars(*body, t1, c1);
                        match spec_emit_statement(*body, t1, c1) {
                            Ok((ib, t2, c2)) => {
                                lemma_instrs_vars_bound_monotone(ic, t1, t2);
                                let cont = spec_continue_label(id);
                                let brk = spec_break_label(id);
                                lemma_bound_concat(
                                    seq![ir::InstructionV::Label(cont)],
                                    ic,
                                    t2,
                                );
                                lemma_bound_concat(
                                    seq![ir::InstructionV::Label(cont)] + ic,
                                    seq![ir::InstructionV::JumpIfZero(vc, brk)],
                                    t2,
                                );
                                lemma_bound_concat(
                                    seq![ir::InstructionV::Label(cont)] + ic + seq![
                                        ir::InstructionV::JumpIfZero(vc, brk),
                                    ],
                                    ib,
                                    t2,
                                );
                                lemma_bound_concat(
                                    seq![ir::InstructionV::Label(cont)] + ic + seq![
                                        ir::InstructionV::JumpIfZero(vc, brk),
                                    ] + ib,
                                    seq![
                                        ir::InstructionV::Jump(cont),
                                        ir::InstructionV::Label(brk),
                                    ],
                                    t2,
                                );
                            },
                            _ => {},
                        }
                    },
                    _ => {},
                }
            },
            StatementV::DoWhile { body, condition, id } => {
                let start = label_name("do_loop_start"@, c);
                lemma_emit_statement_vars(*body, table, bump(c));
                match spec_emit_statement(*body, table, bump(c)) {
                    Ok((ib, t1, c1)) => {
                        lemma_exp_vars_bound_monotone(condition, table, t1);
                        lemma_emit_exp_vars(condition, t1, c1);
                        match spec_emit_exp(condition, t1, c1) {
                            Ok((ic, vc, t2, c2)) => {
                                lemma_instrs_vars_bound_monotone(ib, t1, t2);
                                let cont = spec_continue_label(id);
                                let brk = spec_break_label(id);
                                lemma_bound_concat(
                                    seq![ir::InstructionV::Label(start)],
                                    ib,
                                    t2,
                                );
                                lemma_bound_concat(
                                    seq![ir::InstructionV::Label(start)] + ib,
                                    seq![ir::InstructionV::Label(cont)],
                                    t2,
                                );
                                lemma_bound_concat(
                                    seq![ir::InstructionV::Label(start)] + ib + seq![
                                        ir::InstructionV::Label(cont),
                                    ],
                                    ic,
                                    t2,
                                );
                                lemma_bound_concat(
                                    seq![ir::InstructionV::Label(start)] + ib + seq![
                                        ir::InstructionV::Label(cont),
                                    ] + ic,
                                    seq![
                                        ir::InstructionV::JumpIfNotZero(vc, start),
                                        ir::InstructionV::Label(brk),
                                    ],
                                    t2,
                                );
                            },
                            _ => {},
                        }
                    },
                    _ => {},
                }
            },
            StatementV::For { init, condition, post, body, id } => {
                let start = label_name("for_start"@, c);
                let cont = spec_continue_label(id);
                let brk = spec_break_label(id);
                let init_r: Result<
                    (Seq<ir::InstructionV>, SymTableV, nat),
                    CompileErrorV,
                > = match init {
                    ForInitV::InitDecl(d) => spec_emit_var_declaration(d, table, bump(c)),
                    ForInitV::InitExp(Some(e)) => match spec_emit_exp(e, table, bump(c)) {
                        Err(err) => Err(err),
                        Ok((ii, _, t1, c1)) => Ok((ii, t1, c1)),
                    },
                    ForInitV::InitExp(None) => Ok((Seq::empty(), table, bump(c))),
                };
                match init {
                    ForInitV::InitDecl(d) => {
                        lemma_emit_var_declaration_vars(d, table, bump(c));
                    },
                    ForInitV::InitExp(Some(e)) => {
                        lemma_emit_exp_vars(e, table, bump(c));
                    },
                    ForInitV::InitExp(None) => {},
                }
                match init_r {
                    Ok((ii, t1, c1)) => {
                        let cond_r: Result<
                            (Seq<ir::InstructionV>, SymTableV, nat),
                            CompileErrorV,
                        > = match condition {
                            Some(ce) => match spec_emit_exp(ce, t1, c1) {
                                Err(err) => Err(err),
                                Ok((ic, vc, t2, c2)) => Ok(
                                    (
                                        ic.push(ir::InstructionV::JumpIfZero(vc, brk)),
                                        t2,
                                        c2,
                                    ),
                                ),
                            },
                            None => Ok((Seq::empty(), t1, c1)),
                        };
                        match condition {
                            Some(ce) => {
                                lemma_exp_vars_bound_monotone(ce, table, t1);
                                lemma_emit_exp_vars(ce, t1, c1);
                                match spec_emit_exp(ce, t1, c1) {
                                    Ok((ic0, vc, t2x, c2x)) => {
                                        lemma_bound_push(
                                            ic0,
                                            ir::InstructionV::JumpIfZero(vc, brk),
                                            t2x,
                                        );
                                    },
                                    _ => {},
                                }
                            },
                            None => {},
                        }
                        match cond_r {
                            Ok((ic, t2, c2)) => {
                                let post_r: Result<
                                    (Seq<ir::InstructionV>, SymTableV, nat),
                                    CompileErrorV,
                                > = match post {
                                    Some(pe) => match spec_emit_exp(pe, t2, c2) {
                                        Err(err) => Err(err),
                                        Ok((ip, _, t3, c3)) => Ok((ip, t3, c3)),
                                    },
                                    None => Ok((Seq::empty(), t2, c2)),
                                };
                                match post {
                                    Some(pe) => {
                                        lemma_exp_vars_bound_monotone(pe, table, t1);
                                        lemma_exp_vars_bound_monotone(pe, t1, t2);
                                        lemma_emit_exp_vars(pe, t2, c2);
                                    },
                                    None => {},
                                }
                                match post_r {
                                    Ok((ip, t3, c3)) => {
                                        lemma_stmt_vars_bound_monotone(*body, table, t1);
                                        lemma_stmt_vars_bound_monotone(*body, t1, t2);
                                        lemma_stmt_vars_bound_monotone(*body, t2, t3);
                                        lemma_emit_statement_vars(*body, t3, c3);
                                        match spec_emit_statement(*body, t3, c3) {
                                            Ok((ib, t4, c4)) => {
                                                lemma_instrs_vars_bound_monotone(ii, t1, t2);
                                                lemma_instrs_vars_bound_monotone(ii, t2, t3);
                                                lemma_instrs_vars_bound_monotone(ii, t3, t4);
                                                lemma_instrs_vars_bound_monotone(ic, t2, t3);
                                                lemma_instrs_vars_bound_monotone(ic, t3, t4);
                                                lemma_instrs_vars_bound_monotone(ip, t3, t4);
                                                lemma_bound_concat(
                                                    ii,
                                                    seq![ir::InstructionV::Label(start)],
                                                    t4,
                                                );
                                                lemma_bound_concat(
                                                    ii + seq![ir::InstructionV::Label(start)],
                                                    ic,
                                                    t4,
                                                );
                                                lemma_bound_concat(
                                                    ii + seq![ir::InstructionV::Label(start)]
                                                        + ic,
                                                    ib,
                                                    t4,
                                                );
                                                lemma_bound_concat(
                                                    ii + seq![ir::InstructionV::Label(start)]
                                                        + ic + ib,
                                                    seq![ir::InstructionV::Label(cont)],
                                                    t4,
                                                );
                                                lemma_bound_concat(
                                                    ii + seq![ir::InstructionV::Label(start)]
                                                        + ic + ib + seq![
                                                        ir::InstructionV::Label(cont),
                                                    ],
                                                    ip,
                                                    t4,
                                                );
                                                lemma_bound_concat(
                                                    ii + seq![ir::InstructionV::Label(start)]
                                                        + ic + ib + seq![
                                                        ir::InstructionV::Label(cont),
                                                    ] + ip,
                                                    seq![
                                                        ir::InstructionV::Jump(start),
                                                        ir::InstructionV::Label(brk),
                                                    ],
                                                    t4,
                                                );
                                            },
                                            _ => {},
                                        }
                                    },
                                    _ => {},
                                }
                            },
                            _ => {},
                        }
                    },
                    _ => {},
                }
            },
            _ => {},
        }
    }
}

/// Every variable a lowered statement writes is bound in the table it
/// returns.
#[verifier::rlimit(100)]
#[verifier::spinoff_prover]
pub proof fn lemma_emit_statement_vars(s: StatementV<TypedExpV>, table: SymTableV, c: nat)
    requires
        stmt_vars_bound(s, table),
    ensures
        emit_stmt_vars_ok(s, table, c),
    decreases s, 1int,
{
    if spec_emit_statement(s, table, c) is Ok {
        match s {
            StatementV::Return(e) => {
                lemma_emit_exp_vars(e, table, c);
                match spec_emit_exp(e, table, c) {
                    Ok((instrs, v, t1, c1)) => {
                        lemma_bound_push(instrs, ir::InstructionV::Return(v), t1);
                    },
                    _ => {},
                }
            },
            StatementV::Expression(e) => {
                lemma_emit_exp_vars(e, table, c);
            },
            StatementV::If { .. } => {
                lemma_emit_stmt_vars_if(s, table, c);
            },
            StatementV::Compound(BlockV::Block(items)) => {
                lemma_emit_items_vars(items, table, c);
            },
            StatementV::Break(id) => {
                assert(instrs_vars_bound(
                    seq![ir::InstructionV::Jump(spec_break_label(id))],
                    table,
                ));
            },
            StatementV::Continue(id) => {
                assert(instrs_vars_bound(
                    seq![ir::InstructionV::Jump(spec_continue_label(id))],
                    table,
                ));
            },
            StatementV::While { .. } => {
                lemma_emit_stmt_vars_loops(s, table, c);
            },
            StatementV::DoWhile { .. } => {
                lemma_emit_stmt_vars_loops(s, table, c);
            },
            StatementV::For { .. } => {
                lemma_emit_stmt_vars_loops(s, table, c);
            },
            StatementV::Null => {},
        }
    }
}

/// Every variable a lowered block writes is bound in the table it
/// returns.
#[verifier::rlimit(100)]
proof fn lemma_emit_items_vars(items: Seq<BlockItemV<TypedExpV>>, table: SymTableV, c: nat)
    requires
        items_vars_bound(items, table),
    ensures
        spec_emit_items(items, table, c) matches Ok((instrs, t1, c1)) ==> table_extends(table, t1)
            && instrs_vars_bound(instrs, t1),
    decreases items, 0int,
{
    if items.len() > 0 && spec_emit_items(items, table, c) is Ok {
        lemma_emit_items_vars(items.drop_last(), table, c);
        match spec_emit_items(items.drop_last(), table, c) {
            Ok((done, t1, c1)) => {
                match items.last() {
                    BlockItemV::S(st) => {
                        lemma_stmt_vars_bound_monotone(st, table, t1);
                        lemma_emit_statement_vars(st, t1, c1);
                        match spec_emit_statement(st, t1, c1) {
                            Ok((is, t2, c2)) => {
                                lemma_instrs_vars_bound_monotone(done, t1, t2);
                                lemma_bound_concat(done, is, t2);
                            },
                            _ => {},
                        }
                    },
                    BlockItemV::D(DeclarationV::VarDecl(vd)) => {
                        match vd.init {
                            Some(e) => lemma_exp_vars_bound_monotone(e, table, t1),
                            None => {},
                        }
                        lemma_emit_var_declaration_vars(vd, t1, c1);
                        match spec_emit_var_declaration(vd, t1, c1) {
                            Ok((iv, t2, c2)) => {
                                lemma_instrs_vars_bound_monotone(done, t1, t2);
                                lemma_bound_concat(done, iv, t2);
                            },
                            _ => {},
                        }
                    },
                    BlockItemV::D(DeclarationV::FunDecl(_)) => {
                        assert(done + Seq::<ir::InstructionV>::empty() =~= done);
                    },
                }
            },
            _ => {},
        }
    }
}

/// The lowering of the items of a block, in order.
pub open spec fn spec_emit_items(
    items: Seq<BlockItemV<TypedExpV>>,
    table: SymTableV,
    c: nat,
) -> Result<(Seq<ir::InstructionV>, SymTableV, nat), CompileErrorV>
    decreases items,
{
    if items.len() == 0 {
        Ok((Seq::empty(), table, c))
    } else {
        match spec_emit_items(items.drop_last(), table, c) {
            Err(err) => Err(err),
            Ok((done, table1, c1)) => match items.last() {
                BlockItemV::S(s) => match spec_emit_statement(s, table1, c1) {
                    Err(err) => Err(err),
                    Ok((is, table2, c2)) => Ok((done + is, table2, c2)),
                },
                BlockItemV::D(DeclarationV::VarDecl(vd)) => match spec_emit_var_declaration(
                    vd,
                    table1,
                    c1,
                ) {
                    Err(err) => Err(err),
                    Ok((iv, table2, c2)) => Ok((done + iv, table2, c2)),
                },
                BlockItemV::D(DeclarationV::FunDecl(_)) => Ok((done, table1, c1)),
            },
        }
    }
}

/// The lowering of one function definition: its body's instructions
/// followed by a `return 0`, so control never falls off the end.
pub open spec fn spec_emit_fun_declaration(
    fd: FunctionDeclarationV<TypedExpV>,
    table: SymTableV,
    c: nat,
) -> Result<(Option<ir::TopLevelV>, SymTableV, nat), CompileErrorV> {
    match fd.body {
        Some(BlockV::Block(items)) => {
            match spec_get(table, fd.name) {
                None => Err(CompileErrorV::Internal),
                Some(en) => {
                    let global = match en.attrs {
                        IdentifierAttrs::LocalAttr => false,
                        IdentifierAttrs::StaticAttr { init: _, global } => global,
                        IdentifierAttrs::FunAttr { defined: _, global, stack_frame_size: _ } => global,
                    };
                    match spec_emit_items(items, table, c) {
                        Err(err) => Err(err),
                        Ok((instrs, table1, c1)) => Ok(
                            (
                                Some(
                                    ir::TopLevelV::Function {
                                        name: fd.name,
                                        global,
                                        params: fd.params,
                                        body: instrs.push(
                                            ir::InstructionV::Return(
                                                IrValueV::Constant(constants::T::ConstInt(0)),
                                            ),
                                        ),
                                    },
                                ),
                                table1,
                                c1,
                            ),
                        ),
                    }
                },
            }
        },
        None => Ok((None, table, c)),
    }
}

/// Whether every variable a function declaration's body mentions is
/// bound.
pub open spec fn fun_vars_bound(fd: FunctionDeclarationV<TypedExpV>, table: SymTableV) -> bool {
    fd.body matches Some(BlockV::Block(items)) ==> items_vars_bound(items, table)
}

/// Whether every variable of each declaration's body is bound.
pub open spec fn decls_vars_bound(ds: Seq<DeclarationV<TypedExpV>>, table: SymTableV) -> bool
    decreases ds,
{
    if ds.len() == 0 {
        true
    } else {
        decls_vars_bound(ds.drop_last(), table) && (match ds.last() {
            DeclarationV::FunDecl(fd) => fun_vars_bound(fd, table),
            DeclarationV::VarDecl(_) => true,
        })
    }
}

/// Whether every variable the functions of an IR program mention is
/// bound.
pub open spec fn tops_vars_bound(tls: Seq<ir::TopLevelV>, table: SymTableV) -> bool {
    forall|m: int|
        0 <= m < tls.len() && tls[m] is Function ==> instrs_vars_bound(
            (#[trigger] tls[m])->body,
            table,
        )
}

/// Every variable a lowered function mentions is bound in the table it
/// returns.
proof fn lemma_emit_fun_declaration_vars(
    fd: FunctionDeclarationV<TypedExpV>,
    table: SymTableV,
    c: nat,
)
    requires
        fun_vars_bound(fd, table),
    ensures
        spec_emit_fun_declaration(fd, table, c) matches Ok((tl, t1, c1)) ==> table_extends(
            table,
            t1,
        ) && (tl matches Some(f) ==> f is Function && instrs_vars_bound(f->body, t1)),
{
    if spec_emit_fun_declaration(fd, table, c) is Ok {
        match fd.body {
            Some(BlockV::Block(items)) => {
                match spec_get(table, fd.name) {
                    Some(_) => {
                        lemma_emit_items_vars(items, table, c);
                        match spec_emit_items(items, table, c) {
                            Ok((instrs, t1, c1)) => {
                                lemma_bound_push(
                                    instrs,
                                    ir::InstructionV::Return(
                                        IrValueV::Constant(constants::T::ConstInt(0)),
                                    ),
                                    t1,
                                );
                            },
                            _ => {},
                        }
                    },
                    None => {},
                }
            },
            None => {},
        }
    }
}

/// The static variables the symbol table's bindings carry into the IR:
/// one per static attribute, zero-filled when the definition is
/// tentative, skipped when it is an external reference.
pub open spec fn spec_convert_symbols_to_ir(bindings: SymTableV) -> Result<
    Seq<ir::TopLevelV>,
    CompileErrorV,
>
    decreases bindings,
{
    if bindings.len() == 0 {
        Ok(Seq::empty())
    } else {
        match spec_convert_symbols_to_ir(bindings.drop_last()) {
            Err(err) => Err(err),
            Ok(done) => {
                let (name, en) = bindings.last();
                match en.attrs {
                    IdentifierAttrs::StaticAttr { init, global } => {
                        if !is_scalar(en.t) {
                            Err(CompileErrorV::Internal)
                        } else {
                            match init {
                                InitialValue::Initial(iv) => Ok(
                                    done.push(
                                        ir::TopLevelV::StaticVariable {
                                            name,
                                            t: en.t,
                                            global,
                                            init: iv,
                                        },
                                    ),
                                ),
                                InitialValue::Tentative => Ok(
                                    done.push(
                                        ir::TopLevelV::StaticVariable {
                                            name,
                                            t: en.t,
                                            global,
                                            init: spec_zero(en.t),
                                        },
                                    ),
                                ),
                                InitialValue::NoInitializer => Ok(done),
                            }
                        }
                    },
                    _ => Ok(done),
                }
            },
        }
    }
}

/// Bound function bodies stay bound in an extending table.
pub proof fn lemma_fun_vars_bound_monotone(
    fd: FunctionDeclarationV<TypedExpV>,
    t1: SymTableV,
    t2: SymTableV,
)
    requires
        fun_vars_bound(fd, t1),
        table_extends(t1, t2),
    ensures
        fun_vars_bound(fd, t2),
{
    match fd.body {
        Some(BlockV::Block(items)) => {
            lemma_items_vars_bound_monotone(items, t1, t2);
        },
        _ => {},
    }
}

/// The symbol walk only yields static variables.
proof fn lemma_convert_symbols_all_static(bindings: SymTableV)
    ensures
        spec_convert_symbols_to_ir(bindings) matches Ok(vars) ==> forall|m: int|
            0 <= m < vars.len() ==> (#[trigger] vars[m]) is StaticVariable,
    decreases bindings,
{
    if bindings.len() > 0 && spec_convert_symbols_to_ir(bindings) is Ok {
        lemma_convert_symbols_all_static(bindings.drop_last());
    }
}

/// Every variable the lowered functions mention is bound in the table
/// the lowering returns.
proof fn lemma_emit_fun_decls_vars(ds: Seq<DeclarationV<TypedExpV>>, table: SymTableV, c: nat)
    requires
        decls_vars_bound(ds, table),
    ensures
        spec_emit_fun_decls(ds, table, c) matches Ok((funs, t1, c1)) ==> table_extends(table, t1)
            && tops_vars_bound(funs, t1),
    decreases ds,
{
    if ds.len() > 0 && spec_emit_fun_decls(ds, table, c) is Ok {
        lemma_emit_fun_decls_vars(ds.drop_last(), table, c);
        match spec_emit_fun_decls(ds.drop_last(), table, c) {
            Ok((done, t1, c1)) => {
                match ds.last() {
                    DeclarationV::FunDecl(fd) => {
                        lemma_fun_vars_bound_monotone(fd, table, t1);
                        lemma_emit_fun_declaration_vars(fd, t1, c1);
                        match spec_emit_fun_declaration(fd, t1, c1) {
                            Ok((Some(tl), t2, c2)) => {
                                let funs = spec_emit_fun_decls(ds, table, c)->Ok_0.0;
                                assert(forall|m: int| 0 <= m < done.len() ==> funs[m] == done[m]);
                                assert(funs[funs.len() - 1] == tl);
                            },
                            Ok((None, t2, c2)) => {},
                            _ => {},
                        }
                    },
                    DeclarationV::VarDecl(_) => {},
                }
            },
            _ => {},
        }
    }
}

/// Every IR variable the generated program mentions is bound in the
/// symbol table the generation returns, provided every variable the
/// typed program mentions was bound coming in: the type checker bound
/// the program's own variables, and the generator registers each
/// temporary it mints.
pub proof fn lemma_gen_vars_bound(p: ProgTypeV<TypedExpV>, table: SymTableV, c: nat)
    requires
        p matches ProgTypeV::Program(ds) && decls_vars_bound(ds, table),
    ensures
        spec_gen(p, table, c) matches Ok((prog, t1, c1)) ==> prog matches ir::TV::Program(tls)
            && tops_vars_bound(tls, t1),
{
    match p {
        ProgTypeV::Program(ds) => {
            if spec_gen(p, table, c) is Ok {
                lemma_emit_fun_decls_vars(ds, table, c);
                match spec_emit_fun_decls(ds, table, c) {
                    Ok((funs, t1, c1)) => {
                        lemma_convert_symbols_all_static(t1);
                        match spec_convert_symbols_to_ir(t1) {
                            Ok(vars) => {
                                assert forall|m: int|
                                    0 <= m < (funs + vars).len() && (funs + vars)[m]
                                        is Function implies instrs_vars_bound(
                                    (#[trigger] (funs + vars)[m])->body,
                                    t1,
                                ) by {
                                    if m < funs.len() {
                                        assert((funs + vars)[m] == funs[m]);
                                    } else {
                                        assert((funs + vars)[m] == vars[m - funs.len()]);
                                    }
                                }
                            },
                            _ => {},
                        }
                    },
                    _ => {},
                }
            }
        },
    }
}

/// The lowering of the program's function definitions, in order.
pub open spec fn spec_emit_fun_decls(
    ds: Seq<DeclarationV<TypedExpV>>,
    table: SymTableV,
    c: nat,
) -> Result<(Seq<ir::TopLevelV>, SymTableV, nat), CompileErrorV>
    decreases ds,
{
    if ds.len() == 0 {
        Ok((Seq::empty(), table, c))
    } else {
        match spec_emit_fun_decls(ds.drop_last(), table, c) {
            Err(err) => Err(err),
            Ok((done, table1, c1)) => match ds.last() {
                DeclarationV::FunDecl(fd) => match spec_emit_fun_declaration(fd, table1, c1) {
                    Err(err) => Err(err),
                    Ok((Some(tl), table2, c2)) => Ok((done.push(tl), table2, c2)),
                    Ok((None, table2, c2)) => Ok((done, table2, c2)),
                },
                DeclarationV::VarDecl(_) => Ok((done, table1, c1)),
            },
        }
    }
}

/// The lowering of a whole typed program: the function definitions,
/// then one static variable per static symbol.
pub open spec fn spec_gen(p: ProgTypeV<TypedExpV>, table: SymTableV, c: nat) -> Result<
    (ir::TV, SymTableV, nat),
    CompileErrorV,
> {
    match p {
        ProgTypeV::Program(ds) => {
            match spec_emit_fun_decls(ds, table, c) {
                Err(err) => Err(err),
                Ok((funs, table1, c1)) => match spec_convert_symbols_to_ir(table1) {
                    Err(err) => Err(err),
                    Ok(vars) => Ok((ir::TV::Program(funs + vars), table1, c1)),
                },
            }
        },
    }
}

/// Once a prefix fails, the argument list fails the same way.
proof fn lemma_emit_args_err(args: Seq<TypedExpV>, table: SymTableV, c: nat, i: int)
    requires
        0 <= i <= args.len(),
        spec_emit_args(args.subrange(0, i), table, c) is Err,
    ensures
        spec_emit_args(args, table, c) == spec_emit_args(args.subrange(0, i), table, c),
    decreases args.len() - i,
{
    if i < args.len() {
        assert(args.subrange(0, i + 1).drop_last() =~= args.subrange(0, i));
        lemma_emit_args_err(args, table, c, i + 1);
    } else {
        assert(args.subrange(0, i) =~= args);
    }
}

/// Once a prefix fails, the block fails the same way.
proof fn lemma_emit_items_err(items: Seq<BlockItemV<TypedExpV>>, table: SymTableV, c: nat, i: int)
    requires
        0 <= i <= items.len(),
        spec_emit_items(items.subrange(0, i), table, c) is Err,
    ensures
        spec_emit_items(items, table, c) == spec_emit_items(items.subrange(0, i), table, c),
    decreases items.len() - i,
{
    if i < items.len() {
        assert(items.subrange(0, i + 1).drop_last() =~= items.subrange(0, i));
        lemma_emit_items_err(items, table, c, i + 1);
    } else {
        assert(items.subrange(0, i) =~= items);
    }
}

/// Once a prefix fails, the program fails the same way.
proof fn lemma_emit_fun_decls_err(ds: Seq<DeclarationV<TypedExpV>>, table: SymTableV, c: nat, i: int)
    requires
        0 <= i <= ds.len(),
        spec_emit_fun_decls(ds.subrange(0, i), table, c) is Err,
    ensures
        spec_emit_fun_decls(ds, table, c) == spec_emit_fun_decls(ds.subrange(0, i), table, c),
    decreases ds.len() - i,
{
    if i < ds.len() {
        assert(ds.subrange(0, i + 1).drop_last() =~= ds.subrange(0, i));
        lemma_emit_fun_decls_err(ds, table, c, i + 1);
    } else {
        assert(ds.subrange(0, i) =~= ds);
    }
}

/// Once a prefix fails, the symbol walk fails the same way.
proof fn lemma_convert_symbols_err(bindings: SymTableV, i: int)
    requires
        0 <= i <= bindings.len(),
        spec_convert_symbols_to_ir(bindings.subrange(0, i)) is Err,
    ensures
        spec_convert_symbols_to_ir(bindings) == spec_convert_symbols_to_ir(
            bindings.subrange(0, i),
        ),
    decreases bindings.len() - i,
{
    if i < bindings.len() {
        assert(bindings.subrange(0, i + 1).drop_last() =~= bindings.subrange(0, i));
        lemma_convert_symbols_err(bindings, i + 1);
    } else {
        assert(bindings.subrange(0, i) =~= bindings);
    }
}

/// Appends lowered instructions, keeping the view relation.
fn append_ir(dst: &mut Vec<ir::Instruction>, src: Vec<ir::Instruction>)
    ensures
        instruction_views(final(dst)@) == instruction_views(old(dst)@) + instruction_views(src@),
{
    let ghost d0 = dst@;
    let ghost s0 = src@;
    let mut src_mut = src;
    dst.append(&mut src_mut);
    proof {
        lemma_instruction_views(dst@);
        lemma_instruction_views(d0);
        lemma_instruction_views(s0);
        assert(instruction_views(dst@) =~= instruction_views(d0) + instruction_views(s0));
    }
}

/// Pushes one lowered instruction, keeping the view relation.
fn push_ir(dst: &mut Vec<ir::Instruction>, i: ir::Instruction)
    ensures
        instruction_views(final(dst)@) == instruction_views(old(dst)@).push(i@),
{
    let ghost d0 = dst@;
    let ghost iv = i@;
    dst.push(i);
    proof {
        lemma_instruction_views(dst@);
        lemma_instruction_views(d0);
        assert(instruction_views(dst@) =~= instruction_views(d0).push(iv));
    }
}

/// The label a `break` with the given loop id jumps to.
fn break_label(id: &String) -> (r: String)
    ensures
        r@ == spec_break_label(id@),
{
    let mut s = String::from_str("break.");
    s.append(id.as_str());
    s
}

/// The label a `continue` with the given loop id jumps to.
fn continue_label(id: &String) -> (r: String)
    ensures
        r@ == spec_continue_label(id@),
{
    let mut s = String::from_str("continue.");
    s.append(id.as_str());
    s
}

/// Mints a fresh temporary and registers it as an automatic local.
fn create_tmp(t: Type, table: &mut SymbolTable, counter: &mut Counter) -> (r: String)
    ensures
        (r@, final(table)@, final(counter)@) == spec_create_tmp(t@, old(table)@, old(counter)@),
{
    let name = counter.make_temporary();
    let n1 = name.clone();
    table.add_automatic_var(n1, t);
    name
}

/// Lowers one expression, returning its instructions and result value.
#[verifier::rlimit(100)]
#[verifier::spinoff_prover]
fn emit_ir_for_exp(exp: TypedExp, table: &mut SymbolTable, counter: &mut Counter) -> (r: Result<
    (Vec<ir::Instruction>, IrValue),
    CompileError,
>)
    ensures
        match r {
            Ok((instrs, v)) => spec_emit_exp(exp@, old(table)@, old(counter)@) == Ok::<
                (Seq<ir::InstructionV>, IrValueV, SymTableV, nat),
                CompileErrorV,
            >((instruction_views(instrs@), v@, final(table)@, final(counter)@)),
            Err(e) => spec_emit_exp(exp@, old(table)@, old(counter)@) == Err::<
                (Seq<ir::InstructionV>, IrValueV, SymTableV, nat),
                CompileErrorV,
            >(e@),
        },
    decreases exp,
{
    let ghost e0 = exp;
    let TypedExp { e: inner_box, t: exp_t } = exp;
    let inner = *inner_box;
    proof {
        assert(decreases_to!(e0 => inner));
    }
    match inner {
        TypedInnerExp::Constant(k) => {
            let out: Vec<ir::Instruction> = Vec::new();
            proof {
                assert(instruction_views(out@) =~= Seq::<ir::InstructionV>::empty());
            }
            Ok((out, IrValue::Constant(k)))
        },
        TypedInnerExp::Var(v) => {
            let out: Vec<ir::Instruction> = Vec::new();
            proof {
                assert(instruction_views(out@) =~= Seq::<ir::InstructionV>::empty());
            }
            Ok((out, IrValue::Var(v)))
        },
        TypedInnerExp::Cast { target_type, e: cast_inner } => {
            let ghost inner_t = cast_inner@.t;
            let same = crate::types::type_eq(&target_type, &cast_inner.t);
            let (mut instrs, result) = emit_ir_for_exp(cast_inner, table, counter)?;
            if same {
                Ok((instrs, result))
            } else {
                match target_type {
                    Type::Long => {
                        let dst_name = create_tmp(Type::Long, table, counter);
                        let dst = IrValue::Var(dst_name);
                        push_ir(
                            &mut instrs,
                            ir::Instruction::SignExtend { src: result, dst: dst.clone() },
                        );
                        Ok((instrs, dst))
                    },
                    Type::Int => {
                        let dst_name = create_tmp(Type::Int, table, counter);
                        let dst = IrValue::Var(dst_name);
                        push_ir(
                            &mut instrs,
                            ir::Instruction::Truncate { src: result, dst: dst.clone() },
                        );
                        Ok((instrs, dst))
                    },
                    _ => Err(CompileError::Internal),
                }
            }
        },
        TypedInnerExp::Unary(op, unary_inner) => {
            let (mut instrs, v) = emit_ir_for_exp(unary_inner, table, counter)?;
            let dst_name = create_tmp(exp_t, table, counter);
            let dst = IrValue::Var(dst_name);
            let ir_op = match op {
                crate::ast::UnaryOperator::Complement => ir::UnaryOperator::Complement,
                crate::ast::UnaryOperator::Negate => ir::UnaryOperator::Negate,
                crate::ast::UnaryOperator::Not => ir::UnaryOperator::Not,
            };
            push_ir(&mut instrs, ir::Instruction::Unary { op: ir_op, src: v, dst: dst.clone() });
            Ok((instrs, dst))
        },
        TypedInnerExp::Binary(op, e1, e2) => {
            if matches!(op, crate::ast::BinaryOperator::And) {
                let (mut i1, v1) = emit_ir_for_exp(e1, table, counter)?;
                let (i2, v2) = emit_ir_for_exp(e2, table, counter)?;
                let false_label = counter.make_label("and_false");
                let end_label = counter.make_label("and_end");
                let dst_name = create_tmp(Type::Int, table, counter);
                let dst = IrValue::Var(dst_name);
                push_ir(&mut i1, ir::Instruction::JumpIfZero(v1, false_label.clone()));
                append_ir(&mut i1, i2);
                push_ir(&mut i1, ir::Instruction::JumpIfZero(v2, false_label.clone()));
                push_ir(
                    &mut i1,
                    ir::Instruction::Copy {
                        src: IrValue::Constant(constants::T::ConstInt(1)),
                        dst: dst.clone(),
                    },
                );
                push_ir(&mut i1, ir::Instruction::Jump(end_label.clone()));
                push_ir(&mut i1, ir::Instruction::Label(false_label));
                push_ir(
                    &mut i1,
                    ir::Instruction::Copy {
                        src: IrValue::Constant(constants::T::ConstInt(0)),
                        dst: dst.clone(),
                    },
                );
                push_ir(&mut i1, ir::Instruction::Label(end_label));
                proof {
                    assert(instruction_views(i1@) =~= spec_emit_exp(
                        e0@,
                        old(table)@,
                        old(counter)@,
                    )->Ok_0.0);
                }
                Ok((i1, dst))
            } else if matches!(op, crate::ast::BinaryOperator::Or) {
                let (mut i1, v1) = emit_ir_for_exp(e1, table, counter)?;
                let (i2, v2) = emit_ir_for_exp(e2, table, counter)?;
                let true_label = counter.make_label("or_true");
                let end_label = counter.make_label("or_end");
                let dst_name = create_tmp(Type::Int, table, counter);
                let dst = IrValue::Var(dst_name);
                push_ir(&mut i1, ir::Instruction::JumpIfNotZero(v1, true_label.clone()));
                append_ir(&mut i1, i2);
                push_ir(&mut i1, ir::Instruction::JumpIfNotZero(v2, true_label.clone()));
                push_ir(
                    &mut i1,
                    ir::Instruction::Copy {
                        src: IrValue::Constant(constants::T::ConstInt(0)),
                        dst: dst.clone(),
                    },
                );
                push_ir(&mut i1, ir::Instruction::Jump(end_label.clone()));
                push_ir(&mut i1, ir::Instruction::Label(true_label));
                push_ir(
                    &mut i1,
                    ir::Instruction::Copy {
                        src: IrValue::Constant(constants::T::ConstInt(1)),
                        dst: dst.clone(),
                    },
                );
                push_ir(&mut i1, ir::Instruction::Label(end_label));
                proof {
                    assert(instruction_views(i1@) =~= spec_emit_exp(
                        e0@,
                        old(table)@,
                        old(counter)@,
                    )->Ok_0.0);
                }
                Ok((i1, dst))
            } else {
                let (mut i1, v1) = emit_ir_for_exp(e1, table, counter)?;
                let (i2, v2) = emit_ir_for_exp(e2, table, counter)?;
                let ir_op = match op {
                    crate::ast::BinaryOperator::Add => ir::BinaryOperator::Add,
                    crate::ast::BinaryOperator::Subtract => ir::BinaryOperator::Subtract,
                    crate::ast::BinaryOperator::Multiply => ir::BinaryOperator::Multiply,
                    crate::ast::BinaryOperator::Divide => ir::BinaryOperator::Divide,
                    crate::ast::BinaryOperator::Mod => ir::BinaryOperator::Mod,
                    crate::ast::BinaryOperator::Equal => ir::BinaryOperator::Equal,
                    crate::ast::BinaryOperator::NotEqual => ir::BinaryOperator::NotEqual,
                    crate::ast::BinaryOperator::LessThan => ir::BinaryOperator::LessThan,
                    crate::ast::BinaryOperator::LessOrEqual => ir::BinaryOperator::LessOrEqual,
                    crate::ast::BinaryOperator::GreaterThan => ir::BinaryOperator::GreaterThan,
                    _ => ir::BinaryOperator::GreaterOrEqual,
                };
                let dst_name = create_tmp(exp_t, table, counter);
                let dst = IrValue::Var(dst_name);
                append_ir(&mut i1, i2);
                push_ir(
                    &mut i1,
                    ir::Instruction::Binary { op: ir_op, src1: v1, src2: v2, dst: dst.clone() },
                );
                proof {
                    assert(instruction_views(i1@) =~= spec_emit_exp(
                        e0@,
                        old(table)@,
                        old(counter)@,
                    )->Ok_0.0);
                }
                Ok((i1, dst))
            }
        },
        TypedInnerExp::Assignment(lhs, rhs) => {
            let ghost lhs0 = lhs@;
            let TypedExp { e: lhs_box, t: _lt } = lhs;
            let lhs_inner = *lhs_box;
            let ghost li0 = lhs_inner;
            proof {
                assert(lhs0.e == Box::new(crate::ast::typed_inner_exp_view(li0)));
            }
            let v: String = match lhs_inner {
                TypedInnerExp::Var(v) => v,
                _ => {
                    return Err(CompileError::Internal);
                },
            };
            proof {
                assert(*lhs0.e == TypedInnerExpV::Var(v@));
            }
            let (mut instrs, result) = emit_ir_for_exp(rhs, table, counter)?;
            push_ir(
                &mut instrs,
                ir::Instruction::Copy { src: result, dst: IrValue::Var(v.clone()) },
            );
            Ok((instrs, IrValue::Var(v)))
        },
        TypedInnerExp::Conditional { condition, then_result, else_result } => {
            let (mut ic, vc) = emit_ir_for_exp(condition, table, counter)?;
            let (i1, v1) = emit_ir_for_exp(then_result, table, counter)?;
            let (i2, v2) = emit_ir_for_exp(else_result, table, counter)?;
            let else_label = counter.make_label("conditional_else");
            let end_label = counter.make_label("conditional_end");
            let dst_name = create_tmp(exp_t, table, counter);
            let dst = IrValue::Var(dst_name);
            push_ir(&mut ic, ir::Instruction::JumpIfZero(vc, else_label.clone()));
            append_ir(&mut ic, i1);
            push_ir(&mut ic, ir::Instruction::Copy { src: v1, dst: dst.clone() });
            push_ir(&mut ic, ir::Instruction::Jump(end_label.clone()));
            push_ir(&mut ic, ir::Instruction::Label(else_label));
            append_ir(&mut ic, i2);
            push_ir(&mut ic, ir::Instruction::Copy { src: v2, dst: dst.clone() });
            push_ir(&mut ic, ir::Instruction::Label(end_label));
            proof {
                assert(instruction_views(ic@) =~= spec_emit_exp(
                    e0@,
                    old(table)@,
                    old(counter)@,
                )->Ok_0.0);
            }
            Ok((ic, dst))
        },
        TypedInnerExp::FunCall { f, args } => {
            let ghost argv = typed_exp_views(args@);
            let ghost v0 = args;
            let ghost t0 = table@;
            let ghost c0 = counter@;
            proof {
                lemma_typed_exp_views(args@);
            }
            let mut instrs: Vec<ir::Instruction> = Vec::new();
            let mut vals: Vec<IrValue> = Vec::new();
            let mut rest = args;
            let n0 = rest.len();
            proof {
                assert(v0@.len() == n0);
                lemma_ir_value_views(vals@);
                assert(argv.subrange(0, 0) =~= Seq::<TypedExpV>::empty());
                assert(instruction_views(instrs@) =~= Seq::<ir::InstructionV>::empty());
                assert(ir_value_views(vals@) =~= Seq::<IrValueV>::empty());
            }
            let mut i: usize = 0;
            while rest.len() > 0
                invariant
                    v0@.len() <= usize::MAX,
                    i + rest@.len() == v0@.len(),
                    rest@ == v0@.subrange(i as int, v0@.len() as int),
                    argv == typed_exp_views(v0@),
                    argv.len() == v0@.len(),
                    forall|j: int| 0 <= j < argv.len() ==> argv[j] == v0@[j]@,
                    spec_emit_args(argv.subrange(0, i as int), t0, c0) == Ok::<
                        (Seq<ir::InstructionV>, Seq<IrValueV>, SymTableV, nat),
                        CompileErrorV,
                    >((instruction_views(instrs@), ir_value_views(vals@), table@, counter@)),
                decreases rest@.len(),
            {
                let arg = rest.remove(0);
                proof {
                    assert(arg == v0@[i as int]);
                    assert(rest@ =~= v0@.subrange(i + 1, v0@.len() as int));
                    assert(argv.subrange(0, i + 1).drop_last() =~= argv.subrange(0, i as int));
                    assert(argv.subrange(0, i + 1).last() == v0@[i as int]@);
                    assert(decreases_to!(e0 => inner));
                    assert(decreases_to!(inner => v0));
                    assert(decreases_to!(v0 => v0@));
                    assert(decreases_to!(v0@ => v0@[i as int]));
                    assert(decreases_to!(e0 => arg));
                }
                let (ia, va) = match emit_ir_for_exp(arg, table, counter) {
                    Ok(r) => r,
                    Err(e) => {
                        proof {
                            lemma_emit_args_err(argv, t0, c0, i + 1);
                        }
                        return Err(e);
                    },
                };
                append_ir(&mut instrs, ia);
                let ghost vals_before = vals@;
                vals.push(va);
                proof {
                    lemma_ir_value_views(vals@);
                    lemma_ir_value_views(vals_before);
                    assert(ir_value_views(vals@) =~= ir_value_views(vals_before).push(
                        vals@[vals@.len() - 1]@,
                    ));
                }
                i += 1;
            }
            proof {
                assert(argv.subrange(0, v0@.len() as int) =~= argv);
            }
            let dst_name = create_tmp(exp_t, table, counter);
            let dst = IrValue::Var(dst_name);
            push_ir(&mut instrs, ir::Instruction::FunCall { f, args: vals, dst: dst.clone() });
            Ok((instrs, dst))
        },
    }
}

/// Lowers a local variable declaration.
fn emit_var_declaration(
    vd: VariableDeclaration<TypedExp>,
    table: &mut SymbolTable,
    counter: &mut Counter,
) -> (r: Result<Vec<ir::Instruction>, CompileError>)
    ensures
        match r {
            Ok(instrs) => spec_emit_var_declaration(vd@, old(table)@, old(counter)@) == Ok::<
                (Seq<ir::InstructionV>, SymTableV, nat),
                CompileErrorV,
            >((instruction_views(instrs@), final(table)@, final(counter)@)),
            Err(e) => spec_emit_var_declaration(vd@, old(table)@, old(counter)@) == Err::<
                (Seq<ir::InstructionV>, SymTableV, nat),
                CompileErrorV,
            >(e@),
        },
{
    if vd.storage_class.is_some() {
        let out: Vec<ir::Instruction> = Vec::new();
        proof {
            assert(instruction_views(out@) =~= Seq::<ir::InstructionV>::empty());
        }
        return Ok(out);
    }
    match vd.init {
        Some(e) => {
            let (mut instrs, result) = emit_ir_for_exp(e, table, counter)?;
            push_ir(
                &mut instrs,
                ir::Instruction::Copy { src: result, dst: IrValue::Var(vd.name) },
            );
            Ok(instrs)
        },
        None => {
            let out: Vec<ir::Instruction> = Vec::new();
            proof {
                assert(instruction_views(out@) =~= Seq::<ir::InstructionV>::empty());
            }
            Ok(out)
        },
    }
}

/// Lowers an `if` statement.
#[verifier::rlimit(100)]
#[verifier::spinoff_prover]
fn emit_ir_for_if_statement(
    condition: TypedExp,
    then_clause: Box<Statement<TypedExp>>,
    else_clause: Option<Box<Statement<TypedExp>>>,
    table: &mut SymbolTable,
    counter: &mut Counter,
    parent: Ghost<Statement<TypedExp>>,
) -> (r: Result<Vec<ir::Instruction>, CompileError>)
    requires
        decreases_to!(parent@ => *then_clause),
        else_clause matches Some(e) ==> decreases_to!(parent@ => *e),
    ensures
        ({
            let sv = StatementV::If {
                condition: condition@,
                then_clause: Box::new(crate::ast::statement_view(*then_clause)),
                else_clause: match else_clause {
                    Some(e) => Some(Box::new(crate::ast::statement_view(*e))),
                    None => None,
                },
            };
            match r {
                Ok(instrs) => spec_emit_statement(sv, old(table)@, old(counter)@) == Ok::<
                    (Seq<ir::InstructionV>, SymTableV, nat),
                    CompileErrorV,
                >((instruction_views(instrs@), final(table)@, final(counter)@)),
                Err(e) => spec_emit_statement(sv, old(table)@, old(counter)@) == Err::<
                    (Seq<ir::InstructionV>, SymTableV, nat),
                    CompileErrorV,
                >(e@),
            }
        }),
    decreases parent@, 0int,
{
    match else_clause {
        None => {
            let end_label = counter.make_label("if_end");
            let (mut ic, vc) = emit_ir_for_exp(condition, table, counter)?;
            let it = emit_ir_for_statement(*then_clause, table, counter)?;
            push_ir(&mut ic, ir::Instruction::JumpIfZero(vc, end_label.clone()));
            append_ir(&mut ic, it);
            push_ir(&mut ic, ir::Instruction::Label(end_label));
            proof {
                let sv = StatementV::If {
                    condition: condition@,
                    then_clause: Box::new(crate::ast::statement_view(*then_clause)),
                    else_clause: None,
                };
                assert(instruction_views(ic@) =~= spec_emit_statement(
                    sv,
                    old(table)@,
                    old(counter)@,
                )->Ok_0.0);
            }
            Ok(ic)
        },
        Some(els) => {
            let else_label = counter.make_label("else");
            let end_label = counter.make_label("if_end");
            let (mut ic, vc) = emit_ir_for_exp(condition, table, counter)?;
            let it = emit_ir_for_statement(*then_clause, table, counter)?;
            let ie = emit_ir_for_statement(*els, table, counter)?;
            push_ir(&mut ic, ir::Instruction::JumpIfZero(vc, else_label.clone()));
            append_ir(&mut ic, it);
            push_ir(&mut ic, ir::Instruction::Jump(end_label.clone()));
            push_ir(&mut ic, ir::Instruction::Label(else_label));
            append_ir(&mut ic, ie);
            push_ir(&mut ic, ir::Instruction::Label(end_label));
            proof {
                let sv = StatementV::If {
                    condition: condition@,
                    then_clause: Box::new(crate::ast::statement_view(*then_clause)),
                    else_clause: Some(Box::new(crate::ast::statement_view(*els))),
                };
                assert(instruction_views(ic@) =~= spec_emit_statement(
                    sv,
                    old(table)@,
                    old(counter)@,
                )->Ok_0.0);
            }
            Ok(ic)
        },
    }
}

/// Lowers a `do`-`while` loop.
#[verifier::rlimit(100)]
#[verifier::spinoff_prover]
fn emit_ir_for_do_loop(
    body: Box<Statement<TypedExp>>,
    condition: TypedExp,
    id: String,
    table: &mut SymbolTable,
    counter: &mut Counter,
    parent: Ghost<Statement<TypedExp>>,
) -> (r: Result<Vec<ir::Instruction>, CompileError>)
    requires
        decreases_to!(parent@ => *body),
    ensures
        ({
            let sv = StatementV::DoWhile {
                body: Box::new(crate::ast::statement_view(*body)),
                condition: condition@,
                id: id@,
            };
            match r {
                Ok(instrs) => spec_emit_statement(sv, old(table)@, old(counter)@) == Ok::<
                    (Seq<ir::InstructionV>, SymTableV, nat),
                    CompileErrorV,
                >((instruction_views(instrs@), final(table)@, final(counter)@)),
                Err(e) => spec_emit_statement(sv, old(table)@, old(counter)@) == Err::<
                    (Seq<ir::InstructionV>, SymTableV, nat),
                    CompileErrorV,
                >(e@),
            }
        }),
    decreases parent@, 0int,
{
    let start_label = counter.make_label("do_loop_start");
    let ib = emit_ir_for_statement(*body, table, counter)?;
    let (ic, vc) = emit_ir_for_exp(condition, table, counter)?;
    let mut out: Vec<ir::Instruction> = Vec::new();
    proof {
        assert(instruction_views(out@) =~= Seq::<ir::InstructionV>::empty());
    }
    push_ir(&mut out, ir::Instruction::Label(start_label.clone()));
    append_ir(&mut out, ib);
    push_ir(&mut out, ir::Instruction::Label(continue_label(&id)));
    append_ir(&mut out, ic);
    push_ir(&mut out, ir::Instruction::JumpIfNotZero(vc, start_label));
    push_ir(&mut out, ir::Instruction::Label(break_label(&id)));
    proof {
        let sv = StatementV::DoWhile {
            body: Box::new(crate::ast::statement_view(*body)),
            condition: condition@,
            id: id@,
        };
        assert(instruction_views(out@) =~= spec_emit_statement(
            sv,
            old(table)@,
            old(counter)@,
        )->Ok_0.0);
    }
    Ok(out)
}

/// Lowers a `while` loop.
#[verifier::rlimit(100)]
#[verifier::spinoff_prover]
fn emit_ir_for_while_loop(
    condition: TypedExp,
    body: Box<Statement<TypedExp>>,
    id: String,
    table: &mut SymbolTable,
    counter: &mut Counter,
    parent: Ghost<Statement<TypedExp>>,
) -> (r: Result<Vec<ir::Instruction>, CompileError>)
    requires
        decreases_to!(parent@ => *body),
    ensures
        ({
            let sv = StatementV::While {
                condition: condition@,
                body: Box::new(crate::ast::statement_view(*body)),
                id: id@,
            };
            match r {
                Ok(instrs) => spec_emit_statement(sv, old(table)@, old(counter)@) == Ok::<
                    (Seq<ir::InstructionV>, SymTableV, nat),
                    CompileErrorV,
                >((instruction_views(instrs@), final(table)@, final(counter)@)),
                Err(e) => spec_emit_statement(sv, old(table)@, old(counter)@) == Err::<
                    (Seq<ir::InstructionV>, SymTableV, nat),
                    CompileErrorV,
                >(e@),
            }
        }),
    decreases parent@, 0int,
{
    let (ic, vc) = emit_ir_for_exp(condition, table, counter)?;
    let ib = emit_ir_for_statement(*body, table, counter)?;
    let mut out: Vec<ir::Instruction> = Vec::new();
    proof {
        assert(instruction_views(out@) =~= Seq::<ir::InstructionV>::empty());
    }
    push_ir(&mut out, ir::Instruction::Label(continue_label(&id)));
    append_ir(&mut out, ic);
    push_ir(&mut out, ir::Instruction::JumpIfZero(vc, break_label(&id)));
    append_ir(&mut out, ib);
    push_ir(&mut out, ir::Instruction::Jump(continue_label(&id)));
    push_ir(&mut out, ir::Instruction::Label(break_label(&id)));
    proof {
        let sv = StatementV::While {
            condition: condition@,
            body: Box::new(crate::ast::statement_view(*body)),
            id: id@,
        };
        assert(instruction_views(out@) =~= spec_emit_statement(
            sv,
            old(table)@,
            old(counter)@,
        )->Ok_0.0);
    }
    Ok(out)
}

/// Lowers a `for` loop.
#[verifier::rlimit(100)]
#[verifier::spinoff_prover]
fn emit_ir_for_for_loop(
    init: ForInit<TypedExp>,
    condition: Option<TypedExp>,
    post: Option<TypedExp>,
    body: Box<Statement<TypedExp>>,
    id: String,
    table: &mut SymbolTable,
    counter: &mut Counter,
    parent: Ghost<Statement<TypedExp>>,
) -> (r: Result<Vec<ir::Instruction>, CompileError>)
    requires
        decreases_to!(parent@ => *body),
    ensures
        ({
            let sv = StatementV::For {
                init: crate::ast::for_init_view(init),
                condition: match condition {
                    Some(e) => Some(e@),
                    None => None,
                },
                post: match post {
                    Some(e) => Some(e@),
                    None => None,
                },
                body: Box::new(crate::ast::statement_view(*body)),
                id: id@,
            };
            match r {
                Ok(instrs) => spec_emit_statement(sv, old(table)@, old(counter)@) == Ok::<
                    (Seq<ir::InstructionV>, SymTableV, nat),
                    CompileErrorV,
                >((instruction_views(instrs@), final(table)@, final(counter)@)),
                Err(e) => spec_emit_statement(sv, old(table)@, old(counter)@) == Err::<
                    (Seq<ir::InstructionV>, SymTableV, nat),
                    CompileErrorV,
                >(e@),
            }
        }),
    decreases parent@, 0int,
{
    let ghost cond0 = condition;
    let ghost post0 = post;
    let ghost init0 = init;
    let start_label = counter.make_label("for_start");
    let ii: Vec<ir::Instruction> = match init {
        ForInit::InitDecl(d) => emit_var_declaration(d, table, counter)?,
        ForInit::InitExp(Some(e)) => {
            let (instrs, _) = emit_ir_for_exp(e, table, counter)?;
            instrs
        },
        ForInit::InitExp(None) => {
            let out: Vec<ir::Instruction> = Vec::new();
            proof {
                assert(instruction_views(out@) =~= Seq::<ir::InstructionV>::empty());
            }
            out
        },
    };
    let ic: Vec<ir::Instruction> = match condition {
        Some(ce) => {
            let (mut instrs, vc) = emit_ir_for_exp(ce, table, counter)?;
            push_ir(&mut instrs, ir::Instruction::JumpIfZero(vc, break_label(&id)));
            instrs
        },
        None => {
            let out: Vec<ir::Instruction> = Vec::new();
            proof {
                assert(instruction_views(out@) =~= Seq::<ir::InstructionV>::empty());
            }
            out
        },
    };
    let ip: Vec<ir::Instruction> = match post {
        Some(pe) => {
            let (instrs, _) = emit_ir_for_exp(pe, table, counter)?;
            instrs
        },
        None => {
            let out: Vec<ir::Instruction> = Vec::new();
            proof {
                assert(instruction_views(out@) =~= Seq::<ir::InstructionV>::empty());
            }
            out
        },
    };
    let ib = emit_ir_for_statement(*body, table, counter)?;
    let mut out = ii;
    push_ir(&mut out, ir::Instruction::Label(start_label.clone()));
    append_ir(&mut out, ic);
    append_ir(&mut out, ib);
    push_ir(&mut out, ir::Instruction::Label(continue_label(&id)));
    append_ir(&mut out, ip);
    push_ir(&mut out, ir::Instruction::Jump(start_label));
    push_ir(&mut out, ir::Instruction::Label(break_label(&id)));
    proof {
        let sv = StatementV::For {
            init: crate::ast::for_init_view(init0),
            condition: match cond0 {
                Some(e) => Some(e@),
                None => None,
            },
            post: match post0 {
                Some(e) => Some(e@),
                None => None,
            },
            body: Box::new(crate::ast::statement_view(*body)),
            id: id@,
        };
        assert(instruction_views(out@) =~= spec_emit_statement(
            sv,
            old(table)@,
            old(counter)@,
        )->Ok_0.0);
    }
    Ok(out)
}

/// Lowers one statement.
#[verifier::rlimit(100)]
#[verifier::spinoff_prover]
fn emit_ir_for_statement(
    statement: Statement<TypedExp>,
    table: &mut SymbolTable,
    counter: &mut Counter,
) -> (r: Result<Vec<ir::Instruction>, CompileError>)
    ensures
        match r {
            Ok(instrs) => spec_emit_statement(statement@, old(table)@, old(counter)@) == Ok::<
                (Seq<ir::InstructionV>, SymTableV, nat),
                CompileErrorV,
            >((instruction_views(instrs@), final(table)@, final(counter)@)),
            Err(e) => spec_emit_statement(statement@, old(table)@, old(counter)@) == Err::<
                (Seq<ir::InstructionV>, SymTableV, nat),
                CompileErrorV,
            >(e@),
        },
    decreases statement, 1int,
{
    let ghost s0 = statement;
    match statement {
        Statement::Return(e) => {
            let (mut instrs, v) = emit_ir_for_exp(e, table, counter)?;
            push_ir(&mut instrs, ir::Instruction::Return(v));
            Ok(instrs)
        },
        Statement::Expression(e) => {
            let (instrs, _) = emit_ir_for_exp(e, table, counter)?;
            Ok(instrs)
        },
        Statement::If { condition, then_clause, else_clause } => {
            emit_ir_for_if_statement(condition, then_clause, else_clause, table, counter, Ghost(s0))
        },
        Statement::Compound(b) => {
            let ghost b0 = b;
            match b {
                Block::Block(items) => {
                    proof {
                        assert(decreases_to!(s0 => b0));
                        assert(decreases_to!(b0 => items));
                        assert(s0@ == StatementV::Compound(crate::ast::block_view(b0)));
                        assert(crate::ast::block_view(b0) == BlockV::Block(
                            block_item_views(items@),
                        ));
                    }
                    let instrs = emit_items(items, table, counter, Ghost(s0))?;
                    Ok(instrs)
                },
            }
        },
        Statement::Break(id) => {
            let mut out: Vec<ir::Instruction> = Vec::new();
            proof {
                assert(instruction_views(out@) =~= Seq::<ir::InstructionV>::empty());
            }
            push_ir(&mut out, ir::Instruction::Jump(break_label(&id)));
            proof {
                assert(instruction_views(out@) =~= seq![
                    ir::InstructionV::Jump(spec_break_label(id@)),
                ]);
            }
            Ok(out)
        },
        Statement::Continue(id) => {
            let mut out: Vec<ir::Instruction> = Vec::new();
            proof {
                assert(instruction_views(out@) =~= Seq::<ir::InstructionV>::empty());
            }
            push_ir(&mut out, ir::Instruction::Jump(continue_label(&id)));
            proof {
                assert(instruction_views(out@) =~= seq![
                    ir::InstructionV::Jump(spec_continue_label(id@)),
                ]);
            }
            Ok(out)
        },
        Statement::DoWhile { body, condition, id } => {
            emit_ir_for_do_loop(body, condition, id, table, counter, Ghost(s0))
        },
        Statement::While { condition, body, id } => {
            emit_ir_for_while_loop(condition, body, id, table, counter, Ghost(s0))
        },
        Statement::For { init, condition, post, body, id } => {
            emit_ir_for_for_loop(init, condition, post, body, id, table, counter, Ghost(s0))
        },
        Statement::Null => {
            let out: Vec<ir::Instruction> = Vec::new();
            proof {
                assert(instruction_views(out@) =~= Seq::<ir::InstructionV>::empty());
            }
            Ok(out)
        },
    }
}

/// Lowers the items of a block, in order.
fn emit_items(
    items: Vec<BlockItem<TypedExp>>,
    table: &mut SymbolTable,
    counter: &mut Counter,
    parent: Ghost<Statement<TypedExp>>,
) -> (r: Result<Vec<ir::Instruction>, CompileError>)
    requires
        decreases_to!(parent@ => items),
    ensures
        match r {
            Ok(instrs) => spec_emit_items(
                crate::ast::block_item_views(items@),
                old(table)@,
                old(counter)@,
            ) == Ok::<(Seq<ir::InstructionV>, SymTableV, nat), CompileErrorV>(
                (instruction_views(instrs@), final(table)@, final(counter)@),
            ),
            Err(e) => spec_emit_items(
                crate::ast::block_item_views(items@),
                old(table)@,
                old(counter)@,
            ) == Err::<(Seq<ir::InstructionV>, SymTableV, nat), CompileErrorV>(e@),
        },
    decreases parent@, 0int,
{
    let ghost v0 = items;
    let ghost all = block_item_views(items@);
    let ghost t0 = table@;
    let ghost c0 = counter@;
    let mut out: Vec<ir::Instruction> = Vec::new();
    let mut rest = items;
    let n0 = rest.len();
    proof {
        lemma_block_item_views(rest@);
        assert(v0@.len() == n0);
        assert(all.subrange(0, 0) =~= Seq::<BlockItemV<TypedExpV>>::empty());
        assert(instruction_views(out@) =~= Seq::<ir::InstructionV>::empty());
    }
    let mut i: usize = 0;
    while rest.len() > 0
        invariant
            v0@.len() <= usize::MAX,
            i + rest@.len() == v0@.len(),
            rest@ == v0@.subrange(i as int, v0@.len() as int),
            all == block_item_views(v0@),
            all.len() == v0@.len(),
            forall|j: int| 0 <= j < all.len() ==> all[j] == v0@[j]@,
            decreases_to!(parent@ => v0),
            spec_emit_items(all.subrange(0, i as int), t0, c0) == Ok::<
                (Seq<ir::InstructionV>, SymTableV, nat),
                CompileErrorV,
            >((instruction_views(out@), table@, counter@)),
        decreases rest@.len(),
    {
        let item = rest.remove(0);
        proof {
            assert(item == v0@[i as int]);
            assert(rest@ =~= v0@.subrange(i + 1, v0@.len() as int));
            assert(all.subrange(0, i + 1).drop_last() =~= all.subrange(0, i as int));
            assert(all.subrange(0, i + 1).last() == v0@[i as int]@);
            assert(decreases_to!(v0 => v0@));
            assert(decreases_to!(v0@ => v0@[i as int]));
        }
        let step: Vec<ir::Instruction> = match item {
            BlockItem::S(s) => {
                proof {
                    assert(decreases_to!(parent@ => s));
                }
                match emit_ir_for_statement(s, table, counter) {
                    Ok(instrs) => instrs,
                    Err(e) => {
                        proof {
                            lemma_emit_items_err(all, t0, c0, i + 1);
                        }
                        return Err(e);
                    },
                }
            },
            BlockItem::D(Declaration::VarDecl(vd)) => {
                match emit_var_declaration(vd, table, counter) {
                    Ok(instrs) => instrs,
                    Err(e) => {
                        proof {
                            lemma_emit_items_err(all, t0, c0, i + 1);
                        }
                        return Err(e);
                    },
                }
            },
            BlockItem::D(Declaration::FunDecl(_)) => {
                let empty: Vec<ir::Instruction> = Vec::new();
                proof {
                    assert(instruction_views(empty@) =~= Seq::<ir::InstructionV>::empty());
                }
                empty
            },
        };
        append_ir(&mut out, step);
        i += 1;
    }
    proof {
        assert(all.subrange(0, v0@.len() as int) =~= all);
    }
    Ok(out)
}

/// Lowers one function definition, appending the implicit `return 0`.
fn emit_fun_declaration(
    fd: FunctionDeclaration<TypedExp>,
    table: &mut SymbolTable,
    counter: &mut Counter,
) -> (r: Result<Option<ir::TopLevel>, CompileError>)
    ensures
        match r {
            Ok(Some(tl)) => spec_emit_fun_declaration(fd@, old(table)@, old(counter)@) == Ok::<
                (Option<ir::TopLevelV>, SymTableV, nat),
                CompileErrorV,
            >((Some(tl@), final(table)@, final(counter)@)),
            Ok(None) => spec_emit_fun_declaration(fd@, old(table)@, old(counter)@) == Ok::<
                (Option<ir::TopLevelV>, SymTableV, nat),
                CompileErrorV,
            >((None, final(table)@, final(counter)@)),
            Err(e) => spec_emit_fun_declaration(fd@, old(table)@, old(counter)@) == Err::<
                (Option<ir::TopLevelV>, SymTableV, nat),
                CompileErrorV,
            >(e@),
        },
{
    let ghost fd0 = fd;
    let FunctionDeclaration { name, fun_type: _ft, params, body, storage_class: _sc } = fd;
    match body {
        Some(b) => {
            let global: bool = match table.get_opt(&name) {
                None => {
                    return Err(CompileError::Internal);
                },
                Some(en) => match en.attrs {
                    IdentifierAttrs::LocalAttr => false,
                    IdentifierAttrs::StaticAttr { init: _, global } => global,
                    IdentifierAttrs::FunAttr { defined: _, global, stack_frame_size: _ } => global,
                },
            };
            let ghost b0 = b;
            match b {
                Block::Block(items) => {
                    proof {
                        assert(decreases_to!(fd0 => b0));
                        assert(decreases_to!(b0 => items));
                    }
                    let mut instrs = emit_items_for_fun(items, table, counter, Ghost(fd0))?;
                    push_ir(
                        &mut instrs,
                        ir::Instruction::Return(IrValue::Constant(constants::T::ConstInt(0))),
                    );
                    Ok(
                        Some(
                            ir::TopLevel::Function { name, global, params, body: instrs },
                        ),
                    )
                },
            }
        },
        None => Ok(None),
    }
}

/// Lowers the items of a function body, in order.
fn emit_items_for_fun(
    items: Vec<BlockItem<TypedExp>>,
    table: &mut SymbolTable,
    counter: &mut Counter,
    parent: Ghost<FunctionDeclaration<TypedExp>>,
) -> (r: Result<Vec<ir::Instruction>, CompileError>)
    requires
        decreases_to!(parent@ => items),
    ensures
        match r {
            Ok(instrs) => spec_emit_items(
                crate::ast::block_item_views(items@),
                old(table)@,
                old(counter)@,
            ) == Ok::<(Seq<ir::InstructionV>, SymTableV, nat), CompileErrorV>(
                (instruction_views(instrs@), final(table)@, final(counter)@),
            ),
            Err(e) => spec_emit_items(
                crate::ast::block_item_views(items@),
                old(table)@,
                old(counter)@,
            ) == Err::<(Seq<ir::InstructionV>, SymTableV, nat), CompileErrorV>(e@),
        },
    decreases parent@, 1int,
{
    let ghost v0 = items;
    let ghost all = block_item_views(items@);
    let ghost t0 = table@;
    let ghost c0 = counter@;
    let mut out: Vec<ir::Instruction> = Vec::new();
    let mut rest = items;
    let n0 = rest.len();
    proof {
        lemma_block_item_views(rest@);
        assert(v0@.len() == n0);
        assert(all.subrange(0, 0) =~= Seq::<BlockItemV<TypedExpV>>::empty());
        assert(instruction_views(out@) =~= Seq::<ir::InstructionV>::empty());
    }
    let mut i: usize = 0;
    while rest.len() > 0
        invariant
            v0@.len() <= usize::MAX,
            i + rest@.len() == v0@.len(),
            rest@ == v0@.subrange(i as int, v0@.len() as int),
            all == block_item_views(v0@),
            all.len() == v0@.len(),
            forall|j: int| 0 <= j < all.len() ==> all[j] == v0@[j]@,
            decreases_to!(parent@ => v0),
            spec_emit_items(all.subrange(0, i as int), t0, c0) == Ok::<
                (Seq<ir::InstructionV>, SymTableV, nat),
                CompileErrorV,
            >((instruction_views(out@), table@, counter@)),
        decreases rest@.len(),
    {
        let item = rest.remove(0);
        proof {
            assert(item == v0@[i as int]);
            assert(rest@ =~= v0@.subrange(i + 1, v0@.len() as int));
            assert(all.subrange(0, i + 1).drop_last() =~= all.subrange(0, i as int));
            assert(all.subrange(0, i + 1).last() == v0@[i as int]@);
            assert(decreases_to!(v0 => v0@));
            assert(decreases_to!(v0@ => v0@[i as int]));
        }
        let step: Vec<ir::Instruction> = match item {
            BlockItem::S(s) => {
                proof {
                    assert(decreases_to!(parent@ => s));
                }
                match emit_ir_for_statement(s, table, counter) {
                    Ok(instrs) => instrs,
                    Err(e) => {
                        proof {
                            lemma_emit_items_err(all, t0, c0, i + 1);
                        }
                        return Err(e);
                    },
                }
            },
            BlockItem::D(Declaration::VarDecl(vd)) => {
                match emit_var_declaration(vd, table, counter) {
                    Ok(instrs) => instrs,
                    Err(e) => {
                        proof {
                            lemma_emit_items_err(all, t0, c0, i + 1);
                        }
                        return Err(e);
                    },
                }
            },
            BlockItem::D(Declaration::FunDecl(_)) => {
                let empty: Vec<ir::Instruction> = Vec::new();
                proof {
                    assert(instruction_views(empty@) =~= Seq::<ir::InstructionV>::empty());
                }
                empty
            },
        };
        append_ir(&mut out, step);
        i += 1;
    }
    proof {
        assert(all.subrange(0, v0@.len() as int) =~= all);
    }
    Ok(out)
}

/// Carries the symbol table's static variables into the IR.
fn convert_symbols_to_ir(table: &SymbolTable) -> (r: Result<Vec<ir::TopLevel>, CompileError>)
    ensures
        match r {
            Ok(out) => spec_convert_symbols_to_ir(table@) == Ok::<
                Seq<ir::TopLevelV>,
                CompileErrorV,
            >(ir::top_level_views(out@)),
            Err(e) => spec_convert_symbols_to_ir(table@) == Err::<
                Seq<ir::TopLevelV>,
                CompileErrorV,
            >(e@),
        },
{
    let bindings = table.bindings();
    let ghost tv = table@;
    proof {
        crate::table::lemma_pair_views(bindings@);
        assert(tv.subrange(0, 0) =~= Seq::<(Seq<char>, EntryV)>::empty());
    }
    let mut out: Vec<ir::TopLevel> = Vec::new();
    proof {
        ir::lemma_top_level_views(out@);
        assert(ir::top_level_views(out@) =~= Seq::<ir::TopLevelV>::empty());
    }
    let mut i: usize = 0;
    while i < bindings.len()
        invariant
            i <= bindings.len(),
            crate::table::pair_views(bindings@) == tv,
            tv == table@,
            tv.len() == bindings@.len(),
            forall|m: int| 0 <= m < tv.len() ==> tv[m] == (bindings@[m].0@, bindings@[m].1@),
            spec_convert_symbols_to_ir(tv.subrange(0, i as int)) == Ok::<
                Seq<ir::TopLevelV>,
                CompileErrorV,
            >(ir::top_level_views(out@)),
        decreases bindings.len() - i,
    {
        proof {
            assert(tv.subrange(0, i + 1).drop_last() =~= tv.subrange(0, i as int));
            assert(tv.subrange(0, i + 1).last() == tv[i as int]);
        }
        let name = &bindings[i].0;
        let entry = &bindings[i].1;
        match entry.attrs {
            IdentifierAttrs::StaticAttr { init, global } => {
                let scalar = matches!(entry.t, Type::Int | Type::Long);
                if !scalar {
                    proof {
                        lemma_convert_symbols_err(tv, i + 1);
                    }
                    return Err(CompileError::Internal);
                }
                match init {
                    InitialValue::Initial(iv) => {
                        let ghost before = out@;
                        out.push(
                            ir::TopLevel::StaticVariable {
                                name: name.clone(),
                                t: entry.t.clone(),
                                global,
                                init: iv,
                            },
                        );
                        proof {
                            ir::lemma_top_level_views(out@);
                            ir::lemma_top_level_views(before);
                            assert(ir::top_level_views(out@) =~= ir::top_level_views(before).push(
                                out@[out@.len() - 1]@,
                            ));
                        }
                    },
                    InitialValue::Tentative => {
                        let ghost before = out@;
                        let z = crate::initializers::zero(&entry.t);
                        out.push(
                            ir::TopLevel::StaticVariable {
                                name: name.clone(),
                                t: entry.t.clone(),
                                global,
                                init: z,
                            },
                        );
                        proof {
                            ir::lemma_top_level_views(out@);
                            ir::lemma_top_level_views(before);
                            assert(ir::top_level_views(out@) =~= ir::top_level_views(before).push(
                                out@[out@.len() - 1]@,
                            ));
                        }
                    },
                    InitialValue::NoInitializer => {},
                }
            },
            _ => {},
        }
        i += 1;
    }
    proof {
        assert(tv.subrange(0, tv.len() as int) =~= tv);
    }
    Ok(out)
}

/// Lowers a typed program into IR: every function definition, then one
/// static variable per static symbol, in symbol table order.
pub fn gen(program: TypedProgType, table: &mut SymbolTable, counter: &mut Counter) -> (r: Result<
    ir::T,
    CompileError,
>)
    ensures
        match r {
            Ok(out) => spec_gen(program@, old(table)@, old(counter)@) == Ok::<
                (ir::TV, SymTableV, nat),
                CompileErrorV,
            >((out@, final(table)@, final(counter)@)),
            Err(e) => spec_gen(program@, old(table)@, old(counter)@) == Err::<
                (ir::TV, SymTableV, nat),
                CompileErrorV,
            >(e@),
        },
{
    match program {
        ProgType::Program(decls) => {
            let ghost v0 = decls;
            let ghost all = declaration_views(decls@);
            let ghost t0 = table@;
            let ghost c0 = counter@;
            let mut funs: Vec<ir::TopLevel> = Vec::new();
            let mut rest = decls;
            let n0 = rest.len();
            proof {
                lemma_declaration_views(rest@);
                ir::lemma_top_level_views(funs@);
                assert(v0@.len() == n0);
                assert(all.subrange(0, 0) =~= Seq::<DeclarationV<TypedExpV>>::empty());
                assert(ir::top_level_views(funs@) =~= Seq::<ir::TopLevelV>::empty());
            }
            let mut i: usize = 0;
            while rest.len() > 0
                invariant
                    v0@.len() <= usize::MAX,
                    i + rest@.len() == v0@.len(),
                    rest@ == v0@.subrange(i as int, v0@.len() as int),
                    all == declaration_views(v0@),
                    all.len() == v0@.len(),
                    forall|j: int| 0 <= j < all.len() ==> all[j] == v0@[j]@,
                    spec_emit_fun_decls(all.subrange(0, i as int), t0, c0) == Ok::<
                        (Seq<ir::TopLevelV>, SymTableV, nat),
                        CompileErrorV,
                    >((ir::top_level_views(funs@), table@, counter@)),
                decreases rest@.len(),
            {
                let d = rest.remove(0);
                proof {
                    assert(d == v0@[i as int]);
                    assert(rest@ =~= v0@.subrange(i + 1, v0@.len() as int));
                    assert(all.subrange(0, i + 1).drop_last() =~= all.subrange(0, i as int));
                    assert(all.subrange(0, i + 1).last() == v0@[i as int]@);
                }
                match d {
                    Declaration::FunDecl(fd) => {
                        match emit_fun_declaration(fd, table, counter) {
                            Ok(Some(tl)) => {
                                let ghost before = funs@;
                                funs.push(tl);
                                proof {
                                    ir::lemma_top_level_views(funs@);
                                    ir::lemma_top_level_views(before);
                                    assert(ir::top_level_views(funs@) =~= ir::top_level_views(
                                        before,
                                    ).push(funs@[funs@.len() - 1]@));
                                }
                            },
                            Ok(None) => {},
                            Err(e) => {
                                proof {
                                    lemma_emit_fun_decls_err(all, t0, c0, i + 1);
                                }
                                return Err(e);
                            },
                        }
                    },
                    Declaration::VarDecl(_) => {},
                }
                i += 1;
            }
            proof {
                assert(all.subrange(0, v0@.len() as int) =~= all);
            }
            let vars = convert_symbols_to_ir(table)?;
            let mut result = funs;
            let ghost r0 = result@;
            let ghost vv0 = vars@;
            let mut vars_mut = vars;
            result.append(&mut vars_mut);
            proof {
                ir::lemma_top_level_views(result@);
                ir::lemma_top_level_views(r0);
                ir::lemma_top_level_views(vv0);
                assert(ir::top_level_views(result@) =~= ir::top_level_views(r0)
                    + ir::top_level_views(vv0));
            }
            Ok(ir::T::Program(result))
        },
    }
}

} // verus!
