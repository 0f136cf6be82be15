//! The type checker: produces a typed tree and populates the symbol
//! table with every identifier's type, linkage, and initial value.

use crate::ast::{
    lemma_typed_exp_views, lemma_untyped_exp_views, typed_exp_views, untyped_exp_views, Block,
    BlockItem, BlockItemV, BlockV, Declaration, DeclarationV, ForInit, ForInitV,
    FunctionDeclaration, FunctionDeclarationV, ProgType, ProgTypeV, Statement, StatementV,
    StorageClass, TypedExp, TypedExpV, TypedInnerExp, TypedInnerExpV, TypedProgType, UnTypedExp,
    UnTypedExpV, UntypedProgType, VariableDeclaration, VariableDeclarationV,
};
use crate::ast::{block_item_views, declaration_views, lemma_block_item_views,
    lemma_declaration_views};
use crate::const_convert::{const_convert, spec_const_convert};
use crate::constants;
use crate::errors::{CompileError, CompileErrorV};
use crate::initializers::{spec_zero, StaticInit};
use crate::symbols::{EntryV, IdentifierAttrs, InitialValue, SymbolTable};
use crate::table::spec_get;
use crate::text::{lemma_string_views, string_views};
use crate::type_utils::set_type;
use crate::types::{is_scalar, lemma_type_views, type_eq, type_views, Type, TypeV};
use vstd::prelude::*;

verus! {

/// The symbol table's model, as the type checker reads and writes it.
pub type SymTableV = Seq<(Seq<char>, EntryV)>;

/// Wraps a typed expression in a cast to the target type.
pub open spec fn spec_convert_to(e: TypedExpV, target_type: TypeV) -> TypedExpV {
    TypedExpV {
        e: Box::new(TypedInnerExpV::Cast { target_type, e }),
        t: target_type,
    }
}

/// The common type of two operand types: equal types stay, otherwise
/// the wider `long`.
pub open spec fn spec_common_type(t1: TypeV, t2: TypeV) -> TypeV {
    if t1 == t2 {
        t1
    } else {
        TypeV::Long
    }
}

/// Whether a binary operator compares its operands.
pub open spec fn is_comparison(op: crate::ast::BinaryOperator) -> bool {
    op == crate::ast::BinaryOperator::Equal || op == crate::ast::BinaryOperator::NotEqual || op
        == crate::ast::BinaryOperator::LessThan || op == crate::ast::BinaryOperator::LessOrEqual
        || op == crate::ast::BinaryOperator::GreaterThan || op
        == crate::ast::BinaryOperator::GreaterOrEqual
}

/// Whether a binary operator is a short-circuit logical operator.
pub open spec fn is_logical(op: crate::ast::BinaryOperator) -> bool {
    op == crate::ast::BinaryOperator::And || op == crate::ast::BinaryOperator::Or
}

/// The typing of one expression.
pub open spec fn spec_typecheck_exp(table: SymTableV, e: UnTypedExpV) -> Result<
    TypedExpV,
    CompileErrorV,
>
    decreases e,
{
    match e {
        UnTypedExpV::Constant(c) => {
            match c {
                constants::T::ConstInt(_) => Ok(
                    TypedExpV { e: Box::new(TypedInnerExpV::Constant(c)), t: TypeV::Int },
                ),
                constants::T::ConstLong(_) => Ok(
                    TypedExpV { e: Box::new(TypedInnerExpV::Constant(c)), t: TypeV::Long },
                ),
            }
        },
        UnTypedExpV::Var(v) => {
            match spec_get(table, v) {
                Some(en) => if is_scalar(en.t) {
                    Ok(TypedExpV { e: Box::new(TypedInnerExpV::Var(v)), t: en.t })
                } else {
                    Err(CompileErrorV::WrongKindOfName(v))
                },
                None => Err(CompileErrorV::UndeclaredIdentifier(v)),
            }
        },
        UnTypedExpV::Cast { target_type, e: inner } => {
            if !is_scalar(target_type) {
                Err(CompileErrorV::InvalidCast)
            } else {
                match spec_typecheck_exp(table, *inner) {
                    Err(err) => Err(err),
                    Ok(te) => Ok(
                        TypedExpV {
                            e: Box::new(TypedInnerExpV::Cast { target_type, e: te }),
                            t: target_type,
                        },
                    ),
                }
            }
        },
        UnTypedExpV::Unary(op, inner) => {
            match spec_typecheck_exp(table, *inner) {
                Err(err) => Err(err),
                Ok(te) => {
                    let t = if op == crate::ast::UnaryOperator::Not {
                        TypeV::Int
                    } else {
                        te.t
                    };
                    Ok(TypedExpV { e: Box::new(TypedInnerExpV::Unary(op, te)), t })
                },
            }
        },
        UnTypedExpV::Binary(op, e1, e2) => {
            match spec_typecheck_exp(table, *e1) {
                Err(err) => Err(err),
                Ok(te1) => match spec_typecheck_exp(table, *e2) {
                    Err(err) => Err(err),
                    Ok(te2) => {
                        if is_logical(op) {
                            Ok(
                                TypedExpV {
                                    e: Box::new(TypedInnerExpV::Binary(op, te1, te2)),
                                    t: TypeV::Int,
                                },
                            )
                        } else {
                            let common = spec_common_type(te1.t, te2.t);
                            let c1 = spec_convert_to(te1, common);
                            let c2 = spec_convert_to(te2, common);
                            let t = if is_comparison(op) {
                                TypeV::Int
                            } else {
                                common
                            };
                            Ok(
                                TypedExpV {
                                    e: Box::new(TypedInnerExpV::Binary(op, c1, c2)),
                                    t,
                                },
                            )
                        }
                    },
                },
            }
        },
        UnTypedExpV::Assignment(lhs, rhs) => {
            if !(*lhs is Var) {
                Err(CompileErrorV::InvalidLValue)
            } else {
                match spec_typecheck_exp(table, *lhs) {
                    Err(err) => Err(err),
                    Ok(tl) => match spec_typecheck_exp(table, *rhs) {
                        Err(err) => Err(err),
                        Ok(tr) => {
                            let cr = spec_convert_to(tr, tl.t);
                            let t = tl.t;
                            Ok(
                                TypedExpV {
                                    e: Box::new(TypedInnerExpV::Assignment(tl, cr)),
                                    t,
                                },
                            )
                        },
                    },
                }
            }
        },
        UnTypedExpV::Conditional { condition, then_result, else_result } => {
            match spec_typecheck_exp(table, *condition) {
                Err(err) => Err(err),
                Ok(tc) => match spec_typecheck_exp(table, *then_result) {
                    Err(err) => Err(err),
                    Ok(tt) => match spec_typecheck_exp(table, *else_result) {
                        Err(err) => Err(err),
                        Ok(te) => {
                            let common = spec_common_type(tt.t, te.t);
                            Ok(
                                TypedExpV {
                                    e: Box::new(
                                        TypedInnerExpV::Conditional {
                                            condition: tc,
                                            then_result: spec_convert_to(tt, common),
                                            else_result: spec_convert_to(te, common),
                                        },
                                    ),
                                    t: common,
                                },
                            )
                        },
                    },
                },
            }
        },
        UnTypedExpV::FunCall { f, args } => {
            match spec_get(table, f) {
                None => Err(CompileErrorV::UndeclaredIdentifier(f)),
                Some(en) => {
                    match en.t {
                        TypeV::FunType { param_types, ret_type } => {
                            if param_types.len() != args.len() {
                                Err(CompileErrorV::WrongArgumentCount(f))
                            } else if !is_scalar(*ret_type) {
                                Err(CompileErrorV::Internal)
                            } else {
                                match spec_typecheck_args(table, args, param_types) {
                                    Err(err) => Err(err),
                                    Ok(cargs) => Ok(
                                        TypedExpV {
                                            e: Box::new(
                                                TypedInnerExpV::FunCall { f, args: cargs },
                                            ),
                                            t: *ret_type,
                                        },
                                    ),
                                }
                            }
                        },
                        _ => Err(CompileErrorV::WrongKindOfName(f)),
                    }
                },
            }
        },
    }
}

/// The typing of a call's arguments, each cast to its parameter type.
pub open spec fn spec_typecheck_args(
    table: SymTableV,
    args: Seq<UnTypedExpV>,
    param_types: Seq<TypeV>,
) -> Result<Seq<TypedExpV>, CompileErrorV>
    decreases args,
{
    if args.len() == 0 {
        Ok(Seq::empty())
    } else {
        match spec_typecheck_args(table, args.drop_last(), param_types.drop_last()) {
            Err(err) => Err(err),
            Ok(done) => match spec_typecheck_exp(table, args.last()) {
                Err(err) => Err(err),
                Ok(ta) => {
                    if param_types.len() == 0 {
                        Err(CompileErrorV::Internal)
                    } else {
                        Ok(done.push(spec_convert_to(ta, param_types.last())))
                    }
                },
            },
        }
    }
}

/// The recorded initial value of a static declaration's initializer: a
/// constant converted to the declared type; anything else is an error.
pub open spec fn spec_to_static_init(
    var_type: TypeV,
    name: Seq<char>,
    init: UnTypedExpV,
) -> Result<InitialValue, CompileErrorV> {
    match init {
        UnTypedExpV::Constant(c) => {
            let converted = spec_const_convert(var_type, c);
            match converted {
                constants::T::ConstInt(i) => Ok(InitialValue::Initial(StaticInit::IntInit(i))),
                constants::T::ConstLong(l) => Ok(InitialValue::Initial(StaticInit::LongInit(l))),
            }
        },
        _ => Err(CompileErrorV::NonConstantInitializer(name)),
    }
}

/// The typing of one statement; `ret_type` is the enclosing function's
/// return type, to which every returned value is cast.
pub open spec fn spec_typecheck_statement(
    table: SymTableV,
    ret_type: TypeV,
    s: StatementV<UnTypedExpV>,
) -> Result<(SymTableV, StatementV<TypedExpV>), CompileErrorV>
    decreases s,
{
    match s {
        StatementV::Return(e) => {
            match spec_typecheck_exp(table, e) {
                Err(err) => Err(err),
                Ok(te) => Ok((table, StatementV::Return(spec_convert_to(te, ret_type)))),
            }
        },
        StatementV::Expression(e) => {
            match spec_typecheck_exp(table, e) {
                Err(err) => Err(err),
                Ok(te) => Ok((table, StatementV::Expression(te))),
            }
        },
        StatementV::If { condition, then_clause, else_clause } => {
            match spec_typecheck_exp(table, condition) {
                Err(err) => Err(err),
                Ok(tc) => match spec_typecheck_statement(table, ret_type, *then_clause) {
                    Err(err) => Err(err),
                    Ok((table1, tt)) => match else_clause {
                        None => Ok(
                            (
                                table1,
                                StatementV::If {
                                    condition: tc,
                                    then_clause: Box::new(tt),
                                    else_clause: None,
                                },
                            ),
                        ),
                        Some(els) => match spec_typecheck_statement(table1, ret_type, *els) {
                            Err(err) => Err(err),
                            Ok((table2, te)) => Ok(
                                (
                                    table2,
                                    StatementV::If {
                                        condition: tc,
                                        then_clause: Box::new(tt),
                                        else_clause: Some(Box::new(te)),
                                    },
                                ),
                            ),
                        },
                    },
                },
            }
        },
        StatementV::Compound(b) => {
            match spec_typecheck_block(table, ret_type, b) {
                Err(err) => Err(err),
                Ok((table1, tb)) => Ok((table1, StatementV::Compound(tb))),
            }
        },
        StatementV::While { condition, body, id } => {
            match spec_typecheck_exp(table, condition) {
                Err(err) => Err(err),
                Ok(tc) => match spec_typecheck_statement(table, ret_type, *body) {
                    Err(err) => Err(err),
                    Ok((table1, tb)) => Ok(
                        (
                            table1,
                            StatementV::While { condition: tc, body: Box::new(tb), id },
                        ),
                    ),
                },
            }
        },
        StatementV::DoWhile { body, condition, id } => {
            match spec_typecheck_statement(table, ret_type, *body) {
                Err(err) => Err(err),
                Ok((table1, tb)) => match spec_typecheck_exp(table1, condition) {
                    Err(err) => Err(err),
                    Ok(tc) => Ok(
                        (
                            table1,
                            StatementV::DoWhile { body: Box::new(tb), condition: tc, id },
                        ),
                    ),
                },
            }
        },
        StatementV::For { init, condition, post, body, id } => {
            let init_check: Result<(SymTableV, ForInitV<TypedExpV>), CompileErrorV> = match init {
                ForInitV::InitDecl(vd) => {
                    if vd.storage_class is Some {
                        Err(CompileErrorV::StorageClassInForInit(vd.name))
                    } else {
                        match spec_typecheck_local_var_decl(table, vd) {
                            Err(err) => Err(err),
                            Ok((table1, tvd)) => Ok((table1, ForInitV::InitDecl(tvd))),
                        }
                    }
                },
                ForInitV::InitExp(None) => Ok((table, ForInitV::InitExp(None))),
                ForInitV::InitExp(Some(e)) => match spec_typecheck_exp(table, e) {
                    Err(err) => Err(err),
                    Ok(te) => Ok((table, ForInitV::InitExp(Some(te)))),
                },
            };
            match init_check {
                Err(err) => Err(err),
                Ok((table1, tinit)) => {
                    let cond_check: Result<Option<TypedExpV>, CompileErrorV> = match condition {
                        None => Ok(None),
                        Some(c) => match spec_typecheck_exp(table1, c) {
                            Err(err) => Err(err),
                            Ok(tc) => Ok(Some(tc)),
                        },
                    };
                    match cond_check {
                        Err(err) => Err(err),
                        Ok(tcond) => {
                            let post_check: Result<Option<TypedExpV>, CompileErrorV> = match post {
                                None => Ok(None),
                                Some(p) => match spec_typecheck_exp(table1, p) {
                                    Err(err) => Err(err),
                                    Ok(tp) => Ok(Some(tp)),
                                },
                            };
                            match post_check {
                                Err(err) => Err(err),
                                Ok(tpost) => match spec_typecheck_statement(
                                    table1,
                                    ret_type,
                                    *body,
                                ) {
                                    Err(err) => Err(err),
                                    Ok((table2, tb)) => Ok(
                                        (
                                            table2,
                                            StatementV::For {
                                                init: tinit,
                                                condition: tcond,
                                                post: tpost,
                                                body: Box::new(tb),
                                                id,
                                            },
                                        ),
                                    ),
                                },
                            }
                        },
                    }
                },
            }
        },
        StatementV::Break(id) => Ok((table, StatementV::Break(id))),
        StatementV::Continue(id) => Ok((table, StatementV::Continue(id))),
        StatementV::Null => Ok((table, StatementV::Null)),
    }
}

/// The typing of the items of a block, threading the symbol table.
pub open spec fn spec_typecheck_items(
    table: SymTableV,
    ret_type: TypeV,
    items: Seq<BlockItemV<UnTypedExpV>>,
) -> Result<(SymTableV, Seq<BlockItemV<TypedExpV>>), CompileErrorV>
    decreases items,
{
    if items.len() == 0 {
        Ok((table, Seq::empty()))
    } else {
        match spec_typecheck_items(table, ret_type, items.drop_last()) {
            Err(err) => Err(err),
            Ok((table1, done)) => match items.last() {
                BlockItemV::S(s) => match spec_typecheck_statement(table1, ret_type, s) {
                    Err(err) => Err(err),
                    Ok((table2, ts)) => Ok((table2, done.push(BlockItemV::S(ts)))),
                },
                BlockItemV::D(d) => match spec_typecheck_local_decl(table1, d) {
                    Err(err) => Err(err),
                    Ok((table2, td)) => Ok((table2, done.push(BlockItemV::D(td)))),
                },
            },
        }
    }
}

/// The typing of a block.
pub open spec fn spec_typecheck_block(
    table: SymTableV,
    ret_type: TypeV,
    b: BlockV<UnTypedExpV>,
) -> Result<(SymTableV, BlockV<TypedExpV>), CompileErrorV>
    decreases b,
{
    match b {
        BlockV::Block(items) => match spec_typecheck_items(table, ret_type, items) {
            Err(err) => Err(err),
            Ok((table1, titems)) => Ok((table1, BlockV::Block(titems))),
        },
    }
}

/// The typing of a block-scope declaration.
pub open spec fn spec_typecheck_local_decl(
    table: SymTableV,
    d: DeclarationV<UnTypedExpV>,
) -> Result<(SymTableV, DeclarationV<TypedExpV>), CompileErrorV>
    decreases d,
{
    match d {
        DeclarationV::VarDecl(vd) => {
            match spec_typecheck_local_var_decl(table, vd) {
                Err(err) => Err(err),
                Ok((table1, tvd)) => Ok((table1, DeclarationV::VarDecl(tvd))),
            }
        },
        DeclarationV::FunDecl(fd) => {
            match spec_typecheck_fn_decl(table, fd) {
                Err(err) => Err(err),
                Ok((table1, tfd)) => Ok((table1, DeclarationV::FunDecl(tfd))),
            }
        },
    }
}

/// The typing of a local variable declaration: an `extern` local must
/// have no initializer and agree with any previous declaration; a
/// `static` local records a constant (or zero) initial value; an
/// automatic local is entered and its initializer cast to its type.
pub open spec fn spec_typecheck_local_var_decl(
    table: SymTableV,
    vd: VariableDeclarationV<UnTypedExpV>,
) -> Result<(SymTableV, VariableDeclarationV<TypedExpV>), CompileErrorV>
    decreases vd,
{
    if !is_scalar(vd.var_type) {
        Err(CompileErrorV::Internal)
    } else {
        match vd.storage_class {
            Some(StorageClass::Extern) => {
                if vd.init is Some {
                    Err(CompileErrorV::InitializerOnExternLocal(vd.name))
                } else {
                    match spec_get(table, vd.name) {
                        Some(old) => {
                            if old.t != vd.var_type {
                                Err(CompileErrorV::ConflictingDeclaration(vd.name))
                            } else {
                                Ok(
                                    (
                                        table,
                                        VariableDeclarationV {
                                            name: vd.name,
                                            var_type: vd.var_type,
                                            init: None,
                                            storage_class: vd.storage_class,
                                        },
                                    ),
                                )
                            }
                        },
                        None => Ok(
                            (
                                crate::table::spec_insert(
                                    table,
                                    vd.name,
                                    EntryV {
                                        t: vd.var_type,
                                        attrs: IdentifierAttrs::StaticAttr {
                                            init: InitialValue::NoInitializer,
                                            global: true,
                                        },
                                    },
                                ),
                                VariableDeclarationV {
                                    name: vd.name,
                                    var_type: vd.var_type,
                                    init: None,
                                    storage_class: vd.storage_class,
                                },
                            ),
                        ),
                    }
                }
            },
            Some(StorageClass::Static) => {
                let ini: Result<InitialValue, CompileErrorV> = match vd.init {
                    Some(e) => spec_to_static_init(vd.var_type, vd.name, e),
                    None => Ok(InitialValue::Initial(spec_zero(vd.var_type))),
                };
                match ini {
                    Err(err) => Err(err),
                    Ok(iv) => Ok(
                        (
                            crate::table::spec_insert(
                                table,
                                vd.name,
                                EntryV {
                                    t: vd.var_type,
                                    attrs: IdentifierAttrs::StaticAttr {
                                        init: iv,
                                        global: false,
                                    },
                                },
                            ),
                            VariableDeclarationV {
                                name: vd.name,
                                var_type: vd.var_type,
                                init: None,
                                storage_class: vd.storage_class,
                            },
                        ),
                    ),
                }
            },
            None => {
                let table1 = crate::table::spec_insert(
                    table,
                    vd.name,
                    EntryV { t: vd.var_type, attrs: IdentifierAttrs::LocalAttr },
                );
                match vd.init {
                    Some(e) => match spec_typecheck_exp(table1, e) {
                        Err(err) => Err(err),
                        Ok(te) => Ok(
                            (
                                table1,
                                VariableDeclarationV {
                                    name: vd.name,
                                    var_type: vd.var_type,
                                    init: Some(spec_convert_to(te, vd.var_type)),
                                    storage_class: None,
                                },
                            ),
                        ),
                    },
                    None => Ok(
                        (
                            table1,
                            VariableDeclarationV {
                                name: vd.name,
                                var_type: vd.var_type,
                                init: None,
                                storage_class: None,
                            },
                        ),
                    ),
                }
            },
        }
    }
}

/// The parameters entered as automatic locals with their declared types.
pub open spec fn spec_add_params(
    table: SymTableV,
    params: Seq<Seq<char>>,
    param_types: Seq<TypeV>,
) -> SymTableV
    decreases params,
{
    if params.len() == 0 {
        table
    } else {
        crate::table::spec_insert(
            spec_add_params(table, params.drop_last(), param_types.drop_last()),
            params.last(),
            EntryV { t: param_types.last(), attrs: IdentifierAttrs::LocalAttr },
        )
    }
}

/// The typing of a function declaration: the type must agree with any
/// previous declaration, a body may be given at most once, and a
/// `static` declaration may not follow a non-static one.
pub open spec fn spec_typecheck_fn_decl(
    table: SymTableV,
    fd: FunctionDeclarationV<UnTypedExpV>,
) -> Result<(SymTableV, FunctionDeclarationV<TypedExpV>), CompileErrorV>
    decreases fd,
{
    match fd.fun_type {
        TypeV::FunType { param_types, ret_type } => {
            if param_types.len() != fd.params.len() {
                Err(CompileErrorV::Internal)
            } else if !is_scalar(*ret_type) {
                Err(CompileErrorV::Internal)
            } else {
                let has_body = fd.body is Some;
                let this_global = fd.storage_class != Some(StorageClass::Static);
                let prev: Result<(bool, bool), CompileErrorV> = match spec_get(table, fd.name) {
                    None => Ok((has_body, this_global)),
                    Some(old) => {
                        if old.t != fd.fun_type {
                            Err(CompileErrorV::ConflictingDeclaration(fd.name))
                        } else {
                            match old.attrs {
                                IdentifierAttrs::FunAttr {
                                    defined: prev_defined,
                                    global: prev_global,
                                    stack_frame_size: _,
                                } => {
                                    if prev_defined && has_body {
                                        Err(CompileErrorV::DuplicateDefinition(fd.name))
                                    } else if prev_global && fd.storage_class == Some(
                                        StorageClass::Static,
                                    ) {
                                        Err(CompileErrorV::ConflictingDeclaration(fd.name))
                                    } else {
                                        Ok((has_body || prev_defined, prev_global))
                                    }
                                },
                                _ => Err(CompileErrorV::ConflictingDeclaration(fd.name)),
                            }
                        }
                    },
                };
                match prev {
                    Err(err) => Err(err),
                    Ok((defined, global)) => {
                        let table1 = crate::table::spec_insert(
                            table,
                            fd.name,
                            EntryV {
                                t: fd.fun_type,
                                attrs: IdentifierAttrs::FunAttr {
                                    defined,
                                    global,
                                    stack_frame_size: 0,
                                },
                            },
                        );
                        match fd.body {
                            Some(b) => {
                                let table2 = spec_add_params(table1, fd.params, param_types);
                                match spec_typecheck_block(table2, *ret_type, b) {
                                    Err(err) => Err(err),
                                    Ok((table3, tb)) => Ok(
                                        (
                                            table3,
                                            FunctionDeclarationV {
                                                name: fd.name,
                                                fun_type: fd.fun_type,
                                                params: fd.params,
                                                body: Some(tb),
                                                storage_class: fd.storage_class,
                                            },
                                        ),
                                    ),
                                }
                            },
                            None => Ok(
                                (
                                    table1,
                                    FunctionDeclarationV {
                                        name: fd.name,
                                        fun_type: fd.fun_type,
                                        params: fd.params,
                                        body: None,
                                        storage_class: fd.storage_class,
                                    },
                                ),
                            ),
                        }
                    },
                }
            }
        },
        _ => Err(CompileErrorV::Internal),
    }
}

/// The typing of a file-scope variable declaration: redeclarations
/// merge, with an explicit initial value beating a tentative one beating
/// no initializer, two explicit initial values conflicting, and linkage
/// allowed to change only through `extern`.
pub open spec fn spec_typecheck_file_scope_var_decl(
    table: SymTableV,
    vd: VariableDeclarationV<UnTypedExpV>,
) -> Result<(SymTableV, VariableDeclarationV<TypedExpV>), CompileErrorV> {
    if !is_scalar(vd.var_type) {
        Err(CompileErrorV::Internal)
    } else {
        let current_init: Result<InitialValue, CompileErrorV> = match vd.init {
            Some(e) => spec_to_static_init(vd.var_type, vd.name, e),
            None => if vd.storage_class == Some(StorageClass::Extern) {
                Ok(InitialValue::NoInitializer)
            } else {
                Ok(InitialValue::Tentative)
            },
        };
        match current_init {
            Err(err) => Err(err),
            Ok(cur_init) => {
                let current_global = vd.storage_class != Some(StorageClass::Static);
                let merged: Result<(bool, InitialValue), CompileErrorV> = match spec_get(
                    table,
                    vd.name,
                ) {
                    None => Ok((current_global, cur_init)),
                    Some(old) => {
                        if old.t != vd.var_type {
                            Err(CompileErrorV::ConflictingDeclaration(vd.name))
                        } else {
                            match old.attrs {
                                IdentifierAttrs::StaticAttr {
                                    init: prev_init,
                                    global: prev_global,
                                } => {
                                    let global: Result<bool, CompileErrorV> = if vd.storage_class
                                        == Some(StorageClass::Extern) {
                                        Ok(prev_global)
                                    } else if current_global == prev_global {
                                        Ok(current_global)
                                    } else {
                                        Err(CompileErrorV::ConflictingDeclaration(vd.name))
                                    };
                                    match global {
                                        Err(err) => Err(err),
                                        Ok(g) => {
                                            match (prev_init, cur_init) {
                                                (
                                                    InitialValue::Initial(_),
                                                    InitialValue::Initial(_),
                                                ) => Err(
                                                    CompileErrorV::DuplicateDefinition(vd.name),
                                                ),
                                                (InitialValue::Initial(_), _) => Ok(
                                                    (g, prev_init),
                                                ),
                                                (
                                                    InitialValue::Tentative,
                                                    InitialValue::Tentative,
                                                ) => Ok((g, InitialValue::Tentative)),
                                                (
                                                    InitialValue::Tentative,
                                                    InitialValue::NoInitializer,
                                                ) => Ok((g, InitialValue::Tentative)),
                                                (_, InitialValue::Initial(_)) => Ok(
                                                    (g, cur_init),
                                                ),
                                                (InitialValue::NoInitializer, _) => Ok(
                                                    (g, cur_init),
                                                ),
                                            }
                                        },
                                    }
                                },
                                _ => Err(CompileErrorV::ConflictingDeclaration(vd.name)),
                            }
                        }
                    },
                };
                match merged {
                    Err(err) => Err(err),
                    Ok((global, init)) => Ok(
                        (
                            crate::table::spec_insert(
                                table,
                                vd.name,
                                EntryV {
                                    t: vd.var_type,
                                    attrs: IdentifierAttrs::StaticAttr { init, global },
                                },
                            ),
                            VariableDeclarationV {
                                name: vd.name,
                                var_type: vd.var_type,
                                init: None,
                                storage_class: vd.storage_class,
                            },
                        ),
                    ),
                }
            },
        }
    }
}

/// The typing of one file-scope declaration.
pub open spec fn spec_typecheck_global_decl(
    table: SymTableV,
    d: DeclarationV<UnTypedExpV>,
) -> Result<(SymTableV, DeclarationV<TypedExpV>), CompileErrorV> {
    match d {
        DeclarationV::FunDecl(fd) => {
            match spec_typecheck_fn_decl(table, fd) {
                Err(err) => Err(err),
                Ok((table1, tfd)) => Ok((table1, DeclarationV::FunDecl(tfd))),
            }
        },
        DeclarationV::VarDecl(vd) => {
            match spec_typecheck_file_scope_var_decl(table, vd) {
                Err(err) => Err(err),
                Ok((table1, tvd)) => Ok((table1, DeclarationV::VarDecl(tvd))),
            }
        },
    }
}

/// The typing of a program's declarations, in order.
pub open spec fn spec_typecheck_decls(
    table: SymTableV,
    ds: Seq<DeclarationV<UnTypedExpV>>,
) -> Result<(SymTableV, Seq<DeclarationV<TypedExpV>>), CompileErrorV>
    decreases ds,
{
    if ds.len() == 0 {
        Ok((table, Seq::empty()))
    } else {
        match spec_typecheck_decls(table, ds.drop_last()) {
            Err(err) => Err(err),
            Ok((table1, done)) => match spec_typecheck_global_decl(table1, ds.last()) {
                Err(err) => Err(err),
                Ok((table2, d1)) => Ok((table2, done.push(d1))),
            },
        }
    }
}

/// The typing of a whole program.
pub open spec fn spec_typecheck(table: SymTableV, p: ProgTypeV<UnTypedExpV>) -> Result<
    (SymTableV, ProgTypeV<TypedExpV>),
    CompileErrorV,
> {
    match p {
        ProgTypeV::Program(ds) => match spec_typecheck_decls(table, ds) {
            Err(err) => Err(err),
            Ok((table1, ds1)) => Ok((table1, ProgTypeV::Program(ds1))),
        },
    }
}

/// Once a prefix fails, the argument list fails the same way.
proof fn lemma_typecheck_args_err(
    table: SymTableV,
    args: Seq<UnTypedExpV>,
    param_types: Seq<TypeV>,
    i: int,
)
    requires
        0 <= i <= args.len(),
        args.len() == param_types.len(),
        spec_typecheck_args(table, args.subrange(0, i), param_types.subrange(0, i)) is Err,
    ensures
        spec_typecheck_args(table, args, param_types) == spec_typecheck_args(
            table,
            args.subrange(0, i),
            param_types.subrange(0, i),
        ),
    decreases args.len() - i,
{
    if i < args.len() {
        assert(args.subrange(0, i + 1).drop_last() =~= args.subrange(0, i));
        assert(param_types.subrange(0, i + 1).drop_last() =~= param_types.subrange(0, i));
        lemma_typecheck_args_err(table, args, param_types, i + 1);
    } else {
        assert(args.subrange(0, i) =~= args);
        assert(param_types.subrange(0, i) =~= param_types);
    }
}

/// Once a prefix fails, the block fails the same way.
proof fn lemma_typecheck_items_err(
    table: SymTableV,
    ret_type: TypeV,
    items: Seq<BlockItemV<UnTypedExpV>>,
    i: int,
)
    requires
        0 <= i <= items.len(),
        spec_typecheck_items(table, ret_type, items.subrange(0, i)) is Err,
    ensures
        spec_typecheck_items(table, ret_type, items) == spec_typecheck_items(
            table,
            ret_type,
            items.subrange(0, i),
        ),
    decreases items.len() - i,
{
    if i < items.len() {
        assert(items.subrange(0, i + 1).drop_last() =~= items.subrange(0, i));
        lemma_typecheck_items_err(table, ret_type, items, i + 1);
    } else {
        assert(items.subrange(0, i) =~= items);
    }
}

/// Once a prefix fails, the program fails the same way.
proof fn lemma_typecheck_decls_err(table: SymTableV, ds: Seq<DeclarationV<UnTypedExpV>>, i: int)
    requires
        0 <= i <= ds.len(),
        spec_typecheck_decls(table, ds.subrange(0, i)) is Err,
    ensures
        spec_typecheck_decls(table, ds) == spec_typecheck_decls(table, ds.subrange(0, i)),
    decreases ds.len() - i,
{
    if i < ds.len() {
        assert(ds.subrange(0, i + 1).drop_last() =~= ds.subrange(0, i));
        lemma_typecheck_decls_err(table, ds, i + 1);
    } else {
        assert(ds.subrange(0, i) =~= ds);
    }
}

/// Wraps a typed expression in a cast to the target type.
pub fn convert_to(e: TypedExp, target_type: Type) -> (r: TypedExp)
    ensures
        r@ == spec_convert_to(e@, target_type@),
{
    let t2 = target_type.clone();
    set_type(TypedInnerExp::Cast { target_type, e }, t2)
}

/// The common type of two operand types: equal types stay, otherwise
/// the wider `long`.
pub fn get_comman_type(t1: &Type, t2: &Type) -> (r: Type)
    ensures
        r@ == spec_common_type(t1@, t2@),
{
    if type_eq(t1, t2) {
        t1.clone()
    } else {
        Type::Long
    }
}

/// Types a constant by its tag.
pub fn typecheck_const(c: constants::T) -> (r: TypedExp)
    ensures
        spec_typecheck_exp(Seq::empty(), UnTypedExpV::Constant(c)) == Ok::<
            TypedExpV,
            CompileErrorV,
        >(r@),
{
    match c {
        constants::T::ConstInt(_) => set_type(TypedInnerExp::Constant(c), Type::Int),
        constants::T::ConstLong(_) => set_type(TypedInnerExp::Constant(c), Type::Long),
    }
}

/// Types a variable by its recorded type; a function name here is an
/// error.
pub fn typecheck_var(table: &SymbolTable, v: String) -> (r: Result<TypedExp, CompileError>)
    ensures
        match r {
            Ok(out) => spec_typecheck_exp(table@, UnTypedExpV::Var(v@)) == Ok::<
                TypedExpV,
                CompileErrorV,
            >(out@),
            Err(e) => spec_typecheck_exp(table@, UnTypedExpV::Var(v@)) == Err::<
                TypedExpV,
                CompileErrorV,
            >(e@),
        },
{
    match table.get_opt(&v) {
        Some(en) => {
            match en.t {
                Type::Int => Ok(set_type(TypedInnerExp::Var(v), Type::Int)),
                Type::Long => Ok(set_type(TypedInnerExp::Var(v), Type::Long)),
                Type::FunType { .. } => Err(CompileError::WrongKindOfName(v)),
            }
        },
        None => Err(CompileError::UndeclaredIdentifier(v)),
    }
}

/// Types one expression.
#[verifier::rlimit(100)]
pub fn typecheck_exp(table: &SymbolTable, exp: UnTypedExp) -> (r: Result<TypedExp, CompileError>)
    ensures
        match r {
            Ok(out) => spec_typecheck_exp(table@, exp@) == Ok::<TypedExpV, CompileErrorV>(out@),
            Err(e) => spec_typecheck_exp(table@, exp@) == Err::<TypedExpV, CompileErrorV>(e@),
        },
    decreases exp,
{
    let ghost e0 = exp;
    let ghost tv = table@;
    match exp {
        UnTypedExp::Constant(c) => Ok(typecheck_const(c)),
        UnTypedExp::Var(v) => typecheck_var(table, v),
        UnTypedExp::Cast { target_type, e: inner } => {
            let scalar = matches!(target_type, Type::Int | Type::Long);
            if !scalar {
                Err(CompileError::InvalidCast)
            } else {
                let te = typecheck_exp(table, *inner)?;
                let t2 = target_type.clone();
                Ok(set_type(TypedInnerExp::Cast { target_type, e: te }, t2))
            }
        },
        UnTypedExp::Unary(op, inner) => {
            let te = typecheck_exp(table, *inner)?;
            if matches!(op, crate::ast::UnaryOperator::Not) {
                Ok(set_type(TypedInnerExp::Unary(op, te), Type::Int))
            } else {
                let t = te.t.clone();
                Ok(set_type(TypedInnerExp::Unary(op, te), t))
            }
        },
        UnTypedExp::Binary(op, e1, e2) => {
            let te1 = typecheck_exp(table, *e1)?;
            let te2 = typecheck_exp(table, *e2)?;
            let logical = matches!(op, crate::ast::BinaryOperator::And | crate::ast::BinaryOperator::Or);
            if logical {
                Ok(set_type(TypedInnerExp::Binary(op, te1, te2), Type::Int))
            } else {
                let common = get_comman_type(&te1.t, &te2.t);
                let c1 = convert_to(te1, common.clone());
                let c2 = convert_to(te2, common.clone());
                let comparison = matches!(
                    op,
                    crate::ast::BinaryOperator::Equal | crate::ast::BinaryOperator::NotEqual
                        | crate::ast::BinaryOperator::LessThan
                        | crate::ast::BinaryOperator::LessOrEqual
                        | crate::ast::BinaryOperator::GreaterThan
                        | crate::ast::BinaryOperator::GreaterOrEqual
                );
                if comparison {
                    Ok(set_type(TypedInnerExp::Binary(op, c1, c2), Type::Int))
                } else {
                    Ok(set_type(TypedInnerExp::Binary(op, c1, c2), common))
                }
            }
        },
        UnTypedExp::Assignment(lhs, rhs) => {
            let is_var = matches!(&*lhs, UnTypedExp::Var(_));
            if !is_var {
                Err(CompileError::InvalidLValue)
            } else {
                let tl = typecheck_exp(table, *lhs)?;
                let tr = typecheck_exp(table, *rhs)?;
                let lhs_type = tl.t.clone();
                let cr = convert_to(tr, lhs_type.clone());
                Ok(set_type(TypedInnerExp::Assignment(tl, cr), lhs_type))
            }
        },
        UnTypedExp::Conditional { condition, then_result, else_result } => {
            let tc = typecheck_exp(table, *condition)?;
            let tt = typecheck_exp(table, *then_result)?;
            let te = typecheck_exp(table, *else_result)?;
            let common = get_comman_type(&tt.t, &te.t);
            let ct = convert_to(tt, common.clone());
            let ce = convert_to(te, common.clone());
            Ok(
                set_type(
                    TypedInnerExp::Conditional {
                        condition: tc,
                        then_result: ct,
                        else_result: ce,
                    },
                    common,
                ),
            )
        },
        UnTypedExp::FunCall { f, args } => {
            let entry = match table.get_opt(&f) {
                Some(en) => en,
                None => {
                    return Err(CompileError::UndeclaredIdentifier(f));
                },
            };
            let ghost env = entry@;
            match entry.t {
                Type::FunType { param_types, ret_type } => {
                    proof {
                        lemma_type_views(param_types@);
                        lemma_untyped_exp_views(args@);
                        assert(spec_get(tv, f@) == Some(env));
                        assert(env.t == (TypeV::FunType {
                            param_types: type_views(param_types@),
                            ret_type: Box::new(crate::types::type_view(*ret_type)),
                        }));
                        assert(e0@ == (UnTypedExpV::FunCall {
                            f: f@,
                            args: untyped_exp_views(args@),
                        }));
                    }
                    if param_types.len() != args.len() {
                        return Err(CompileError::WrongArgumentCount(f));
                    }
                    let ret_scalar = matches!(&*ret_type, Type::Int | Type::Long);
                    if !ret_scalar {
                        return Err(CompileError::Internal);
                    }
                    let ghost argv = untyped_exp_views(args@);
                    let ghost ptv = type_views(param_types@);
                    let ghost v0 = args;
                    let ghost p0 = param_types;
                    proof {
                        lemma_untyped_exp_views(args@);
                    }
                    let mut out: Vec<TypedExp> = Vec::new();
                    let mut rest = args;
                    let mut prest = param_types;
                    let n0 = rest.len();
                    proof {
                        assert(v0@.len() == n0);
                        lemma_typed_exp_views(out@);
                        assert(argv.subrange(0, 0) =~= Seq::<UnTypedExpV>::empty());
                        assert(ptv.subrange(0, 0) =~= Seq::<TypeV>::empty());
                        assert(typed_exp_views(out@) =~= Seq::<TypedExpV>::empty());
                    }
                    let mut i: usize = 0;
                    while rest.len() > 0
                        invariant
                            v0@.len() <= usize::MAX,
                            i + rest@.len() == v0@.len(),
                            prest@.len() == rest@.len(),
                            rest@ == v0@.subrange(i as int, v0@.len() as int),
                            prest@ == p0@.subrange(i as int, p0@.len() as int),
                            p0@.len() == v0@.len(),
                            argv == untyped_exp_views(v0@),
                            argv.len() == v0@.len(),
                            forall|j: int| 0 <= j < argv.len() ==> argv[j] == v0@[j]@,
                            ptv == type_views(p0@),
                            ptv.len() == p0@.len(),
                            forall|j: int|
                                0 <= j < ptv.len() ==> ptv[j] == crate::types::type_view(p0@[j]),
                            tv == table@,
                            spec_typecheck_args(
                                tv,
                                argv.subrange(0, i as int),
                                ptv.subrange(0, i as int),
                            ) == Ok::<Seq<TypedExpV>, CompileErrorV>(typed_exp_views(out@)),
                        decreases rest@.len(),
                    {
                        let arg = rest.remove(0);
                        let pt = prest.remove(0);
                        proof {
                            assert(arg == v0@[i as int]);
                            assert(pt == p0@[i as int]);
                            assert(rest@ =~= v0@.subrange(i + 1, v0@.len() as int));
                            assert(prest@ =~= p0@.subrange(i + 1, p0@.len() as int));
                            assert(argv.subrange(0, i + 1).drop_last() =~= argv.subrange(
                                0,
                                i as int,
                            ));
                            assert(ptv.subrange(0, i + 1).drop_last() =~= ptv.subrange(
                                0,
                                i as int,
                            ));
                            assert(argv.subrange(0, i + 1).last() == v0@[i as int]@);
                            assert(ptv.subrange(0, i + 1).last() == crate::types::type_view(
                                p0@[i as int],
                            ));
                            assert(decreases_to!(e0 => v0));
                            assert(decreases_to!(v0 => v0@));
                            assert(decreases_to!(v0@ => v0@[i as int]));
                            assert(decreases_to!(e0 => arg));
                        }
                        let ta = match typecheck_exp(table, arg) {
                            Ok(ta) => ta,
                            Err(e) => {
                                proof {
                                    lemma_typecheck_args_err(tv, argv, ptv, i + 1);
                                }
                                return Err(e);
                            },
                        };
                        let ca = convert_to(ta, pt);
                        let ghost before = out@;
                        out.push(ca);
                        proof {
                            lemma_typed_exp_views(out@);
                            lemma_typed_exp_views(before);
                            assert(typed_exp_views(out@) =~= typed_exp_views(before).push(
                                out@[out@.len() - 1]@,
                            ));
                        }
                        i += 1;
                    }
                    proof {
                        assert(argv.subrange(0, v0@.len() as int) =~= argv);
                        assert(ptv.subrange(0, p0@.len() as int) =~= ptv);
                    }
                    Ok(set_type(TypedInnerExp::FunCall { f, args: out }, *ret_type))
                },
                _ => Err(CompileError::WrongKindOfName(f)),
            }
        },
    }
}

/// Types the arguments of a call; the entry point for one call argument
/// list stands inside [`typecheck_exp`].
pub fn typecheck_fun_call(table: &SymbolTable, f: String, args: Vec<UnTypedExp>) -> (r: Result<
    TypedExp,
    CompileError,
>)
    ensures
        match r {
            Ok(out) => spec_typecheck_exp(
                table@,
                UnTypedExpV::FunCall { f: f@, args: untyped_exp_views(args@) },
            ) == Ok::<TypedExpV, CompileErrorV>(out@),
            Err(e) => spec_typecheck_exp(
                table@,
                UnTypedExpV::FunCall { f: f@, args: untyped_exp_views(args@) },
            ) == Err::<TypedExpV, CompileErrorV>(e@),
        },
{
    typecheck_exp(table, UnTypedExp::FunCall { f, args })
}

/// Types a unary application.
pub fn typecheck_unary(table: &SymbolTable, op: crate::ast::UnaryOperator, inner: UnTypedExp) -> (r:
    Result<TypedExp, CompileError>)
    ensures
        match r {
            Ok(out) => spec_typecheck_exp(
                table@,
                UnTypedExpV::Unary(op, Box::new(inner@)),
            ) == Ok::<TypedExpV, CompileErrorV>(out@),
            Err(e) => spec_typecheck_exp(table@, UnTypedExpV::Unary(op, Box::new(inner@))) == Err::<
                TypedExpV,
                CompileErrorV,
            >(e@),
        },
{
    typecheck_exp(table, UnTypedExp::Unary(op, Box::new(inner)))
}

/// Types a binary application.
pub fn typecheck_binary(
    table: &SymbolTable,
    op: crate::ast::BinaryOperator,
    e1: UnTypedExp,
    e2: UnTypedExp,
) -> (r: Result<TypedExp, CompileError>)
    ensures
        match r {
            Ok(out) => spec_typecheck_exp(
                table@,
                UnTypedExpV::Binary(op, Box::new(e1@), Box::new(e2@)),
            ) == Ok::<TypedExpV, CompileErrorV>(out@),
            Err(e) => spec_typecheck_exp(
                table@,
                UnTypedExpV::Binary(op, Box::new(e1@), Box::new(e2@)),
            ) == Err::<TypedExpV, CompileErrorV>(e@),
        },
{
    typecheck_exp(table, UnTypedExp::Binary(op, Box::new(e1), Box::new(e2)))
}

/// Types an assignment.
pub fn typecheck_assignment(table: &SymbolTable, lhs: UnTypedExp, rhs: UnTypedExp) -> (r: Result<
    TypedExp,
    CompileError,
>)
    ensures
        match r {
            Ok(out) => spec_typecheck_exp(
                table@,
                UnTypedExpV::Assignment(Box::new(lhs@), Box::new(rhs@)),
            ) == Ok::<TypedExpV, CompileErrorV>(out@),
            Err(e) => spec_typecheck_exp(
                table@,
                UnTypedExpV::Assignment(Box::new(lhs@), Box::new(rhs@)),
            ) == Err::<TypedExpV, CompileErrorV>(e@),
        },
{
    typecheck_exp(table, UnTypedExp::Assignment(Box::new(lhs), Box::new(rhs)))
}

/// Types a conditional expression.
pub fn typecheck_conditional(
    table: &SymbolTable,
    condition: UnTypedExp,
    then_exp: UnTypedExp,
    else_exp: UnTypedExp,
) -> (r: Result<TypedExp, CompileError>)
    ensures
        match r {
            Ok(out) => spec_typecheck_exp(
                table@,
                UnTypedExpV::Conditional {
                    condition: Box::new(condition@),
                    then_result: Box::new(then_exp@),
                    else_result: Box::new(else_exp@),
                },
            ) == Ok::<TypedExpV, CompileErrorV>(out@),
            Err(e) => spec_typecheck_exp(
                table@,
                UnTypedExpV::Conditional {
                    condition: Box::new(condition@),
                    then_result: Box::new(then_exp@),
                    else_result: Box::new(else_exp@),
                },
            ) == Err::<TypedExpV, CompileErrorV>(e@),
        },
{
    typecheck_exp(
        table,
        UnTypedExp::Conditional {
            condition: Box::new(condition),
            then_result: Box::new(then_exp),
            else_result: Box::new(else_exp),
        },
    )
}

/// Converts a static initializer to the declared type.
pub fn to_static_init(var_type: &Type, name: &String, init: &UnTypedExp) -> (r: Result<
    InitialValue,
    CompileError,
>)
    ensures
        match r {
            Ok(iv) => spec_to_static_init(var_type@, name@, init@) == Ok::<
                InitialValue,
                CompileErrorV,
            >(iv),
            Err(e) => spec_to_static_init(var_type@, name@, init@) == Err::<
                InitialValue,
                CompileErrorV,
            >(e@),
        },
{
    match init {
        UnTypedExp::Constant(c) => {
            match const_convert(var_type, *c) {
                constants::T::ConstInt(i) => Ok(InitialValue::Initial(StaticInit::IntInit(i))),
                constants::T::ConstLong(l) => Ok(InitialValue::Initial(StaticInit::LongInit(l))),
            }
        },
        _ => Err(CompileError::NonConstantInitializer(name.clone())),
    }
}

/// Types one statement, threading the symbol table.
#[verifier::rlimit(100)]
pub fn typecheck_statement(
    table: &mut SymbolTable,
    ret_type: &Type,
    statement: Statement<UnTypedExp>,
) -> (r: Result<Statement<TypedExp>, CompileError>)
    ensures
        match r {
            Ok(out) => spec_typecheck_statement(old(table)@, ret_type@, statement@) == Ok::<
                (SymTableV, StatementV<TypedExpV>),
                CompileErrorV,
            >((final(table)@, out@)),
            Err(e) => spec_typecheck_statement(old(table)@, ret_type@, statement@) == Err::<
                (SymTableV, StatementV<TypedExpV>),
                CompileErrorV,
            >(e@),
        },
    decreases statement,
{
    match statement {
        Statement::Return(e) => {
            let te = typecheck_exp(table, e)?;
            Ok(Statement::Return(convert_to(te, ret_type.clone())))
        },
        Statement::Expression(e) => {
            let te = typecheck_exp(table, e)?;
            Ok(Statement::Expression(te))
        },
        Statement::If { condition, then_clause, else_clause } => {
            let tc = typecheck_exp(table, condition)?;
            let tt = typecheck_statement(table, ret_type, *then_clause)?;
            match else_clause {
                None => Ok(
                    Statement::If {
                        condition: tc,
                        then_clause: Box::new(tt),
                        else_clause: None,
                    },
                ),
                Some(els) => {
                    let te = typecheck_statement(table, ret_type, *els)?;
                    Ok(
                        Statement::If {
                            condition: tc,
                            then_clause: Box::new(tt),
                            else_clause: Some(Box::new(te)),
                        },
                    )
                },
            }
        },
        Statement::Compound(b) => {
            let tb = typecheck_block(table, ret_type, b)?;
            Ok(Statement::Compound(tb))
        },
        Statement::While { condition, body, id } => {
            let tc = typecheck_exp(table, condition)?;
            let tb = typecheck_statement(table, ret_type, *body)?;
            Ok(Statement::While { condition: tc, body: Box::new(tb), id })
        },
        Statement::DoWhile { body, condition, id } => {
            let tb = typecheck_statement(table, ret_type, *body)?;
            let tc = typecheck_exp(table, condition)?;
            Ok(Statement::DoWhile { body: Box::new(tb), condition: tc, id })
        },
        Statement::For { init, condition, post, body, id } => {
            let tinit: ForInit<TypedExp> = match init {
                ForInit::InitDecl(vd) => {
                    if vd.storage_class.is_some() {
                        return Err(CompileError::StorageClassInForInit(vd.name));
                    }
                    let tvd = typecheck_local_var_decl(table, vd)?;
                    ForInit::InitDecl(tvd)
                },
                ForInit::InitExp(None) => ForInit::InitExp(None),
                ForInit::InitExp(Some(e)) => {
                    let te = typecheck_exp(table, e)?;
                    ForInit::InitExp(Some(te))
                },
            };
            let tcond: Option<TypedExp> = match condition {
                None => None,
                Some(c) => Some(typecheck_exp(table, c)?),
            };
            let tpost: Option<TypedExp> = match post {
                None => None,
                Some(p) => Some(typecheck_exp(table, p)?),
            };
            let tb = typecheck_statement(table, ret_type, *body)?;
            Ok(
                Statement::For {
                    init: tinit,
                    condition: tcond,
                    post: tpost,
                    body: Box::new(tb),
                    id,
                },
            )
        },
        Statement::Break(id) => Ok(Statement::Break(id)),
        Statement::Continue(id) => Ok(Statement::Continue(id)),
        Statement::Null => Ok(Statement::Null),
    }
}

/// Types one block item.
pub fn typecheck_block_item(
    table: &mut SymbolTable,
    ret_type: &Type,
    block_item: BlockItem<UnTypedExp>,
) -> (r: Result<BlockItem<TypedExp>, CompileError>)
    ensures
        match r {
            Ok(out) => {
                &&& block_item@ matches BlockItemV::S(s) ==> spec_typecheck_statement(
                    old(table)@,
                    ret_type@,
                    s,
                ) == Ok::<(SymTableV, StatementV<TypedExpV>), CompileErrorV>(
                    (final(table)@, out@->S_0),
                ) && out@ is S
                &&& block_item@ matches BlockItemV::D(d) ==> spec_typecheck_local_decl(
                    old(table)@,
                    d,
                ) == Ok::<(SymTableV, DeclarationV<TypedExpV>), CompileErrorV>(
                    (final(table)@, out@->D_0),
                ) && out@ is D
            },
            Err(e) => {
                &&& block_item@ matches BlockItemV::S(s) ==> spec_typecheck_statement(
                    old(table)@,
                    ret_type@,
                    s,
                ) == Err::<(SymTableV, StatementV<TypedExpV>), CompileErrorV>(e@)
                &&& block_item@ matches BlockItemV::D(d) ==> spec_typecheck_local_decl(
                    old(table)@,
                    d,
                ) == Err::<(SymTableV, DeclarationV<TypedExpV>), CompileErrorV>(e@)
            },
        },
    decreases block_item,
{
    match block_item {
        BlockItem::S(s) => {
            let ts = typecheck_statement(table, ret_type, s)?;
            Ok(BlockItem::S(ts))
        },
        BlockItem::D(d) => {
            let td = typecheck_local_decl(table, d)?;
            Ok(BlockItem::D(td))
        },
    }
}

/// Types the items of a block, threading the symbol table.
pub fn typecheck_block(table: &mut SymbolTable, ret_type: &Type, b: Block<UnTypedExp>) -> (r:
    Result<Block<TypedExp>, CompileError>)
    ensures
        match r {
            Ok(out) => spec_typecheck_block(old(table)@, ret_type@, b@) == Ok::<
                (SymTableV, BlockV<TypedExpV>),
                CompileErrorV,
            >((final(table)@, out@)),
            Err(e) => spec_typecheck_block(old(table)@, ret_type@, b@) == Err::<
                (SymTableV, BlockV<TypedExpV>),
                CompileErrorV,
            >(e@),
        },
    decreases b,
{
    let ghost b0 = b;
    let ghost t0 = table@;
    let ghost rt = ret_type@;
    match b {
        Block::Block(items) => {
            let ghost v0 = items;
            let ghost all = block_item_views(items@);
            let mut out: Vec<BlockItem<TypedExp>> = Vec::new();
            let mut rest = items;
            let n0 = rest.len();
            proof {
                lemma_block_item_views(rest@);
                lemma_block_item_views(out@);
                assert(v0@.len() == n0);
                assert(all.subrange(0, 0) =~= Seq::<BlockItemV<UnTypedExpV>>::empty());
                assert(block_item_views(out@) =~= Seq::<BlockItemV<TypedExpV>>::empty());
            }
            let mut i: usize = 0;
            while rest.len() > 0
                invariant
                    v0@.len() <= usize::MAX,
                    i + rest@.len() == v0@.len(),
                    rest@ == v0@.subrange(i as int, v0@.len() as int),
                    all == block_item_views(v0@),
                    all.len() == v0@.len(),
                    forall|j: int| 0 <= j < all.len() ==> all[j] == v0@[j]@,
                    rt == ret_type@,
                    spec_typecheck_items(t0, rt, all.subrange(0, i as int)) == Ok::<
                        (SymTableV, Seq<BlockItemV<TypedExpV>>),
                        CompileErrorV,
                    >((table@, block_item_views(out@))),
                decreases rest@.len(),
            {
                let item = rest.remove(0);
                proof {
                    assert(item == v0@[i as int]);
                    assert(rest@ =~= v0@.subrange(i + 1, v0@.len() as int));
                    assert(all.subrange(0, i + 1).drop_last() =~= all.subrange(0, i as int));
                    assert(all.subrange(0, i + 1).last() == v0@[i as int]@);
                    assert(decreases_to!(b0 => v0));
                    assert(decreases_to!(v0 => v0@));
                    assert(decreases_to!(v0@ => v0@[i as int]));
                    assert(decreases_to!(b0 => item));
                }
                let titem = match typecheck_block_item(table, ret_type, item) {
                    Ok(t) => t,
                    Err(e) => {
                        proof {
                            lemma_typecheck_items_err(t0, rt, all, i + 1);
                        }
                        return Err(e);
                    },
                };
                let ghost before = out@;
                out.push(titem);
                proof {
                    lemma_block_item_views(out@);
                    lemma_block_item_views(before);
                    assert(block_item_views(out@) =~= block_item_views(before).push(
                        out@[out@.len() - 1]@,
                    ));
                }
                i += 1;
            }
            proof {
                assert(all.subrange(0, v0@.len() as int) =~= all);
            }
            Ok(Block::Block(out))
        },
    }
}

/// Types a block-scope declaration.
pub fn typecheck_local_decl(table: &mut SymbolTable, d: Declaration<UnTypedExp>) -> (r: Result<
    Declaration<TypedExp>,
    CompileError,
>)
    ensures
        match r {
            Ok(out) => spec_typecheck_local_decl(old(table)@, d@) == Ok::<
                (SymTableV, DeclarationV<TypedExpV>),
                CompileErrorV,
            >((final(table)@, out@)),
            Err(e) => spec_typecheck_local_decl(old(table)@, d@) == Err::<
                (SymTableV, DeclarationV<TypedExpV>),
                CompileErrorV,
            >(e@),
        },
    decreases d,
{
    match d {
        Declaration::VarDecl(vd) => {
            let tvd = typecheck_local_var_decl(table, vd)?;
            Ok(Declaration::VarDecl(tvd))
        },
        Declaration::FunDecl(fd) => {
            let tfd = typecheck_fn_decl(table, fd)?;
            Ok(Declaration::FunDecl(tfd))
        },
    }
}

/// Types a local variable declaration.
#[verifier::rlimit(100)]
pub fn typecheck_local_var_decl(
    table: &mut SymbolTable,
    vd: VariableDeclaration<UnTypedExp>,
) -> (r: Result<VariableDeclaration<TypedExp>, CompileError>)
    ensures
        match r {
            Ok(out) => spec_typecheck_local_var_decl(old(table)@, vd@) == Ok::<
                (SymTableV, VariableDeclarationV<TypedExpV>),
                CompileErrorV,
            >((final(table)@, out@)),
            Err(e) => spec_typecheck_local_var_decl(old(table)@, vd@) == Err::<
                (SymTableV, VariableDeclarationV<TypedExpV>),
                CompileErrorV,
            >(e@),
        },
{
    let VariableDeclaration { name, var_type, init, storage_class } = vd;
    let scalar = matches!(var_type, Type::Int | Type::Long);
    if !scalar {
        return Err(CompileError::Internal);
    }
    match storage_class {
        Some(StorageClass::Extern) => {
            if init.is_some() {
                return Err(CompileError::InitializerOnExternLocal(name));
            }
            match table.get_opt(&name) {
                Some(old_entry) => {
                    if !type_eq(&old_entry.t, &var_type) {
                        Err(CompileError::ConflictingDeclaration(name))
                    } else {
                        Ok(
                            VariableDeclaration {
                                name,
                                var_type,
                                init: None,
                                storage_class,
                            },
                        )
                    }
                },
                None => {
                    let t1 = var_type.clone();
                    let n1 = name.clone();
                    table.add_static_var(n1, t1, true, InitialValue::NoInitializer);
                    Ok(VariableDeclaration { name, var_type, init: None, storage_class })
                },
            }
        },
        Some(StorageClass::Static) => {
            let iv: InitialValue = match &init {
                Some(e) => to_static_init(&var_type, &name, e)?,
                None => InitialValue::Initial(crate::initializers::zero(&var_type)),
            };
            let t1 = var_type.clone();
            let n1 = name.clone();
            table.add_static_var(n1, t1, false, iv);
            Ok(VariableDeclaration { name, var_type, init: None, storage_class })
        },
        None => {
            let t1 = var_type.clone();
            let n1 = name.clone();
            table.add_automatic_var(n1, t1);
            match init {
                Some(e) => {
                    let te = typecheck_exp(table, e)?;
                    let converted = convert_to(te, var_type.clone());
                    Ok(
                        VariableDeclaration {
                            name,
                            var_type,
                            init: Some(converted),
                            storage_class: None,
                        },
                    )
                },
                None => Ok(
                    VariableDeclaration { name, var_type, init: None, storage_class: None },
                ),
            }
        },
    }
}

/// Types a function declaration.
#[verifier::rlimit(100)]
pub fn typecheck_fn_decl(table: &mut SymbolTable, fd: FunctionDeclaration<UnTypedExp>) -> (r:
    Result<FunctionDeclaration<TypedExp>, CompileError>)
    ensures
        match r {
            Ok(out) => spec_typecheck_fn_decl(old(table)@, fd@) == Ok::<
                (SymTableV, FunctionDeclarationV<TypedExpV>),
                CompileErrorV,
            >((final(table)@, out@)),
            Err(e) => spec_typecheck_fn_decl(old(table)@, fd@) == Err::<
                (SymTableV, FunctionDeclarationV<TypedExpV>),
                CompileErrorV,
            >(e@),
        },
    decreases fd,
{
    let ghost fd0 = fd;
    let ghost t0 = table@;
    let FunctionDeclaration { name, fun_type, params, body, storage_class } = fd;
    let (param_types, ret_type): (Vec<Type>, Box<Type>) = match fun_type {
        Type::FunType { param_types, ret_type } => (param_types, ret_type),
        _ => {
            return Err(CompileError::Internal);
        },
    };
    proof {
        lemma_type_views(param_types@);
        lemma_string_views(params@);
        assert(fd0@.fun_type == (TypeV::FunType {
            param_types: type_views(param_types@),
            ret_type: Box::new(crate::types::type_view(*ret_type)),
        }));
        assert(fd0@.params == string_views(params@));
        assert(fd0@.name == name@);
        assert(fd0@.storage_class == storage_class);
    }
    if param_types.len() != params.len() {
        return Err(CompileError::Internal);
    }
    let ret_scalar = matches!(&*ret_type, Type::Int | Type::Long);
    if !ret_scalar {
        return Err(CompileError::Internal);
    }
    let has_body = body.is_some();
    let this_global = !matches!(storage_class, Some(StorageClass::Static));
    let ghost fun_type_v = fd0@.fun_type;
    let (defined, global): (bool, bool) = match table.get_opt(&name) {
        None => (has_body, this_global),
        Some(old_entry) => {
            let same = match &old_entry.t {
                Type::FunType { param_types: opt, ret_type: ort } => {
                    proof {
                        lemma_type_views(opt@);
                    }
                    if opt.len() != param_types.len() {
                        proof {
                            assert(old_entry@.t != fun_type_v);
                        }
                        false
                    } else {
                        let mut k: usize = 0;
                        let mut eqs = true;
                        while k < opt.len()
                            invariant
                                k <= opt.len(),
                                opt@.len() == param_types@.len(),
                                eqs == (type_views(opt@).subrange(0, k as int) =~= type_views(
                                    param_types@,
                                ).subrange(0, k as int)),
                            decreases opt.len() - k,
                        {
                            proof {
                                lemma_type_views(opt@);
                                lemma_type_views(param_types@);
                            }
                            let eq_here = type_eq(&opt[k], &param_types[k]);
                            proof {
                                if eqs && eq_here {
                                    assert(type_views(opt@).subrange(0, k + 1) =~= type_views(
                                        param_types@,
                                    ).subrange(0, k + 1));
                                }
                                if !eq_here {
                                    assert(type_views(opt@).subrange(0, k + 1)[k as int]
                                        != type_views(param_types@).subrange(0, k + 1)[k as int]);
                                }
                                if !eqs {
                                    let j = choose|j: int|
                                        0 <= j < k && type_views(opt@).subrange(0, k as int)[j]
                                            != type_views(param_types@).subrange(0, k as int)[j];
                                    assert(type_views(opt@).subrange(0, k + 1)[j] != type_views(
                                        param_types@,
                                    ).subrange(0, k + 1)[j]);
                                }
                            }
                            eqs = eqs && eq_here;
                            k += 1;
                        }
                        proof {
                            lemma_type_views(opt@);
                            lemma_type_views(param_types@);
                            assert(type_views(opt@).subrange(0, opt@.len() as int) =~= type_views(
                                opt@,
                            ));
                            assert(type_views(param_types@).subrange(
                                0,
                                param_types@.len() as int,
                            ) =~= type_views(param_types@));
                        }
                        if eqs {
                            let req = type_eq(ort, &ret_type);
                            proof {
                                if req {
                                    assert(type_views(opt@) =~= type_views(param_types@));
                                    assert(old_entry@.t == fun_type_v);
                                } else {
                                    assert(old_entry@.t != fun_type_v);
                                }
                            }
                            req
                        } else {
                            proof {
                                let j = choose|j: int|
                                    0 <= j < opt@.len() && type_views(opt@).subrange(
                                        0,
                                        opt@.len() as int,
                                    )[j] != type_views(param_types@).subrange(
                                        0,
                                        param_types@.len() as int,
                                    )[j];
                                assert(old_entry@.t->param_types[j]
                                    != fun_type_v->param_types[j]);
                            }
                            false
                        }
                    }
                },
                _ => {
                    proof {
                        assert(old_entry@.t != fun_type_v);
                    }
                    false
                },
            };
            if !same {
                return Err(CompileError::ConflictingDeclaration(name));
            }
            match old_entry.attrs {
                IdentifierAttrs::FunAttr { defined: prev_defined, global: prev_global, .. } => {
                    if prev_defined && has_body {
                        return Err(CompileError::DuplicateDefinition(name));
                    }
                    if prev_global && matches!(storage_class, Some(StorageClass::Static)) {
                        return Err(CompileError::ConflictingDeclaration(name));
                    }
                    (has_body || prev_defined, prev_global)
                },
                _ => {
                    return Err(CompileError::ConflictingDeclaration(name));
                },
            }
        },
    };
    let mut pts_copy: Vec<Type> = Vec::new();
    let mut pi: usize = 0;
    while pi < param_types.len()
        invariant
            pi <= param_types.len(),
            pts_copy@.len() == pi,
            forall|j: int|
                0 <= j < pi ==> crate::types::type_view(#[trigger] pts_copy@[j])
                    == crate::types::type_view(param_types@[j]),
        decreases param_types.len() - pi,
    {
        pts_copy.push(param_types[pi].clone());
        pi += 1;
    }
    proof {
        lemma_type_views(pts_copy@);
        lemma_type_views(param_types@);
        assert(type_views(pts_copy@) =~= type_views(param_types@));
    }
    let rebuilt = Type::FunType { param_types: pts_copy, ret_type: Box::new((*ret_type).clone()) };
    proof {
        assert(rebuilt@ == fun_type_v);
    }
    let n1 = name.clone();
    table.add_fun(n1, rebuilt, global, defined);
    match body {
        Some(b) => {
            let ghost table1 = table@;
            let ghost pv = string_views(params@);
            let ghost ptv = type_views(param_types@);
            proof {
                assert(pv.subrange(0, 0) =~= Seq::<Seq<char>>::empty());
                assert(ptv.subrange(0, 0) =~= Seq::<TypeV>::empty());
                assert(spec_add_params(table1, pv.subrange(0, 0), ptv.subrange(0, 0)) == table@);
            }
            let mut i: usize = 0;
            while i < params.len()
                invariant
                    i <= params.len(),
                    param_types@.len() == params@.len(),
                    pv == string_views(params@),
                    pv.len() == params@.len(),
                    forall|j: int| 0 <= j < pv.len() ==> pv[j] == params@[j]@,
                    ptv == type_views(param_types@),
                    ptv.len() == param_types@.len(),
                    forall|j: int|
                        0 <= j < ptv.len() ==> ptv[j] == crate::types::type_view(param_types@[j]),
                    spec_add_params(table1, pv.subrange(0, i as int), ptv.subrange(0, i as int))
                        == table@,
                decreases params.len() - i,
            {
                proof {
                    assert(pv.subrange(0, i + 1).drop_last() =~= pv.subrange(0, i as int));
                    assert(ptv.subrange(0, i + 1).drop_last() =~= ptv.subrange(0, i as int));
                    assert(pv.subrange(0, i + 1).last() == params@[i as int]@);
                    assert(ptv.subrange(0, i + 1).last() == crate::types::type_view(
                        param_types@[i as int],
                    ));
                }
                table.add_automatic_var(params[i].clone(), param_types[i].clone());
                i += 1;
            }
            proof {
                assert(pv.subrange(0, params@.len() as int) =~= pv);
                assert(ptv.subrange(0, param_types@.len() as int) =~= ptv);
            }
            let tb = typecheck_block(table, &ret_type, b)?;
            let out = FunctionDeclaration {
                name,
                fun_type: Type::FunType { param_types, ret_type },
                params,
                body: Some(tb),
                storage_class,
            };
            proof {
                assert(out@.fun_type == fun_type_v);
            }
            Ok(out)
        },
        None => {
            let out = FunctionDeclaration {
                name,
                fun_type: Type::FunType { param_types, ret_type },
                params,
                body: None,
                storage_class,
            };
            proof {
                assert(out@.fun_type == fun_type_v);
            }
            Ok(out)
        },
    }
}

/// Types a file-scope variable declaration, merging it with any
/// previous declaration of the same name.
#[verifier::rlimit(100)]
pub fn typecheck_file_scope_var_decl(
    table: &mut SymbolTable,
    vd: VariableDeclaration<UnTypedExp>,
) -> (r: Result<VariableDeclaration<TypedExp>, CompileError>)
    ensures
        match r {
            Ok(out) => spec_typecheck_file_scope_var_decl(old(table)@, vd@) == Ok::<
                (SymTableV, VariableDeclarationV<TypedExpV>),
                CompileErrorV,
            >((final(table)@, out@)),
            Err(e) => spec_typecheck_file_scope_var_decl(old(table)@, vd@) == Err::<
                (SymTableV, VariableDeclarationV<TypedExpV>),
                CompileErrorV,
            >(e@),
        },
{
    let VariableDeclaration { name, var_type, init, storage_class } = vd;
    let scalar = matches!(var_type, Type::Int | Type::Long);
    if !scalar {
        return Err(CompileError::Internal);
    }
    let cur_init: InitialValue = match &init {
        Some(e) => to_static_init(&var_type, &name, e)?,
        None => {
            if matches!(storage_class, Some(StorageClass::Extern)) {
                InitialValue::NoInitializer
            } else {
                InitialValue::Tentative
            }
        },
    };
    let current_global = !matches!(storage_class, Some(StorageClass::Static));
    let (global, merged_init): (bool, InitialValue) = match table.get_opt(&name) {
        None => (current_global, cur_init),
        Some(old_entry) => {
            if !type_eq(&old_entry.t, &var_type) {
                return Err(CompileError::ConflictingDeclaration(name));
            }
            match old_entry.attrs {
                IdentifierAttrs::StaticAttr { init: prev_init, global: prev_global } => {
                    let g: bool = if matches!(storage_class, Some(StorageClass::Extern)) {
                        prev_global
                    } else if current_global == prev_global {
                        current_global
                    } else {
                        return Err(CompileError::ConflictingDeclaration(name));
                    };
                    let iv: InitialValue = match (prev_init, cur_init) {
                        (InitialValue::Initial(_), InitialValue::Initial(_)) => {
                            return Err(CompileError::DuplicateDefinition(name));
                        },
                        (InitialValue::Initial(_), _) => prev_init,
                        (InitialValue::Tentative, InitialValue::Tentative) => {
                            InitialValue::Tentative
                        },
                        (InitialValue::Tentative, InitialValue::NoInitializer) => {
                            InitialValue::Tentative
                        },
                        (_, InitialValue::Initial(_)) => cur_init,
                        (InitialValue::NoInitializer, _) => cur_init,
                    };
                    (g, iv)
                },
                _ => {
                    return Err(CompileError::ConflictingDeclaration(name));
                },
            }
        },
    };
    let t1 = var_type.clone();
    let n1 = name.clone();
    table.add_static_var(n1, t1, global, merged_init);
    Ok(VariableDeclaration { name, var_type, init: None, storage_class })
}

/// Types one file-scope declaration.
pub fn typecheck_global_decl(table: &mut SymbolTable, d: Declaration<UnTypedExp>) -> (r: Result<
    Declaration<TypedExp>,
    CompileError,
>)
    ensures
        match r {
            Ok(out) => spec_typecheck_global_decl(old(table)@, d@) == Ok::<
                (SymTableV, DeclarationV<TypedExpV>),
                CompileErrorV,
            >((final(table)@, out@)),
            Err(e) => spec_typecheck_global_decl(old(table)@, d@) == Err::<
                (SymTableV, DeclarationV<TypedExpV>),
                CompileErrorV,
            >(e@),
        },
{
    match d {
        Declaration::FunDecl(fd) => {
            let tfd = typecheck_fn_decl(table, fd)?;
            Ok(Declaration::FunDecl(tfd))
        },
        Declaration::VarDecl(vd) => {
            let tvd = typecheck_file_scope_var_decl(table, vd)?;
            Ok(Declaration::VarDecl(tvd))
        },
    }
}

/// Types a whole program, populating the symbol table.
#[verifier::rlimit(100)]
#[verifier::spinoff_prover]
pub fn typecheck(table: &mut SymbolTable, program: UntypedProgType) -> (r: Result<
    TypedProgType,
    CompileError,
>)
    ensures
        match r {
            Ok(out) => spec_typecheck(old(table)@, program@) == Ok::<
                (SymTableV, ProgTypeV<TypedExpV>),
                CompileErrorV,
            >((final(table)@, out@)),
            Err(e) => spec_typecheck(old(table)@, program@) == Err::<
                (SymTableV, ProgTypeV<TypedExpV>),
                CompileErrorV,
            >(e@),
        },
{
    match program {
        ProgType::Program(decls) => {
            let ghost v0 = decls;
            let ghost all = declaration_views(decls@);
            let ghost t0 = table@;
            let mut out: Vec<Declaration<TypedExp>> = Vec::new();
            let mut rest = decls;
            let n0 = rest.len();
            proof {
                lemma_declaration_views(rest@);
                lemma_declaration_views(out@);
                assert(v0@.len() == n0);
                assert(all.subrange(0, 0) =~= Seq::<DeclarationV<UnTypedExpV>>::empty());
                assert(declaration_views(out@) =~= Seq::<DeclarationV<TypedExpV>>::empty());
            }
            let mut i: usize = 0;
            while rest.len() > 0
                invariant
                    v0@.len() <= usize::MAX,
                    i + rest@.len() == v0@.len(),
                    rest@ == v0@.subrange(i as int, v0@.len() as int),
                    all == declaration_views(v0@),
                    all.len() == v0@.len(),
                    forall|j: int| 0 <= j < all.len() ==> all[j] == v0@[j]@,
                    spec_typecheck_decls(t0, all.subrange(0, i as int)) == Ok::<
                        (SymTableV, Seq<DeclarationV<TypedExpV>>),
                        CompileErrorV,
                    >((table@, declaration_views(out@))),
                decreases rest@.len(),
            {
                let d = rest.remove(0);
                proof {
                    assert(d == v0@[i as int]);
                    assert(rest@ =~= v0@.subrange(i + 1, v0@.len() as int));
                    assert(all.subrange(0, i + 1).drop_last() =~= all.subrange(0, i as int));
                    assert(all.subrange(0, i + 1).last() == v0@[i as int]@);
                }
                let d1 = match typecheck_global_decl(table, d) {
                    Ok(d1) => d1,
                    Err(e) => {
                        proof {
                            lemma_typecheck_decls_err(t0, all, i + 1);
                        }
                        return Err(e);
                    },
                };
                let ghost before = out@;
                out.push(d1);
                proof {
                    lemma_declaration_views(out@);
                    lemma_declaration_views(before);
                    assert(declaration_views(out@) =~= declaration_views(before).push(
                        out@[out@.len() - 1]@,
                    ));
                }
                i += 1;
            }
            proof {
                assert(all.subrange(0, v0@.len() as int) =~= all);
            }
            Ok(ProgType::Program(out))
        },
    }
}

/// Every variable of a type-checked expression is bound in the table it
/// was checked against.
#[verifier::rlimit(100)]
#[verifier::spinoff_prover]
pub proof fn lemma_typecheck_exp_vars(table: SymTableV, e: UnTypedExpV)
    ensures
        spec_typecheck_exp(table, e) matches Ok(te) ==> crate::ir_gen::exp_vars_bound(te, table),
    decreases e, 1int,
{
    if spec_typecheck_exp(table, e) is Ok {
        match e {
            UnTypedExpV::Constant(_) => {},
            UnTypedExpV::Var(_) => {},
            UnTypedExpV::Cast { target_type: _, e: inner } => {
                lemma_typecheck_exp_vars(table, *inner);
            },
            UnTypedExpV::Unary(_, inner) => {
                lemma_typecheck_exp_vars(table, *inner);
            },
            UnTypedExpV::Binary(_, e1, e2) => {
                lemma_typecheck_exp_vars(table, *e1);
                lemma_typecheck_exp_vars(table, *e2);
                match (spec_typecheck_exp(table, *e1), spec_typecheck_exp(table, *e2)) {
                    (Ok(te1), Ok(te2)) => {
                        let common = spec_common_type(te1.t, te2.t);
                        assert(crate::ir_gen::exp_vars_bound(spec_convert_to(te1, common), table));
                        assert(crate::ir_gen::exp_vars_bound(spec_convert_to(te2, common), table));
                    },
                    _ => {},
                }
            },
            UnTypedExpV::Assignment(lhs, rhs) => {
                lemma_typecheck_exp_vars(table, *lhs);
                lemma_typecheck_exp_vars(table, *rhs);
                match (spec_typecheck_exp(table, *lhs), spec_typecheck_exp(table, *rhs)) {
                    (Ok(tl), Ok(tr)) => {
                        assert(crate::ir_gen::exp_vars_bound(spec_convert_to(tr, tl.t), table));
                    },
                    _ => {},
                }
            },
            UnTypedExpV::Conditional { condition, then_result, else_result } => {
                lemma_typecheck_exp_vars(table, *condition);
                lemma_typecheck_exp_vars(table, *then_result);
                lemma_typecheck_exp_vars(table, *else_result);
                match (spec_typecheck_exp(table, *then_result), spec_typecheck_exp(
                    table,
                    *else_result,
                )) {
                    (Ok(tt), Ok(te2)) => {
                        let common = spec_common_type(tt.t, te2.t);
                        assert(crate::ir_gen::exp_vars_bound(spec_convert_to(tt, common), table));
                        assert(crate::ir_gen::exp_vars_bound(spec_convert_to(te2, common), table));
                    },
                    _ => {},
                }
            },
            UnTypedExpV::FunCall { f: _, args } => {
                match spec_get(table, e->FunCall_f) {
                    Some(en) => {
                        match en.t {
                            TypeV::FunType { param_types, ret_type: _ } => {
                                lemma_typecheck_args_vars(table, args, param_types);
                            },
                            _ => {},
                        }
                    },
                    None => {},
                }
            },
        }
    }
}

/// Every variable of a type-checked argument list is bound.
proof fn lemma_typecheck_args_vars(table: SymTableV, args: Seq<UnTypedExpV>, param_types: Seq<TypeV>)
    ensures
        spec_typecheck_args(table, args, param_types) matches Ok(cargs)
            ==> crate::ir_gen::exps_vars_bound(cargs, table),
    decreases args, 0int,
{
    if args.len() > 0 && spec_typecheck_args(table, args, param_types) is Ok {
        lemma_typecheck_args_vars(table, args.drop_last(), param_types.drop_last());
        lemma_typecheck_exp_vars(table, args.last());
        match spec_typecheck_args(table, args.drop_last(), param_types.drop_last()) {
            Ok(done) => {
                let cargs = spec_typecheck_args(table, args, param_types)->Ok_0;
                assert(cargs.drop_last() =~= done);
                match spec_typecheck_exp(table, args.last()) {
                    Ok(ta) => {
                        assert(crate::ir_gen::exp_vars_bound(
                            spec_convert_to(ta, param_types.last()),
                            table,
                        ));
                    },
                    _ => {},
                }
            },
            _ => {},
        }
    }
}

/// A type-checked local declaration leaves every prior binding in place,
/// binds its own name, and every variable it mentions.
proof fn lemma_typecheck_local_var_decl_vars(
    table: SymTableV,
    vd: VariableDeclarationV<UnTypedExpV>,
)
    ensures
        spec_typecheck_local_var_decl(table, vd) matches Ok((t1, tvd))
            ==> crate::ir_gen::table_extends(table, t1) && crate::ir_gen::decl_vars_bound(
            tvd,
            t1,
        ),
{
    if spec_typecheck_local_var_decl(table, vd) is Ok {
        match vd.storage_class {
            Some(StorageClass::Extern) => {
                match spec_get(table, vd.name) {
                    Some(_) => {},
                    None => {
                        crate::ir_gen::lemma_insert_extends(
                            table,
                            vd.name,
                            EntryV {
                                t: vd.var_type,
                                attrs: IdentifierAttrs::StaticAttr {
                                    init: InitialValue::NoInitializer,
                                    global: true,
                                },
                            },
                        );
                    },
                }
            },
            Some(StorageClass::Static) => {
                match (match vd.init {
                    Some(e) => spec_to_static_init(vd.var_type, vd.name, e),
                    None => Ok::<InitialValue, CompileErrorV>(
                        InitialValue::Initial(spec_zero(vd.var_type)),
                    ),
                }) {
                    Ok(iv) => {
                        crate::ir_gen::lemma_insert_extends(
                            table,
                            vd.name,
                            EntryV {
                                t: vd.var_type,
                                attrs: IdentifierAttrs::StaticAttr { init: iv, global: false },
                            },
                        );
                    },
                    _ => {},
                }
            },
            None => {
                let t1 = crate::table::spec_insert(
                    table,
                    vd.name,
                    EntryV { t: vd.var_type, attrs: IdentifierAttrs::LocalAttr },
                );
                crate::ir_gen::lemma_insert_extends(
                    table,
                    vd.name,
                    EntryV { t: vd.var_type, attrs: IdentifierAttrs::LocalAttr },
                );
                match vd.init {
                    Some(e) => {
                        lemma_typecheck_exp_vars(t1, e);
                        match spec_typecheck_exp(t1, e) {
                            Ok(te) => {
                                assert(crate::ir_gen::exp_vars_bound(
                                    spec_convert_to(te, vd.var_type),
                                    t1,
                                ));
                            },
                            _ => {},
                        }
                    },
                    None => {},
                }
            },
        }
    }
}


/// The `if` arm of the statement variable lemma.
#[verifier::rlimit(100)]
#[verifier::spinoff_prover]
proof fn lemma_typecheck_stmt_vars_if(table: SymTableV, ret_type: TypeV, s: StatementV<UnTypedExpV>)
    requires
        s is If,
    ensures
        spec_typecheck_statement(table, ret_type, s) matches Ok((t1, ts))
            ==> crate::ir_gen::table_extends(table, t1) && crate::ir_gen::stmt_vars_bound(
            ts,
            t1,
        ),
    decreases s, 0int,
{
    if spec_typecheck_statement(table, ret_type, s) is Ok {
        match s {
            StatementV::If { condition, then_clause, else_clause } => {
                lemma_typecheck_exp_vars(table, condition);
                lemma_typecheck_statement_vars(table, ret_type, *then_clause);
                match spec_typecheck_statement(table, ret_type, *then_clause) {
                    Ok((t1, tt)) => {
                        match spec_typecheck_exp(table, condition) {
                            Ok(tc) => {
                                crate::ir_gen::lemma_exp_vars_bound_monotone(tc, table, t1);
                                match else_clause {
                                    Some(els) => {
                                        lemma_typecheck_statement_vars(t1, ret_type, *els);
                                        match spec_typecheck_statement(t1, ret_type, *els) {
                                            Ok((t2, te)) => {
                                                crate::ir_gen::lemma_extends_trans(
                                                    table,
                                                    t1,
                                                    t2,
                                                );
                                                crate::ir_gen::lemma_exp_vars_bound_monotone(
                                                    tc,
                                                    t1,
                                                    t2,
                                                );
                                                crate::ir_gen::lemma_stmt_vars_bound_monotone(
                                                    tt,
                                                    t1,
                                                    t2,
                                                );
                                            },
                                            _ => {},
                                        }
                                    },
                                    None => {},
                                }
                            },
                            _ => {},
                        }
                    },
                    _ => {},
                }
            
            },
            _ => {},
        }
    }
}


/// The `for` arm of the statement variable lemma.
#[verifier::rlimit(100)]
#[verifier::spinoff_prover]
proof fn lemma_typecheck_stmt_vars_for(table: SymTableV, ret_type: TypeV, s: StatementV<UnTypedExpV>)
    requires
        s is For,
    ensures
        spec_typecheck_statement(table, ret_type, s) matches Ok((t1, ts))
            ==> crate::ir_gen::table_extends(table, t1) && crate::ir_gen::stmt_vars_bound(
            ts,
            t1,
        ),
    decreases s, 0int,
{
    if spec_typecheck_statement(table, ret_type, s) is Ok {
        match s {
            StatementV::For { init, condition, post, body, id: _ } => {
                let init_check: Result<
                    (SymTableV, ForInitV<TypedExpV>),
                    CompileErrorV,
                > = match init {
                    ForInitV::InitDecl(vd) => {
                        if vd.storage_class is Some {
                            Err(CompileErrorV::StorageClassInForInit(vd.name))
                        } else {
                            match spec_typecheck_local_var_decl(table, vd) {
                                Err(err) => Err(err),
                                Ok((table1, tvd)) => Ok((table1, ForInitV::InitDecl(tvd))),
                            }
                        }
                    },
                    ForInitV::InitExp(None) => Ok((table, ForInitV::InitExp(None))),
                    ForInitV::InitExp(Some(e)) => match spec_typecheck_exp(table, e) {
                        Err(err) => Err(err),
                        Ok(te) => Ok((table, ForInitV::InitExp(Some(te)))),
                    },
                };
                match init {
                    ForInitV::InitDecl(vd) => {
                        lemma_typecheck_local_var_decl_vars(table, vd);
                    },
                    ForInitV::InitExp(Some(e)) => {
                        lemma_typecheck_exp_vars(table, e);
                    },
                    ForInitV::InitExp(None) => {},
                }
                match init_check {
                    Ok((t1, tinit)) => {
                        match condition {
                            Some(ce) => lemma_typecheck_exp_vars(t1, ce),
                            None => {},
                        }
                        match post {
                            Some(pe) => lemma_typecheck_exp_vars(t1, pe),
                            None => {},
                        }
                        lemma_typecheck_statement_vars(t1, ret_type, *body);
                        match spec_typecheck_statement(t1, ret_type, *body) {
                            Ok((t2, tb)) => {
                                crate::ir_gen::lemma_extends_trans(table, t1, t2);
                                match tinit {
                                    ForInitV::InitDecl(tvd) => {
                                        assert(spec_get(t2, tvd.name) is Some);
                                        match tvd.init {
                                            Some(te) => {
                                                crate::ir_gen::lemma_exp_vars_bound_monotone(
                                                    te,
                                                    t1,
                                                    t2,
                                                );
                                            },
                                            None => {},
                                        }
                                    },
                                    ForInitV::InitExp(Some(te)) => {
                                        crate::ir_gen::lemma_exp_vars_bound_monotone(te, t1, t2);
                                    },
                                    ForInitV::InitExp(None) => {},
                                }
                                match condition {
                                    Some(ce) => {
                                        match spec_typecheck_exp(t1, ce) {
                                            Ok(tc) => {
                                                crate::ir_gen::lemma_exp_vars_bound_monotone(
                                                    tc,
                                                    t1,
                                                    t2,
                                                );
                                            },
                                            _ => {},
                                        }
                                    },
                                    None => {},
                                }
                                match post {
                                    Some(pe) => {
                                        match spec_typecheck_exp(t1, pe) {
                                            Ok(tp) => {
                                                crate::ir_gen::lemma_exp_vars_bound_monotone(
                                                    tp,
                                                    t1,
                                                    t2,
                                                );
                                            },
                                            _ => {},
                                        }
                                    },
                                    None => {},
                                }
                            },
                            _ => {},
                        }
                    },
                    _ => {},
                }
            
            },
            _ => {},
        }
    }
}


/// The return and expression arms of the statement variable lemma.
#[verifier::rlimit(100)]
#[verifier::spinoff_prover]
proof fn lemma_typecheck_stmt_vars_exp(table: SymTableV, ret_type: TypeV, s: StatementV<UnTypedExpV>)
    requires
        s is Return || s is Expression,
    ensures
        spec_typecheck_statement(table, ret_type, s) matches Ok((t1, ts))
            ==> crate::ir_gen::table_extends(table, t1) && crate::ir_gen::stmt_vars_bound(
            ts,
            t1,
        ),
    decreases s, 0int,
{
    if spec_typecheck_statement(table, ret_type, s) is Ok {
        match s {
            StatementV::Return(e) => {
                lemma_typecheck_exp_vars(table, e);
                match spec_typecheck_exp(table, e) {
                    Ok(te) => {
                        assert(crate::ir_gen::exp_vars_bound(
                            spec_convert_to(te, ret_type),
                            table,
                        ));
                    },
                    _ => {},
                }
            },
            StatementV::Expression(e) => {
                lemma_typecheck_exp_vars(table, e);
            },
            _ => {},
        }
    }
}

/// The loop and block arms of the statement variable lemma.
#[verifier::rlimit(100)]
#[verifier::spinoff_prover]
proof fn lemma_typecheck_stmt_vars_rest(table: SymTableV, ret_type: TypeV, s: StatementV<UnTypedExpV>)
    requires
        s is While || s is DoWhile || s is Compound,
    ensures
        spec_typecheck_statement(table, ret_type, s) matches Ok((t1, ts))
            ==> crate::ir_gen::table_extends(table, t1) && crate::ir_gen::stmt_vars_bound(
            ts,
            t1,
        ),
    decreases s, 0int,
{
    if spec_typecheck_statement(table, ret_type, s) is Ok {
        match s {
            StatementV::Compound(b) => {
                match b {
                    BlockV::Block(items) => {
                        lemma_typecheck_items_vars(table, ret_type, items);
                        match spec_typecheck_items(table, ret_type, items) {
                            Ok((t1x, titems)) => {
                                assert(crate::ir_gen::table_extends(table, t1x));
                                assert(crate::ir_gen::stmt_vars_bound(
                                    StatementV::Compound(BlockV::Block(titems)),
                                    t1x,
                                ));
                                assert(spec_typecheck_block(table, ret_type, b) == Ok::<
                                    (SymTableV, BlockV<TypedExpV>),
                                    CompileErrorV,
                                >((t1x, BlockV::Block(titems))));
                                assert(spec_typecheck_statement(table, ret_type, s) == Ok::<
                                    (SymTableV, StatementV<TypedExpV>),
                                    CompileErrorV,
                                >((t1x, StatementV::Compound(BlockV::Block(titems)))));
                            },
                            _ => {},
                        }
                    },
                }
            },
            StatementV::While { condition, body, id: _ } => {
                lemma_typecheck_exp_vars(table, condition);
                lemma_typecheck_statement_vars(table, ret_type, *body);
                match spec_typecheck_statement(table, ret_type, *body) {
                    Ok((t1, tb)) => {
                        match spec_typecheck_exp(table, condition) {
                            Ok(tc) => {
                                crate::ir_gen::lemma_exp_vars_bound_monotone(tc, table, t1);
                                assert(crate::ir_gen::table_extends(table, t1));
                                assert(crate::ir_gen::stmt_vars_bound(
                                    StatementV::While {
                                        condition: tc,
                                        body: Box::new(tb),
                                        id: s->While_id,
                                    },
                                    t1,
                                ));
                                assert(spec_typecheck_statement(table, ret_type, s) == Ok::<
                                    (SymTableV, StatementV<TypedExpV>),
                                    CompileErrorV,
                                >(
                                    (
                                        t1,
                                        StatementV::While {
                                            condition: tc,
                                            body: Box::new(tb),
                                            id: s->While_id,
                                        },
                                    ),
                                ));
                            },
                            _ => {},
                        }
                    },
                    _ => {},
                }
            },
            StatementV::DoWhile { body, condition, id: _ } => {
                lemma_typecheck_statement_vars(table, ret_type, *body);
                match spec_typecheck_statement(table, ret_type, *body) {
                    Ok((t1, tb)) => {
                        lemma_typecheck_exp_vars(t1, condition);
                        match spec_typecheck_exp(t1, condition) {
                            Ok(tc) => {
                                assert(crate::ir_gen::table_extends(table, t1));
                                assert(crate::ir_gen::stmt_vars_bound(
                                    StatementV::DoWhile {
                                        body: Box::new(tb),
                                        condition: tc,
                                        id: s->DoWhile_id,
                                    },
                                    t1,
                                ));
                                assert(spec_typecheck_statement(table, ret_type, s) == Ok::<
                                    (SymTableV, StatementV<TypedExpV>),
                                    CompileErrorV,
                                >(
                                    (
                                        t1,
                                        StatementV::DoWhile {
                                            body: Box::new(tb),
                                            condition: tc,
                                            id: s->DoWhile_id,
                                        },
                                    ),
                                ));
                            },
                            _ => {},
                        }
                    },
                    _ => {},
                }
            },
            _ => {},
        }
    }
}

/// A type-checked statement leaves every prior binding in place, and
/// every variable of the typed statement is bound in the table it
/// returns.
#[verifier::rlimit(100)]
#[verifier::spinoff_prover]
pub proof fn lemma_typecheck_statement_vars(
    table: SymTableV,
    ret_type: TypeV,
    s: StatementV<UnTypedExpV>,
)
    ensures
        spec_typecheck_statement(table, ret_type, s) matches Ok((t1, ts))
            ==> crate::ir_gen::table_extends(table, t1) && crate::ir_gen::stmt_vars_bound(
            ts,
            t1,
        ),
    decreases s, 1int,
{
    if spec_typecheck_statement(table, ret_type, s) is Ok {
        match s {
            StatementV::If { .. } => {
                lemma_typecheck_stmt_vars_if(table, ret_type, s);
            },
            StatementV::For { .. } => {
                lemma_typecheck_stmt_vars_for(table, ret_type, s);
            },
            StatementV::Return(_) => {
                lemma_typecheck_stmt_vars_exp(table, ret_type, s);
            },
            StatementV::Expression(_) => {
                lemma_typecheck_stmt_vars_exp(table, ret_type, s);
            },
            StatementV::Compound(_) => {
                lemma_typecheck_stmt_vars_rest(table, ret_type, s);
            },
            StatementV::While { .. } => {
                lemma_typecheck_stmt_vars_rest(table, ret_type, s);
            },
            StatementV::DoWhile { .. } => {
                lemma_typecheck_stmt_vars_rest(table, ret_type, s);
            },
            _ => {},
        }
    }
}
/// Type-checked block items leave prior bindings in place and every
/// variable of the typed items is bound in the final table.
#[verifier::rlimit(100)]
proof fn lemma_typecheck_items_vars(
    table: SymTableV,
    ret_type: TypeV,
    items: Seq<BlockItemV<UnTypedExpV>>,
)
    ensures
        spec_typecheck_items(table, ret_type, items) matches Ok((t1, titems))
            ==> crate::ir_gen::table_extends(table, t1) && crate::ir_gen::items_vars_bound(
            titems,
            t1,
        ),
    decreases items, 2int,
{
    if items.len() > 0 && spec_typecheck_items(table, ret_type, items) is Ok {
        lemma_typecheck_items_vars(table, ret_type, items.drop_last());
        match spec_typecheck_items(table, ret_type, items.drop_last()) {
            Ok((t1, done)) => {
                match items.last() {
                    BlockItemV::S(st) => {
                        lemma_typecheck_statement_vars(t1, ret_type, st);
                        match spec_typecheck_statement(t1, ret_type, st) {
                            Ok((t2, ts)) => {
                                crate::ir_gen::lemma_extends_trans(table, t1, t2);
                                crate::ir_gen::lemma_items_vars_bound_monotone(done, t1, t2);
                                let titems = spec_typecheck_items(
                                    table,
                                    ret_type,
                                    items,
                                )->Ok_0.1;
                                assert(titems.drop_last() =~= done);
                                assert(titems.last() == BlockItemV::<TypedExpV>::S(ts));
                            },
                            _ => {},
                        }
                    },
                    BlockItemV::D(d) => {
                        lemma_typecheck_local_decl_vars(t1, d);
                        match spec_typecheck_local_decl(t1, d) {
                            Ok((t2, td)) => {
                                crate::ir_gen::lemma_extends_trans(table, t1, t2);
                                crate::ir_gen::lemma_items_vars_bound_monotone(done, t1, t2);
                                let titems = spec_typecheck_items(
                                    table,
                                    ret_type,
                                    items,
                                )->Ok_0.1;
                                assert(titems.drop_last() =~= done);
                                assert(titems.last() == BlockItemV::<TypedExpV>::D(td));
                            },
                            _ => {},
                        }
                    },
                }
            },
            _ => {},
        }
    }
}

/// A type-checked block-scope declaration leaves prior bindings in place
/// and every variable of the typed declaration is bound.
proof fn lemma_typecheck_local_decl_vars(table: SymTableV, d: DeclarationV<UnTypedExpV>)
    ensures
        spec_typecheck_local_decl(table, d) matches Ok((t1, td))
            ==> crate::ir_gen::table_extends(table, t1) && (match td {
            DeclarationV::VarDecl(tvd) => crate::ir_gen::decl_vars_bound(tvd, t1),
            DeclarationV::FunDecl(tfd) => crate::ir_gen::fun_vars_bound(tfd, t1),
        }),
    decreases d, 1int,
{
    if spec_typecheck_local_decl(table, d) is Ok {
        match d {
            DeclarationV::VarDecl(vd) => {
                lemma_typecheck_local_var_decl_vars(table, vd);
            },
            DeclarationV::FunDecl(fd) => {
                lemma_typecheck_fn_decl_vars(table, fd);
            },
        }
    }
}

/// Adding parameters leaves prior bindings in place.
proof fn lemma_add_params_extends(table: SymTableV, params: Seq<Seq<char>>, param_types: Seq<TypeV>)
    ensures
        crate::ir_gen::table_extends(table, spec_add_params(table, params, param_types)),
    decreases params,
{
    if params.len() > 0 {
        lemma_add_params_extends(table, params.drop_last(), param_types.drop_last());
        crate::ir_gen::lemma_insert_extends(
            spec_add_params(table, params.drop_last(), param_types.drop_last()),
            params.last(),
            EntryV { t: param_types.last(), attrs: IdentifierAttrs::LocalAttr },
        );
    }
}

/// A type-checked function declaration leaves prior bindings in place
/// and every variable its typed body mentions is bound in the table it
/// returns.
#[verifier::rlimit(100)]
proof fn lemma_typecheck_fn_decl_vars(table: SymTableV, fd: FunctionDeclarationV<UnTypedExpV>)
    ensures
        spec_typecheck_fn_decl(table, fd) matches Ok((t1, tfd))
            ==> crate::ir_gen::table_extends(table, t1) && crate::ir_gen::fun_vars_bound(
            tfd,
            t1,
        ),
    decreases fd, 0int,
{
    if spec_typecheck_fn_decl(table, fd) is Ok {
        match fd.fun_type {
            TypeV::FunType { param_types, ret_type } => {
                match spec_get(table, fd.name) {
                    None => {},
                    Some(_) => {},
                }
                let has_body = fd.body is Some;
                let this_global = fd.storage_class != Some(StorageClass::Static);
                let prev: Result<(bool, bool), CompileErrorV> = match spec_get(table, fd.name) {
                    None => Ok((has_body, this_global)),
                    Some(old) => {
                        if old.t != fd.fun_type {
                            Err(CompileErrorV::ConflictingDeclaration(fd.name))
                        } else {
                            match old.attrs {
                                IdentifierAttrs::FunAttr {
                                    defined: prev_defined,
                                    global: prev_global,
                                    stack_frame_size: _,
                                } => {
                                    if prev_defined && has_body {
                                        Err(CompileErrorV::DuplicateDefinition(fd.name))
                                    } else if prev_global && fd.storage_class == Some(
                                        StorageClass::Static,
                                    ) {
                                        Err(CompileErrorV::ConflictingDeclaration(fd.name))
                                    } else {
                                        Ok((has_body || prev_defined, prev_global))
                                    }
                                },
                                _ => Err(CompileErrorV::ConflictingDeclaration(fd.name)),
                            }
                        }
                    },
                };
                match prev {
                    Ok((defined, global)) => {
                        let table1 = crate::table::spec_insert(
                            table,
                            fd.name,
                            EntryV {
                                t: fd.fun_type,
                                attrs: IdentifierAttrs::FunAttr {
                                    defined,
                                    global,
                                    stack_frame_size: 0,
                                },
                            },
                        );
                        crate::ir_gen::lemma_insert_extends(
                            table,
                            fd.name,
                            EntryV {
                                t: fd.fun_type,
                                attrs: IdentifierAttrs::FunAttr {
                                    defined,
                                    global,
                                    stack_frame_size: 0,
                                },
                            },
                        );
                        match fd.body {
                            Some(b) => {
                                let table2 = spec_add_params(table1, fd.params, param_types);
                                lemma_add_params_extends(table1, fd.params, param_types);
                                crate::ir_gen::lemma_extends_trans(table, table1, table2);
                                match b {
                                    BlockV::Block(items) => {
                                        lemma_typecheck_items_vars(table2, *ret_type, items);
                                        match spec_typecheck_block(table2, *ret_type, b) {
                                            Ok((t3, tb)) => {
                                                crate::ir_gen::lemma_extends_trans(
                                                    table,
                                                    table2,
                                                    t3,
                                                );
                                            },
                                            _ => {},
                                        }
                                    },
                                }
                            },
                            None => {},
                        }
                    },
                    _ => {},
                }
            },
            _ => {},
        }
    }
}

/// A whole type-checked program leaves prior bindings in place, and
/// every variable of every typed function body is bound in the symbol
/// table the checking returns: the invariant instruction lowering needs.
pub proof fn lemma_typecheck_vars(table: SymTableV, ds: Seq<DeclarationV<UnTypedExpV>>)
    ensures
        spec_typecheck_decls(table, ds) matches Ok((t1, tds))
            ==> crate::ir_gen::table_extends(table, t1) && crate::ir_gen::decls_vars_bound(
            tds,
            t1,
        ),
    decreases ds,
{
    if ds.len() > 0 && spec_typecheck_decls(table, ds) is Ok {
        lemma_typecheck_vars(table, ds.drop_last());
        match spec_typecheck_decls(table, ds.drop_last()) {
            Ok((t1, done)) => {
                match ds.last() {
                    DeclarationV::FunDecl(fd) => {
                        lemma_typecheck_fn_decl_vars(t1, fd);
                        match spec_typecheck_fn_decl(t1, fd) {
                            Ok((t2, tfd)) => {
                                crate::ir_gen::lemma_extends_trans(table, t1, t2);
                                lemma_decls_vars_bound_monotone(done, t1, t2);
                                let tds = spec_typecheck_decls(table, ds)->Ok_0.1;
                                assert(tds.drop_last() =~= done);
                                assert(tds.last() == DeclarationV::<TypedExpV>::FunDecl(tfd));
                            },
                            _ => {},
                        }
                    },
                    DeclarationV::VarDecl(vd) => {
                        match spec_typecheck_file_scope_var_decl(t1, vd) {
                            Ok((t2, tvd)) => {
                                assert(crate::ir_gen::table_extends(t1, t2)) by {
                                    lemma_file_scope_extends(t1, vd);
                                }
                                crate::ir_gen::lemma_extends_trans(table, t1, t2);
                                lemma_decls_vars_bound_monotone(done, t1, t2);
                                let tds = spec_typecheck_decls(table, ds)->Ok_0.1;
                                assert(tds.drop_last() =~= done);
                                assert(tds.last() == DeclarationV::<TypedExpV>::VarDecl(tvd));
                            },
                            _ => {},
                        }
                    },
                }
            },
            _ => {},
        }
    }
}

/// A file-scope declaration leaves prior bindings in place.
proof fn lemma_file_scope_extends(table: SymTableV, vd: VariableDeclarationV<UnTypedExpV>)
    ensures
        spec_typecheck_file_scope_var_decl(table, vd) matches Ok((t1, tvd))
            ==> crate::ir_gen::table_extends(table, t1),
{
    if spec_typecheck_file_scope_var_decl(table, vd) is Ok {
        let cur: Result<InitialValue, CompileErrorV> = match vd.init {
            Some(e) => spec_to_static_init(vd.var_type, vd.name, e),
            None => if vd.storage_class == Some(StorageClass::Extern) {
                Ok(InitialValue::NoInitializer)
            } else {
                Ok(InitialValue::Tentative)
            },
        };
        match cur {
            Ok(cur_init) => {
                let current_global = vd.storage_class != Some(StorageClass::Static);
                let merged: Result<(bool, InitialValue), CompileErrorV> = match spec_get(
                    table,
                    vd.name,
                ) {
                    None => Ok((current_global, cur_init)),
                    Some(old) => {
                        if old.t != vd.var_type {
                            Err(CompileErrorV::ConflictingDeclaration(vd.name))
                        } else {
                            match old.attrs {
                                IdentifierAttrs::StaticAttr {
                                    init: prev_init,
                                    global: prev_global,
                                } => {
                                    let global: Result<bool, CompileErrorV> = if vd.storage_class
                                        == Some(StorageClass::Extern) {
                                        Ok(prev_global)
                                    } else if current_global == prev_global {
                                        Ok(current_global)
                                    } else {
                                        Err(CompileErrorV::ConflictingDeclaration(vd.name))
                                    };
                                    match global {
                                        Err(err) => Err(err),
                                        Ok(g) => {
                                            match (prev_init, cur_init) {
                                                (
                                                    InitialValue::Initial(_),
                                                    InitialValue::Initial(_),
                                                ) => Err(
                                                    CompileErrorV::DuplicateDefinition(vd.name),
                                                ),
                                                (InitialValue::Initial(_), _) => Ok(
                                                    (g, prev_init),
                                                ),
                                                (
                                                    InitialValue::Tentative,
                                                    InitialValue::Tentative,
                                                ) => Ok((g, InitialValue::Tentative)),
                                                (
                                                    InitialValue::Tentative,
                                                    InitialValue::NoInitializer,
                                                ) => Ok((g, InitialValue::Tentative)),
                                                (_, InitialValue::Initial(_)) => Ok(
                                                    (g, cur_init),
                                                ),
                                                (InitialValue::NoInitializer, _) => Ok(
                                                    (g, cur_init),
                                                ),
                                            }
                                        },
                                    }
                                },
                                _ => Err(CompileErrorV::ConflictingDeclaration(vd.name)),
                            }
                        }
                    },
                };
                match merged {
                    Ok((g, init)) => {
                        crate::ir_gen::lemma_insert_extends(
                            table,
                            vd.name,
                            EntryV {
                                t: vd.var_type,
                                attrs: IdentifierAttrs::StaticAttr { init, global: g },
                            },
                        );
                    },
                    _ => {},
                }
            },
            _ => {},
        }
    }
}

/// Bound declarations stay bound in an extending table.
proof fn lemma_decls_vars_bound_monotone(
    ds: Seq<DeclarationV<TypedExpV>>,
    t1: SymTableV,
    t2: SymTableV,
)
    requires
        crate::ir_gen::decls_vars_bound(ds, t1),
        crate::ir_gen::table_extends(t1, t2),
    ensures
        crate::ir_gen::decls_vars_bound(ds, t2),
    decreases ds,
{
    if ds.len() > 0 {
        lemma_decls_vars_bound_monotone(ds.drop_last(), t1, t2);
        match ds.last() {
            DeclarationV::FunDecl(fd) => {
                crate::ir_gen::lemma_fun_vars_bound_monotone(fd, t1, t2);
            },
            DeclarationV::VarDecl(_) => {},
        }
    }
}


} // verus!
