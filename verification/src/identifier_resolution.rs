//! The pass that renames every local identifier to a unique name and
//! rejects conflicting declarations.

use crate::ast::{
    lemma_untyped_exp_views, untyped_exp_views, Block, BlockItem, BlockItemV, BlockV, Declaration,
    DeclarationV, ForInit, ForInitV, FunctionDeclaration, FunctionDeclarationV, ProgType,
    ProgTypeV, Statement, StatementV, StorageClass, UnTypedExp, UnTypedExpV, UntypedProgType,
    VariableDeclaration, VariableDeclarationV,
};
use crate::ast::{block_item_views, declaration_views, lemma_block_item_views,
    lemma_declaration_views};
use crate::errors::{CompileError, CompileErrorV};
use crate::table::{key_index, lemma_pair_views, map_find, map_insert, pair_views, spec_get,
    spec_insert};
use crate::text::{lemma_string_views, string_views};
use crate::unique_ids::{bump, label_name, Counter};
use vstd::prelude::*;

verus! {

/// What the resolver knows about a visible name.
#[derive(Debug)]
pub struct VarEntry {
    pub unique_name: String,
    pub from_current_scope: bool,
    pub has_linkage: bool,
}

/// The model of a resolver entry.
pub struct VarEntryV {
    pub unique_name: Seq<char>,
    pub from_current_scope: bool,
    pub has_linkage: bool,
}

impl View for VarEntry {
    type V = VarEntryV;

    open spec fn view(&self) -> VarEntryV {
        VarEntryV {
            unique_name: self.unique_name@,
            from_current_scope: self.from_current_scope,
            has_linkage: self.has_linkage,
        }
    }
}

/// The scope map from source names to resolver entries.
pub type IdMap = Vec<(String, VarEntry)>;

/// The model of the scope map.
pub type IdMapV = Seq<(Seq<char>, VarEntryV)>;

/// The map a nested scope starts from: the same entries, no longer
/// marked as declared in the current scope.
pub open spec fn spec_copy_map(m: IdMapV) -> IdMapV {
    m.map_values(
        |p: (Seq<char>, VarEntryV)|
            (
                p.0,
                VarEntryV {
                    unique_name: p.1.unique_name,
                    from_current_scope: false,
                    has_linkage: p.1.has_linkage,
                },
            ),
    )
}

/// The resolution of one expression: every name is replaced by the
/// unique name its visible declaration received; an unbound name and an
/// assignment to a non-name are errors.
pub open spec fn spec_resolve_exp(m: IdMapV, e: UnTypedExpV) -> Result<
    UnTypedExpV,
    CompileErrorV,
>
    decreases e,
{
    match e {
        UnTypedExpV::Assignment(left, right) => {
            if !(*left is Var) {
                Err(CompileErrorV::InvalidLValue)
            } else {
                match spec_resolve_exp(m, *left) {
                    Err(err) => Err(err),
                    Ok(l1) => match spec_resolve_exp(m, *right) {
                        Err(err) => Err(err),
                        Ok(r1) => Ok(UnTypedExpV::Assignment(Box::new(l1), Box::new(r1))),
                    },
                }
            }
        },
        UnTypedExpV::Var(v) => {
            match spec_get(m, v) {
                Some(en) => Ok(UnTypedExpV::Var(en.unique_name)),
                None => Err(CompileErrorV::UndeclaredIdentifier(v)),
            }
        },
        UnTypedExpV::Cast { target_type, e } => {
            match spec_resolve_exp(m, *e) {
                Err(err) => Err(err),
                Ok(e1) => Ok(UnTypedExpV::Cast { target_type, e: Box::new(e1) }),
            }
        },
        UnTypedExpV::Unary(op, inner) => {
            match spec_resolve_exp(m, *inner) {
                Err(err) => Err(err),
                Ok(e1) => Ok(UnTypedExpV::Unary(op, Box::new(e1))),
            }
        },
        UnTypedExpV::Binary(op, e1, e2) => {
            match spec_resolve_exp(m, *e1) {
                Err(err) => Err(err),
                Ok(a) => match spec_resolve_exp(m, *e2) {
                    Err(err) => Err(err),
                    Ok(b) => Ok(UnTypedExpV::Binary(op, Box::new(a), Box::new(b))),
                },
            }
        },
        UnTypedExpV::Conditional { condition, then_result, else_result } => {
            match spec_resolve_exp(m, *condition) {
                Err(err) => Err(err),
                Ok(c) => match spec_resolve_exp(m, *then_result) {
                    Err(err) => Err(err),
                    Ok(t) => match spec_resolve_exp(m, *else_result) {
                        Err(err) => Err(err),
                        Ok(els) => Ok(
                            UnTypedExpV::Conditional {
                                condition: Box::new(c),
                                then_result: Box::new(t),
                                else_result: Box::new(els),
                            },
                        ),
                    },
                },
            }
        },
        UnTypedExpV::FunCall { f, args } => {
            match spec_get(m, f) {
                Some(en) => {
                    match spec_resolve_exps(m, args) {
                        Err(err) => Err(err),
                        Ok(args1) => Ok(
                            UnTypedExpV::FunCall { f: en.unique_name, args: args1 },
                        ),
                    }
                },
                None => Err(CompileErrorV::UndeclaredIdentifier(f)),
            }
        },
        c => Ok(c),
    }
}

/// The resolution of an expression sequence, in order.
pub open spec fn spec_resolve_exps(m: IdMapV, es: Seq<UnTypedExpV>) -> Result<
    Seq<UnTypedExpV>,
    CompileErrorV,
>
    decreases es,
{
    if es.len() == 0 {
        Ok(Seq::empty())
    } else {
        match spec_resolve_exps(m, es.drop_last()) {
            Err(err) => Err(err),
            Ok(done) => match spec_resolve_exp(m, es.last()) {
                Err(err) => Err(err),
                Ok(e1) => Ok(done.push(e1)),
            },
        }
    }
}

/// The resolution of an optional expression.
pub open spec fn spec_resolve_optional_exp(m: IdMapV, e: Option<UnTypedExpV>) -> Result<
    Option<UnTypedExpV>,
    CompileErrorV,
> {
    match e {
        Some(e) => match spec_resolve_exp(m, e) {
            Err(err) => Err(err),
            Ok(e1) => Ok(Some(e1)),
        },
        None => Ok(None),
    }
}

/// The declaration of one local name: a second declaration in the same
/// scope is an error unless both have linkage; an `extern` declaration
/// keeps the source name and its linkage, any other mints a fresh name.
pub open spec fn spec_resolve_local_var_helper(
    m: IdMapV,
    name: Seq<char>,
    storage_class: Option<StorageClass>,
    c: nat,
) -> Result<(IdMapV, Seq<char>, nat), CompileErrorV> {
    let dup = match spec_get(m, name) {
        Some(en) => en.from_current_scope && !(en.has_linkage && storage_class == Some(
            StorageClass::Extern,
        )),
        None => false,
    };
    if dup {
        Err(CompileErrorV::DuplicateDeclaration(name))
    } else if storage_class == Some(StorageClass::Extern) {
        let entry = VarEntryV { unique_name: name, from_current_scope: true, has_linkage: true };
        Ok((spec_insert(m, name, entry), name, c))
    } else {
        let unique_name = label_name(name, c);
        let entry = VarEntryV {
            unique_name,
            from_current_scope: true,
            has_linkage: false,
        };
        Ok((spec_insert(m, name, entry), unique_name, bump(c)))
    }
}

/// The resolution of a local variable declaration.
pub open spec fn spec_resolve_local_var_declaration(
    m: IdMapV,
    vd: VariableDeclarationV<UnTypedExpV>,
    c: nat,
) -> Result<(IdMapV, VariableDeclarationV<UnTypedExpV>, nat), CompileErrorV> {
    match spec_resolve_local_var_helper(m, vd.name, vd.storage_class, c) {
        Err(err) => Err(err),
        Ok((m1, unique_name, c1)) => {
            match spec_resolve_optional_exp(m1, vd.init) {
                Err(err) => Err(err),
                Ok(init1) => Ok(
                    (
                        m1,
                        VariableDeclarationV {
                            name: unique_name,
                            var_type: vd.var_type,
                            init: init1,
                            storage_class: vd.storage_class,
                        },
                        c1,
                    ),
                ),
            }
        },
    }
}

/// The resolution of a `for` initializer.
pub open spec fn spec_resolve_for_init(
    m: IdMapV,
    init: ForInitV<UnTypedExpV>,
    c: nat,
) -> Result<(IdMapV, ForInitV<UnTypedExpV>, nat), CompileErrorV> {
    match init {
        ForInitV::InitExp(e) => {
            match spec_resolve_optional_exp(m, e) {
                Err(err) => Err(err),
                Ok(e1) => Ok((m, ForInitV::InitExp(e1), c)),
            }
        },
        ForInitV::InitDecl(d) => {
            match spec_resolve_local_var_declaration(m, d, c) {
                Err(err) => Err(err),
                Ok((m1, d1, c1)) => Ok((m1, ForInitV::InitDecl(d1), c1)),
            }
        },
    }
}

/// The resolution of one statement.
pub open spec fn spec_resolve_statement(
    m: IdMapV,
    s: StatementV<UnTypedExpV>,
    c: nat,
) -> Result<(StatementV<UnTypedExpV>, nat), CompileErrorV>
    decreases s,
{
    match s {
        StatementV::Return(e) => {
            match spec_resolve_exp(m, e) {
                Err(err) => Err(err),
                Ok(e1) => Ok((StatementV::Return(e1), c)),
            }
        },
        StatementV::Expression(e) => {
            match spec_resolve_exp(m, e) {
                Err(err) => Err(err),
                Ok(e1) => Ok((StatementV::Expression(e1), c)),
            }
        },
        StatementV::While { condition, body, id } => {
            match spec_resolve_exp(m, condition) {
                Err(err) => Err(err),
                Ok(c1) => match spec_resolve_statement(m, *body, c) {
                    Err(err) => Err(err),
                    Ok((b1, cc)) => Ok(
                        (StatementV::While { condition: c1, body: Box::new(b1), id }, cc),
                    ),
                },
            }
        },
        StatementV::DoWhile { body, condition, id } => {
            match spec_resolve_statement(m, *body, c) {
                Err(err) => Err(err),
                Ok((b1, cc)) => match spec_resolve_exp(m, condition) {
                    Err(err) => Err(err),
                    Ok(c1) => Ok(
                        (StatementV::DoWhile { body: Box::new(b1), condition: c1, id }, cc),
                    ),
                },
            }
        },
        StatementV::For { init, condition, post, body, id } => {
            let m1 = spec_copy_map(m);
            match spec_resolve_for_init(m1, init, c) {
                Err(err) => Err(err),
                Ok((m2, init1, c1)) => match spec_resolve_optional_exp(m2, condition) {
                    Err(err) => Err(err),
                    Ok(cond1) => match spec_resolve_optional_exp(m2, post) {
                        Err(err) => Err(err),
                        Ok(post1) => match spec_resolve_statement(m2, *body, c1) {
                            Err(err) => Err(err),
                            Ok((b1, c2)) => Ok(
                                (
                                    StatementV::For {
                                        init: init1,
                                        condition: cond1,
                                        post: post1,
                                        body: Box::new(b1),
                                        id,
                                    },
                                    c2,
                                ),
                            ),
                        },
                    },
                },
            }
        },
        StatementV::If { condition, then_clause, else_clause } => {
            match spec_resolve_exp(m, condition) {
                Err(err) => Err(err),
                Ok(c1) => match spec_resolve_statement(m, *then_clause, c) {
                    Err(err) => Err(err),
                    Ok((t1, cc1)) => match else_clause {
                        None => Ok(
                            (
                                StatementV::If {
                                    condition: c1,
                                    then_clause: Box::new(t1),
                                    else_clause: None,
                                },
                                cc1,
                            ),
                        ),
                        Some(els) => match spec_resolve_statement(m, *els, cc1) {
                            Err(err) => Err(err),
                            Ok((e1, cc2)) => Ok(
                                (
                                    StatementV::If {
                                        condition: c1,
                                        then_clause: Box::new(t1),
                                        else_clause: Some(Box::new(e1)),
                                    },
                                    cc2,
                                ),
                            ),
                        },
                    },
                },
            }
        },
        StatementV::Compound(block) => {
            let m1 = spec_copy_map(m);
            match spec_resolve_block(m1, block, c) {
                Err(err) => Err(err),
                Ok((b1, c1)) => Ok((StatementV::Compound(b1), c1)),
            }
        },
        other => Ok((other, c)),
    }
}

/// The resolution of the items of a block, threading the scope map.
pub open spec fn spec_resolve_block_items(
    m: IdMapV,
    items: Seq<BlockItemV<UnTypedExpV>>,
    c: nat,
) -> Result<(IdMapV, Seq<BlockItemV<UnTypedExpV>>, nat), CompileErrorV>
    decreases items,
{
    if items.len() == 0 {
        Ok((m, Seq::empty(), c))
    } else {
        match spec_resolve_block_items(m, items.drop_last(), c) {
            Err(err) => Err(err),
            Ok((m1, done, c1)) => match items.last() {
                BlockItemV::S(s) => match spec_resolve_statement(m1, s, c1) {
                    Err(err) => Err(err),
                    Ok((s1, c2)) => Ok((m1, done.push(BlockItemV::S(s1)), c2)),
                },
                BlockItemV::D(d) => match spec_resolve_local_declaration(m1, d, c1) {
                    Err(err) => Err(err),
                    Ok((m2, d1, c2)) => Ok((m2, done.push(BlockItemV::D(d1)), c2)),
                },
            },
        }
    }
}

/// The resolution of a block.
pub open spec fn spec_resolve_block(m: IdMapV, b: BlockV<UnTypedExpV>, c: nat) -> Result<
    (BlockV<UnTypedExpV>, nat),
    CompileErrorV,
>
    decreases b,
{
    match b {
        BlockV::Block(items) => match spec_resolve_block_items(m, items, c) {
            Err(err) => Err(err),
            Ok((_, items1, c1)) => Ok((BlockV::Block(items1), c1)),
        },
    }
}

/// The resolution of a block-scope declaration: a nested function
/// definition and a `static` local function declaration are errors.
pub open spec fn spec_resolve_local_declaration(
    m: IdMapV,
    d: DeclarationV<UnTypedExpV>,
    c: nat,
) -> Result<(IdMapV, DeclarationV<UnTypedExpV>, nat), CompileErrorV>
    decreases d,
{
    match d {
        DeclarationV::VarDecl(vd) => {
            match spec_resolve_local_var_declaration(m, vd, c) {
                Err(err) => Err(err),
                Ok((m1, vd1, c1)) => Ok((m1, DeclarationV::VarDecl(vd1), c1)),
            }
        },
        DeclarationV::FunDecl(fd) => {
            if fd.body is Some {
                Err(CompileErrorV::NestedFunctionDefinition(fd.name))
            } else if fd.storage_class == Some(StorageClass::Static) {
                Err(CompileErrorV::StaticLocalFunction(fd.name))
            } else {
                match spec_resolve_function_declaration(m, fd, c) {
                    Err(err) => Err(err),
                    Ok((m1, fd1, c1)) => Ok((m1, DeclarationV::FunDecl(fd1), c1)),
                }
            }
        },
    }
}

/// The declaration of each parameter as a fresh local, in order.
pub open spec fn spec_resolve_params(m: IdMapV, params: Seq<Seq<char>>, c: nat) -> Result<
    (IdMapV, Seq<Seq<char>>, nat),
    CompileErrorV,
>
    decreases params,
{
    if params.len() == 0 {
        Ok((m, Seq::empty(), c))
    } else {
        match spec_resolve_params(m, params.drop_last(), c) {
            Err(err) => Err(err),
            Ok((m1, done, c1)) => match spec_resolve_local_var_helper(
                m1,
                params.last(),
                None,
                c1,
            ) {
                Err(err) => Err(err),
                Ok((m2, unique, c2)) => Ok((m2, done.push(unique), c2)),
            },
        }
    }
}

/// The resolution of a function declaration: the name keeps itself as
/// its unique name and gains linkage; the parameters and body resolve in
/// a fresh inner scope.
pub open spec fn spec_resolve_function_declaration(
    m: IdMapV,
    fd: FunctionDeclarationV<UnTypedExpV>,
    c: nat,
) -> Result<(IdMapV, FunctionDeclarationV<UnTypedExpV>, nat), CompileErrorV>
    decreases fd,
{
    let dup = match spec_get(m, fd.name) {
        Some(en) => en.from_current_scope && !en.has_linkage,
        None => false,
    };
    if dup {
        Err(CompileErrorV::DuplicateDeclaration(fd.name))
    } else {
        let new_entry = VarEntryV {
            unique_name: fd.name,
            from_current_scope: true,
            has_linkage: true,
        };
        let m1 = spec_insert(m, fd.name, new_entry);
        let inner = spec_copy_map(m1);
        match spec_resolve_params(inner, fd.params, c) {
            Err(err) => Err(err),
            Ok((inner1, params1, c1)) => {
                match fd.body {
                    Some(b) => match spec_resolve_block(inner1, b, c1) {
                        Err(err) => Err(err),
                        Ok((b1, c2)) => Ok(
                            (
                                m1,
                                FunctionDeclarationV {
                                    name: fd.name,
                                    fun_type: fd.fun_type,
                                    params: params1,
                                    body: Some(b1),
                                    storage_class: fd.storage_class,
                                },
                                c2,
                            ),
                        ),
                    },
                    None => Ok(
                        (
                            m1,
                            FunctionDeclarationV {
                                name: fd.name,
                                fun_type: fd.fun_type,
                                params: params1,
                                body: None,
                                storage_class: fd.storage_class,
                            },
                            c1,
                        ),
                    ),
                }
            },
        }
    }
}

/// The resolution of a file-scope variable declaration: the declared
/// name is its own unique name and always has linkage.
pub open spec fn spec_resolve_file_scope_variable_declaration(
    m: IdMapV,
    vd: VariableDeclarationV<UnTypedExpV>,
) -> (IdMapV, VariableDeclarationV<UnTypedExpV>) {
    let entry = VarEntryV { unique_name: vd.name, from_current_scope: true, has_linkage: true };
    (spec_insert(m, vd.name, entry), vd)
}

/// The resolution of one file-scope declaration.
pub open spec fn spec_resolve_global_declaration(
    m: IdMapV,
    d: DeclarationV<UnTypedExpV>,
    c: nat,
) -> Result<(IdMapV, DeclarationV<UnTypedExpV>, nat), CompileErrorV> {
    match d {
        DeclarationV::FunDecl(fd) => {
            match spec_resolve_function_declaration(m, fd, c) {
                Err(err) => Err(err),
                Ok((m1, fd1, c1)) => Ok((m1, DeclarationV::FunDecl(fd1), c1)),
            }
        },
        DeclarationV::VarDecl(vd) => {
            let (m1, vd1) = spec_resolve_file_scope_variable_declaration(m, vd);
            Ok((m1, DeclarationV::VarDecl(vd1), c))
        },
    }
}

/// The resolution of a whole program's declarations, in order.
pub open spec fn spec_resolve_decls(m: IdMapV, ds: Seq<DeclarationV<UnTypedExpV>>, c: nat) -> Result<
    (IdMapV, Seq<DeclarationV<UnTypedExpV>>, nat),
    CompileErrorV,
>
    decreases ds,
{
    if ds.len() == 0 {
        Ok((m, Seq::empty(), c))
    } else {
        match spec_resolve_decls(m, ds.drop_last(), c) {
            Err(err) => Err(err),
            Ok((m1, done, c1)) => match spec_resolve_global_declaration(m1, ds.last(), c1) {
                Err(err) => Err(err),
                Ok((m2, d1, c2)) => Ok((m2, done.push(d1), c2)),
            },
        }
    }
}

/// The resolution of a whole program, from an empty scope.
pub open spec fn spec_resolve(p: ProgTypeV<UnTypedExpV>, c: nat) -> Result<
    (ProgTypeV<UnTypedExpV>, nat),
    CompileErrorV,
> {
    match p {
        ProgTypeV::Program(ds) => {
            match spec_resolve_decls(Seq::empty(), ds, c) {
                Err(err) => Err(err),
                Ok((_, ds1, c1)) => Ok((ProgTypeV::Program(ds1), c1)),
            }
        },
    }
}

/// Once a prefix fails, the expression list fails the same way.
proof fn lemma_resolve_exps_err(m: IdMapV, es: Seq<UnTypedExpV>, i: int)
    requires
        0 <= i <= es.len(),
        spec_resolve_exps(m, es.subrange(0, i)) is Err,
    ensures
        spec_resolve_exps(m, es) == spec_resolve_exps(m, es.subrange(0, i)),
    decreases es.len() - i,
{
    if i < es.len() {
        assert(es.subrange(0, i + 1).drop_last() =~= es.subrange(0, i));
        lemma_resolve_exps_err(m, es, i + 1);
    } else {
        assert(es.subrange(0, i) =~= es);
    }
}

/// Once a prefix fails, the block fails the same way.
proof fn lemma_resolve_block_items_err(m: IdMapV, items: Seq<BlockItemV<UnTypedExpV>>, c: nat, i: int)
    requires
        0 <= i <= items.len(),
        spec_resolve_block_items(m, items.subrange(0, i), c) is Err,
    ensures
        spec_resolve_block_items(m, items, c) == spec_resolve_block_items(
            m,
            items.subrange(0, i),
            c,
        ),
    decreases items.len() - i,
{
    if i < items.len() {
        assert(items.subrange(0, i + 1).drop_last() =~= items.subrange(0, i));
        lemma_resolve_block_items_err(m, items, c, i + 1);
    } else {
        assert(items.subrange(0, i) =~= items);
    }
}

/// Once a prefix fails, the parameter list fails the same way.
proof fn lemma_resolve_params_err(m: IdMapV, params: Seq<Seq<char>>, c: nat, i: int)
    requires
        0 <= i <= params.len(),
        spec_resolve_params(m, params.subrange(0, i), c) is Err,
    ensures
        spec_resolve_params(m, params, c) == spec_resolve_params(m, params.subrange(0, i), c),
    decreases params.len() - i,
{
    if i < params.len() {
        assert(params.subrange(0, i + 1).drop_last() =~= params.subrange(0, i));
        lemma_resolve_params_err(m, params, c, i + 1);
    } else {
        assert(params.subrange(0, i) =~= params);
    }
}

/// Once a prefix fails, the program fails the same way.
proof fn lemma_resolve_decls_err(m: IdMapV, ds: Seq<DeclarationV<UnTypedExpV>>, c: nat, i: int)
    requires
        0 <= i <= ds.len(),
        spec_resolve_decls(m, ds.subrange(0, i), c) is Err,
    ensures
        spec_resolve_decls(m, ds, c) == spec_resolve_decls(m, ds.subrange(0, i), c),
    decreases ds.len() - i,
{
    if i < ds.len() {
        assert(ds.subrange(0, i + 1).drop_last() =~= ds.subrange(0, i));
        lemma_resolve_decls_err(m, ds, c, i + 1);
    } else {
        assert(ds.subrange(0, i) =~= ds);
    }
}

impl Clone for VarEntry {
    fn clone(&self) -> (r: Self)
        ensures
            r@ == self@,
    {
        VarEntry {
            unique_name: self.unique_name.clone(),
            from_current_scope: self.from_current_scope,
            has_linkage: self.has_linkage,
        }
    }
}

/// Copies the scope map for a nested scope, clearing the current-scope
/// marks.
fn copy_identifier_map(m: &IdMap) -> (r: IdMap)
    ensures
        pair_views(r@) == spec_copy_map(pair_views(m@)),
{
    proof {
        lemma_pair_views(m@);
    }
    let mut new_map: IdMap = Vec::new();
    let mut i: usize = 0;
    while i < m.len()
        invariant
            i <= m.len(),
            new_map@.len() == i,
            forall|j: int|
                0 <= j < i ==> (#[trigger] new_map@[j]).0@ == m@[j].0@ && new_map@[j].1@
                    == (VarEntryV {
                    unique_name: m@[j].1@.unique_name,
                    from_current_scope: false,
                    has_linkage: m@[j].1@.has_linkage,
                }),
        decreases m.len() - i,
    {
        let entry = VarEntry {
            unique_name: m[i].1.unique_name.clone(),
            from_current_scope: false,
            has_linkage: m[i].1.has_linkage,
        };
        new_map.push((m[i].0.clone(), entry));
        i += 1;
    }
    proof {
        lemma_pair_views(new_map@);
        lemma_pair_views(m@);
        assert(pair_views(new_map@) =~= spec_copy_map(pair_views(m@)));
    }
    new_map
}

/// Resolves one expression against the visible scope.
#[verifier::rlimit(100)]
fn resolve_exp(id_map: &IdMap, exp: UnTypedExp) -> (r: Result<UnTypedExp, CompileError>)
    ensures
        match r {
            Ok(out) => spec_resolve_exp(pair_views(id_map@), exp@) == Ok::<
                UnTypedExpV,
                CompileErrorV,
            >(out@),
            Err(e) => spec_resolve_exp(pair_views(id_map@), exp@) == Err::<
                UnTypedExpV,
                CompileErrorV,
            >(e@),
        },
    decreases exp,
{
    let ghost e0 = exp;
    let ghost mv = pair_views(id_map@);
    match exp {
        UnTypedExp::Assignment(left, right) => {
            let is_var = matches!(&*left, UnTypedExp::Var(_));
            if !is_var {
                Err(CompileError::InvalidLValue)
            } else {
                let l1 = resolve_exp(id_map, *left)?;
                let r1 = resolve_exp(id_map, *right)?;
                Ok(UnTypedExp::Assignment(Box::new(l1), Box::new(r1)))
            }
        },
        UnTypedExp::Var(v) => {
            match map_find(id_map, &v) {
                Some(i) => {
                    proof {
                        lemma_pair_views(id_map@);
                        crate::table::lemma_key_index(mv, v@);
                    }
                    Ok(UnTypedExp::Var(id_map[i].1.unique_name.clone()))
                },
                None => Err(CompileError::UndeclaredIdentifier(v)),
            }
        },
        UnTypedExp::Cast { target_type, e } => {
            let e1 = resolve_exp(id_map, *e)?;
            Ok(UnTypedExp::Cast { target_type, e: Box::new(e1) })
        },
        UnTypedExp::Unary(op, inner) => {
            let e1 = resolve_exp(id_map, *inner)?;
            Ok(UnTypedExp::Unary(op, Box::new(e1)))
        },
        UnTypedExp::Binary(op, e1, e2) => {
            let a = resolve_exp(id_map, *e1)?;
            let b = resolve_exp(id_map, *e2)?;
            Ok(UnTypedExp::Binary(op, Box::new(a), Box::new(b)))
        },
        UnTypedExp::Conditional { condition, then_result, else_result } => {
            let c = resolve_exp(id_map, *condition)?;
            let t = resolve_exp(id_map, *then_result)?;
            let e = resolve_exp(id_map, *else_result)?;
            Ok(
                UnTypedExp::Conditional {
                    condition: Box::new(c),
                    then_result: Box::new(t),
                    else_result: Box::new(e),
                },
            )
        },
        UnTypedExp::FunCall { f, args } => {
            match map_find(id_map, &f) {
                None => Err(CompileError::UndeclaredIdentifier(f)),
                Some(fi) => {
                    proof {
                        lemma_pair_views(id_map@);
                        crate::table::lemma_key_index(mv, f@);
                    }
                    let fname = id_map[fi].1.unique_name.clone();
                    let ghost v0 = args;
                    let ghost all = untyped_exp_views(args@);
                    proof {
                        lemma_untyped_exp_views(args@);
                    }
                    let mut out: Vec<UnTypedExp> = Vec::new();
                    let mut rest = args;
                    let n0 = rest.len();
                    proof {
                        assert(v0@.len() == n0);
                        lemma_untyped_exp_views(out@);
                        assert(all.subrange(0, 0) =~= Seq::<UnTypedExpV>::empty());
                        assert(untyped_exp_views(out@) =~= Seq::<UnTypedExpV>::empty());
                    }
                    let mut i: usize = 0;
                    while rest.len() > 0
                        invariant
                            v0@.len() <= usize::MAX,
                            i + rest@.len() == v0@.len(),
                            rest@ == v0@.subrange(i as int, v0@.len() as int),
                            all == untyped_exp_views(v0@),
                            all.len() == v0@.len(),
                            forall|j: int| 0 <= j < all.len() ==> all[j] == v0@[j]@,
                            mv == pair_views(id_map@),
                            spec_resolve_exps(mv, all.subrange(0, i as int)) == Ok::<
                                Seq<UnTypedExpV>,
                                CompileErrorV,
                            >(untyped_exp_views(out@)),
                        decreases rest@.len(),
                    {
                        let arg = rest.remove(0);
                        proof {
                            assert(arg == v0@[i as int]);
                            assert(rest@ =~= v0@.subrange(i + 1, v0@.len() as int));
                            assert(all.subrange(0, i + 1).drop_last() =~= all.subrange(
                                0,
                                i as int,
                            ));
                            assert(all.subrange(0, i + 1).last() == v0@[i as int]@);
                            assert(decreases_to!(e0 => v0));
                            assert(decreases_to!(v0 => v0@));
                            assert(decreases_to!(v0@ => v0@[i as int]));
                            assert(decreases_to!(e0 => arg));
                        }
                        let a1 = match resolve_exp(id_map, arg) {
                            Ok(a1) => a1,
                            Err(e) => {
                                proof {
                                    lemma_resolve_exps_err(mv, all, i + 1);
                                }
                                return Err(e);
                            },
                        };
                        let ghost before = out@;
                        out.push(a1);
                        proof {
                            lemma_untyped_exp_views(out@);
                            lemma_untyped_exp_views(before);
                            assert(untyped_exp_views(out@) =~= untyped_exp_views(before).push(
                                out@[out@.len() - 1]@,
                            ));
                        }
                        i += 1;
                    }
                    proof {
                        assert(all.subrange(0, v0@.len() as int) =~= all);
                    }
                    Ok(UnTypedExp::FunCall { f: fname, args: out })
                },
            }
        },
        c => Ok(c),
    }
}

/// Resolves an optional expression.
fn resolve_optional_exp(id_map: &IdMap, exp: Option<UnTypedExp>) -> (r: Result<
    Option<UnTypedExp>,
    CompileError,
>)
    ensures
        match r {
            Ok(out) => spec_resolve_optional_exp(
                pair_views(id_map@),
                match exp {
                    Some(e) => Some(e@),
                    None => None,
                },
            ) == Ok::<Option<UnTypedExpV>, CompileErrorV>(
                match out {
                    Some(e) => Some(e@),
                    None => None,
                },
            ),
            Err(e) => spec_resolve_optional_exp(
                pair_views(id_map@),
                match exp {
                    Some(e) => Some(e@),
                    None => None,
                },
            ) == Err::<Option<UnTypedExpV>, CompileErrorV>(e@),
        },
{
    match exp {
        Some(e) => {
            let e1 = resolve_exp(id_map, e)?;
            Ok(Some(e1))
        },
        None => Ok(None),
    }
}

/// Declares one local name, minting a fresh unique name unless the
/// declaration is `extern`.
fn resolve_local_var_helper(
    id_map: &mut IdMap,
    name: String,
    storage_class: Option<StorageClass>,
    counter: &mut Counter,
) -> (r: Result<String, CompileError>)
    ensures
        match r {
            Ok(unique) => spec_resolve_local_var_helper(
                pair_views(old(id_map)@),
                name@,
                storage_class,
                old(counter)@,
            ) == Ok::<(IdMapV, Seq<char>, nat), CompileErrorV>(
                (pair_views(final(id_map)@), unique@, final(counter)@),
            ),
            Err(e) => spec_resolve_local_var_helper(
                pair_views(old(id_map)@),
                name@,
                storage_class,
                old(counter)@,
            ) == Err::<(IdMapV, Seq<char>, nat), CompileErrorV>(e@),
        },
{
    proof {
        lemma_pair_views(id_map@);
    }
    let dup: bool = match map_find(id_map, &name) {
        Some(i) => {
            proof {
                crate::table::lemma_key_index(pair_views(id_map@), name@);
            }
            let en = &id_map[i].1;
            en.from_current_scope && !(en.has_linkage && matches!(
                storage_class,
                Some(StorageClass::Extern),
            ))
        },
        None => false,
    };
    if dup {
        Err(CompileError::DuplicateDeclaration(name))
    } else if matches!(storage_class, Some(StorageClass::Extern)) {
        let entry = VarEntry {
            unique_name: name.clone(),
            from_current_scope: true,
            has_linkage: true,
        };
        let unique = name.clone();
        map_insert(id_map, name, entry);
        Ok(unique)
    } else {
        let unique_name = counter.make_label(name.as_str());
        let entry = VarEntry {
            unique_name: unique_name.clone(),
            from_current_scope: true,
            has_linkage: false,
        };
        map_insert(id_map, name, entry);
        Ok(unique_name)
    }
}

/// Resolves one local variable declaration.
fn resolve_local_var_declaration(
    id_map: &mut IdMap,
    vd: VariableDeclaration<UnTypedExp>,
    counter: &mut Counter,
) -> (r: Result<VariableDeclaration<UnTypedExp>, CompileError>)
    ensures
        match r {
            Ok(out) => spec_resolve_local_var_declaration(
                pair_views(old(id_map)@),
                vd@,
                old(counter)@,
            ) == Ok::<(IdMapV, VariableDeclarationV<UnTypedExpV>, nat), CompileErrorV>(
                (pair_views(final(id_map)@), out@, final(counter)@),
            ),
            Err(e) => spec_resolve_local_var_declaration(
                pair_views(old(id_map)@),
                vd@,
                old(counter)@,
            ) == Err::<(IdMapV, VariableDeclarationV<UnTypedExpV>, nat), CompileErrorV>(e@),
        },
{
    let VariableDeclaration { name, var_type, init, storage_class } = vd;
    let unique_name = resolve_local_var_helper(id_map, name, storage_class, counter)?;
    let resolved_init = resolve_optional_exp(id_map, init)?;
    Ok(
        VariableDeclaration {
            name: unique_name,
            var_type,
            init: resolved_init,
            storage_class,
        },
    )
}

/// Resolves a `for` initializer.
fn resolve_for_init(
    id_map: &mut IdMap,
    init: ForInit<UnTypedExp>,
    counter: &mut Counter,
) -> (r: Result<ForInit<UnTypedExp>, CompileError>)
    ensures
        match r {
            Ok(out) => spec_resolve_for_init(pair_views(old(id_map)@), init@, old(counter)@)
                == Ok::<(IdMapV, ForInitV<UnTypedExpV>, nat), CompileErrorV>(
                (pair_views(final(id_map)@), out@, final(counter)@),
            ),
            Err(e) => spec_resolve_for_init(pair_views(old(id_map)@), init@, old(counter)@)
                == Err::<(IdMapV, ForInitV<UnTypedExpV>, nat), CompileErrorV>(e@),
        },
{
    match init {
        ForInit::InitExp(e) => {
            let e1 = resolve_optional_exp(id_map, e)?;
            Ok(ForInit::InitExp(e1))
        },
        ForInit::InitDecl(d) => {
            let d1 = resolve_local_var_declaration(id_map, d, counter)?;
            Ok(ForInit::InitDecl(d1))
        },
    }
}

/// Resolves one statement.
#[verifier::rlimit(100)]
fn resolve_statement(
    id_map: &IdMap,
    statement: Statement<UnTypedExp>,
    counter: &mut Counter,
) -> (r: Result<Statement<UnTypedExp>, CompileError>)
    ensures
        match r {
            Ok(out) => spec_resolve_statement(pair_views(id_map@), statement@, old(counter)@)
                == Ok::<(StatementV<UnTypedExpV>, nat), CompileErrorV>((out@, final(counter)@)),
            Err(e) => spec_resolve_statement(pair_views(id_map@), statement@, old(counter)@)
                == Err::<(StatementV<UnTypedExpV>, nat), CompileErrorV>(e@),
        },
    decreases statement,
{
    match statement {
        Statement::Return(e) => {
            let e1 = resolve_exp(id_map, e)?;
            Ok(Statement::Return(e1))
        },
        Statement::Expression(e) => {
            let e1 = resolve_exp(id_map, e)?;
            Ok(Statement::Expression(e1))
        },
        Statement::While { condition, body, id } => {
            let c1 = resolve_exp(id_map, condition)?;
            let b1 = resolve_statement(id_map, *body, counter)?;
            Ok(Statement::While { condition: c1, body: Box::new(b1), id })
        },
        Statement::DoWhile { body, condition, id } => {
            let b1 = resolve_statement(id_map, *body, counter)?;
            let c1 = resolve_exp(id_map, condition)?;
            Ok(Statement::DoWhile { body: Box::new(b1), condition: c1, id })
        },
        Statement::For { init, condition, post, body, id } => {
            let mut id_map2 = copy_identifier_map(id_map);
            let init1 = resolve_for_init(&mut id_map2, init, counter)?;
            let cond1 = resolve_optional_exp(&id_map2, condition)?;
            let post1 = resolve_optional_exp(&id_map2, post)?;
            let b1 = resolve_statement(&id_map2, *body, counter)?;
            Ok(
                Statement::For {
                    init: init1,
                    condition: cond1,
                    post: post1,
                    body: Box::new(b1),
                    id,
                },
            )
        },
        Statement::If { condition, then_clause, else_clause } => {
            let c1 = resolve_exp(id_map, condition)?;
            let t1 = resolve_statement(id_map, *then_clause, counter)?;
            match else_clause {
                None => Ok(
                    Statement::If {
                        condition: c1,
                        then_clause: Box::new(t1),
                        else_clause: None,
                    },
                ),
                Some(els) => {
                    let e1 = resolve_statement(id_map, *els, counter)?;
                    Ok(
                        Statement::If {
                            condition: c1,
                            then_clause: Box::new(t1),
                            else_clause: Some(Box::new(e1)),
                        },
                    )
                },
            }
        },
        Statement::Compound(block) => {
            let new_map = copy_identifier_map(id_map);
            let b1 = resolve_block(new_map, block, counter)?;
            Ok(Statement::Compound(b1))
        },
        other => Ok(other),
    }
}

/// Resolves the items of a block, threading the scope map.
#[verifier::rlimit(100)]
fn resolve_block(id_map: IdMap, block: Block<UnTypedExp>, counter: &mut Counter) -> (r: Result<
    Block<UnTypedExp>,
    CompileError,
>)
    ensures
        match r {
            Ok(out) => spec_resolve_block(pair_views(id_map@), block@, old(counter)@) == Ok::<
                (BlockV<UnTypedExpV>, nat),
                CompileErrorV,
            >((out@, final(counter)@)),
            Err(e) => spec_resolve_block(pair_views(id_map@), block@, old(counter)@) == Err::<
                (BlockV<UnTypedExpV>, nat),
                CompileErrorV,
            >(e@),
        },
    decreases block,
{
    let ghost b0 = block;
    let ghost m0 = pair_views(id_map@);
    let ghost c0 = counter@;
    match block {
        Block::Block(items) => {
            let ghost v0 = items;
            let ghost all = block_item_views(items@);
            let mut cur_map = id_map;
            let mut out: Vec<BlockItem<UnTypedExp>> = Vec::new();
            let mut rest = items;
            let n0 = rest.len();
            proof {
                lemma_block_item_views(rest@);
                lemma_block_item_views(out@);
                assert(v0@.len() == n0);
                assert(all.subrange(0, 0) =~= Seq::<BlockItemV<UnTypedExpV>>::empty());
                assert(block_item_views(out@) =~= Seq::<BlockItemV<UnTypedExpV>>::empty());
            }
            let mut i: usize = 0;
            while rest.len() > 0
                invariant
                    v0@.len() <= usize::MAX,
                    i + rest@.len() == v0@.len(),
                    rest@ == v0@.subrange(i as int, v0@.len() as int),
                    all == block_item_views(v0@),
                    all.len() == v0@.len(),
                    forall|j: int| 0 <= j < all.len() ==> all[j] == v0@[j]@,
                    spec_resolve_block_items(m0, all.subrange(0, i as int), c0) == Ok::<
                        (IdMapV, Seq<BlockItemV<UnTypedExpV>>, nat),
                        CompileErrorV,
                    >((pair_views(cur_map@), block_item_views(out@), counter@)),
                decreases rest@.len(),
            {
                let item = rest.remove(0);
                proof {
                    assert(item == v0@[i as int]);
                    assert(rest@ =~= v0@.subrange(i + 1, v0@.len() as int));
                    assert(all.subrange(0, i + 1).drop_last() =~= all.subrange(0, i as int));
                    assert(all.subrange(0, i + 1).last() == v0@[i as int]@);
                }
                let resolved: BlockItem<UnTypedExp> = match item {
                    BlockItem::S(s) => {
                        proof {
                            assert(decreases_to!(b0 => v0));
                            assert(decreases_to!(v0 => v0@));
                            assert(decreases_to!(v0@ => v0@[i as int]));
                            assert(decreases_to!(b0 => s));
                        }
                        match resolve_statement(&cur_map, s, counter) {
                            Ok(s1) => BlockItem::S(s1),
                            Err(e) => {
                                proof {
                                    lemma_resolve_block_items_err(m0, all, c0, i + 1);
                                }
                                return Err(e);
                            },
                        }
                    },
                    BlockItem::D(d) => {
                        proof {
                            assert(decreases_to!(b0 => v0));
                            assert(decreases_to!(v0 => v0@));
                            assert(decreases_to!(v0@ => v0@[i as int]));
                            assert(decreases_to!(b0 => d));
                        }
                        match resolve_local_declaration(&mut cur_map, d, counter) {
                            Ok(d1) => BlockItem::D(d1),
                            Err(e) => {
                                proof {
                                    lemma_resolve_block_items_err(m0, all, c0, i + 1);
                                }
                                return Err(e);
                            },
                        }
                    },
                };
                let ghost before = out@;
                out.push(resolved);
                proof {
                    lemma_block_item_views(out@);
                    lemma_block_item_views(before);
                    assert(block_item_views(out@) =~= block_item_views(before).push(
                        out@[out@.len() - 1]@,
                    ));
                }
                i += 1;
            }
            proof {
                assert(all.subrange(0, v0@.len() as int) =~= all);
            }
            Ok(Block::Block(out))
        },
    }
}

/// Resolves a block-scope declaration.
fn resolve_local_declaration(
    id_map: &mut IdMap,
    declaration: Declaration<UnTypedExp>,
    counter: &mut Counter,
) -> (r: Result<Declaration<UnTypedExp>, CompileError>)
    ensures
        match r {
            Ok(out) => spec_resolve_local_declaration(
                pair_views(old(id_map)@),
                declaration@,
                old(counter)@,
            ) == Ok::<(IdMapV, DeclarationV<UnTypedExpV>, nat), CompileErrorV>(
                (pair_views(final(id_map)@), out@, final(counter)@),
            ),
            Err(e) => spec_resolve_local_declaration(
                pair_views(old(id_map)@),
                declaration@,
                old(counter)@,
            ) == Err::<(IdMapV, DeclarationV<UnTypedExpV>, nat), CompileErrorV>(e@),
        },
    decreases declaration,
{
    match declaration {
        Declaration::VarDecl(vd) => {
            let vd1 = resolve_local_var_declaration(id_map, vd, counter)?;
            Ok(Declaration::VarDecl(vd1))
        },
        Declaration::FunDecl(fd) => {
            if fd.body.is_some() {
                Err(CompileError::NestedFunctionDefinition(fd.name))
            } else if matches!(fd.storage_class, Some(StorageClass::Static)) {
                Err(CompileError::StaticLocalFunction(fd.name))
            } else {
                let fd1 = resolve_function_declaration(id_map, fd, counter)?;
                Ok(Declaration::FunDecl(fd1))
            }
        },
    }
}

/// Declares each parameter as a fresh local of the inner scope.
fn resolve_params(
    id_map: &mut IdMap,
    params: Vec<String>,
    counter: &mut Counter,
) -> (r: Result<Vec<String>, CompileError>)
    ensures
        match r {
            Ok(out) => spec_resolve_params(
                pair_views(old(id_map)@),
                string_views(params@),
                old(counter)@,
            ) == Ok::<(IdMapV, Seq<Seq<char>>, nat), CompileErrorV>(
                (pair_views(final(id_map)@), string_views(out@), final(counter)@),
            ),
            Err(e) => spec_resolve_params(
                pair_views(old(id_map)@),
                string_views(params@),
                old(counter)@,
            ) == Err::<(IdMapV, Seq<Seq<char>>, nat), CompileErrorV>(e@),
        },
{
    let ghost v0 = params;
    let ghost all = string_views(params@);
    let ghost m0 = pair_views(id_map@);
    let ghost c0 = counter@;
    let mut out: Vec<String> = Vec::new();
    let mut rest = params;
    let n0 = rest.len();
    proof {
        lemma_string_views(rest@);
        lemma_string_views(out@);
        assert(v0@.len() == n0);
        assert(all.subrange(0, 0) =~= Seq::<Seq<char>>::empty());
        assert(string_views(out@) =~= Seq::<Seq<char>>::empty());
    }
    let mut i: usize = 0;
    while rest.len() > 0
        invariant
            v0@.len() <= usize::MAX,
            i + rest@.len() == v0@.len(),
            rest@ == v0@.subrange(i as int, v0@.len() as int),
            all == string_views(v0@),
            all.len() == v0@.len(),
            forall|j: int| 0 <= j < all.len() ==> all[j] == v0@[j]@,
            spec_resolve_params(m0, all.subrange(0, i as int), c0) == Ok::<
                (IdMapV, Seq<Seq<char>>, nat),
                CompileErrorV,
            >((pair_views(id_map@), string_views(out@), counter@)),
        decreases rest@.len(),
    {
        let param = rest.remove(0);
        proof {
            assert(param == v0@[i as int]);
            assert(rest@ =~= v0@.subrange(i + 1, v0@.len() as int));
            assert(all.subrange(0, i + 1).drop_last() =~= all.subrange(0, i as int));
            assert(all.subrange(0, i + 1).last() == v0@[i as int]@);
        }
        let unique = match resolve_local_var_helper(id_map, param, None, counter) {
            Ok(u) => u,
            Err(e) => {
                proof {
                    lemma_resolve_params_err(m0, all, c0, i + 1);
                }
                return Err(e);
            },
        };
        let ghost before = out@;
        out.push(unique);
        proof {
            lemma_string_views(out@);
            lemma_string_views(before);
            assert(string_views(out@) =~= string_views(before).push(out@[out@.len() - 1]@));
        }
        i += 1;
    }
    proof {
        assert(all.subrange(0, v0@.len() as int) =~= all);
    }
    Ok(out)
}

/// Resolves a function declaration, entering an inner scope for its
/// parameters and body.
fn resolve_function_declaration(
    id_map: &mut IdMap,
    f: FunctionDeclaration<UnTypedExp>,
    counter: &mut Counter,
) -> (r: Result<FunctionDeclaration<UnTypedExp>, CompileError>)
    ensures
        match r {
            Ok(out) => spec_resolve_function_declaration(
                pair_views(old(id_map)@),
                f@,
                old(counter)@,
            ) == Ok::<(IdMapV, FunctionDeclarationV<UnTypedExpV>, nat), CompileErrorV>(
                (pair_views(final(id_map)@), out@, final(counter)@),
            ),
            Err(e) => spec_resolve_function_declaration(
                pair_views(old(id_map)@),
                f@,
                old(counter)@,
            ) == Err::<(IdMapV, FunctionDeclarationV<UnTypedExpV>, nat), CompileErrorV>(e@),
        },
    decreases f,
{
    proof {
        lemma_pair_views(id_map@);
    }
    let dup: bool = match map_find(id_map, &f.name) {
        Some(i) => {
            proof {
                crate::table::lemma_key_index(pair_views(id_map@), f.name@);
            }
            let en = &id_map[i].1;
            en.from_current_scope && !en.has_linkage
        },
        None => false,
    };
    if dup {
        return Err(CompileError::DuplicateDeclaration(f.name));
    }
    let FunctionDeclaration { name, fun_type, params, body, storage_class } = f;
    let new_entry = VarEntry {
        unique_name: name.clone(),
        from_current_scope: true,
        has_linkage: true,
    };
    let name1 = name.clone();
    map_insert(id_map, name1, new_entry);
    let mut inner_map = copy_identifier_map(id_map);
    let resolved_params = resolve_params(&mut inner_map, params, counter)?;
    let resolved_body: Option<Block<UnTypedExp>> = match body {
        Some(b) => {
            let b1 = resolve_block(inner_map, b, counter)?;
            Some(b1)
        },
        None => None,
    };
    Ok(
        FunctionDeclaration {
            name,
            fun_type,
            params: resolved_params,
            body: resolved_body,
            storage_class,
        },
    )
}

/// Enters a file-scope variable declaration into the scope map; the
/// declared name is its own unique name.
pub fn resolve_file_scope_variable_declaration(
    id_map: &mut IdMap,
    vd: VariableDeclaration<UnTypedExp>,
) -> (r: VariableDeclaration<UnTypedExp>)
    ensures
        spec_resolve_file_scope_variable_declaration(pair_views(old(id_map)@), vd@) == (
            pair_views(final(id_map)@),
            r@,
        ),
{
    let entry = VarEntry {
        unique_name: vd.name.clone(),
        from_current_scope: true,
        has_linkage: true,
    };
    let name1 = vd.name.clone();
    map_insert(id_map, name1, entry);
    vd
}

/// Resolves one file-scope declaration.
pub fn resolve_global_declaration(
    id_map: &mut IdMap,
    d: Declaration<UnTypedExp>,
    counter: &mut Counter,
) -> (r: Result<Declaration<UnTypedExp>, CompileError>)
    ensures
        match r {
            Ok(out) => spec_resolve_global_declaration(
                pair_views(old(id_map)@),
                d@,
                old(counter)@,
            ) == Ok::<(IdMapV, DeclarationV<UnTypedExpV>, nat), CompileErrorV>(
                (pair_views(final(id_map)@), out@, final(counter)@),
            ),
            Err(e) => spec_resolve_global_declaration(
                pair_views(old(id_map)@),
                d@,
                old(counter)@,
            ) == Err::<(IdMapV, DeclarationV<UnTypedExpV>, nat), CompileErrorV>(e@),
        },
{
    match d {
        Declaration::FunDecl(fd) => {
            let fd1 = resolve_function_declaration(id_map, fd, counter)?;
            Ok(Declaration::FunDecl(fd1))
        },
        Declaration::VarDecl(vd) => {
            let vd1 = resolve_file_scope_variable_declaration(id_map, vd);
            Ok(Declaration::VarDecl(vd1))
        },
    }
}

/// Renames every local identifier of the program to a unique name,
/// rejecting conflicting declarations, uses of undeclared names, nested
/// function definitions, and `static` local function declarations.
pub fn resolve(program: UntypedProgType, counter: &mut Counter) -> (r: Result<
    UntypedProgType,
    CompileError,
>)
    ensures
        match r {
            Ok(out) => spec_resolve(program@, old(counter)@) == Ok::<
                (ProgTypeV<UnTypedExpV>, nat),
                CompileErrorV,
            >((out@, final(counter)@)),
            Err(e) => spec_resolve(program@, old(counter)@) == Err::<
                (ProgTypeV<UnTypedExpV>, nat),
                CompileErrorV,
            >(e@),
        },
{
    match program {
        ProgType::Program(decls) => {
            let ghost v0 = decls;
            let ghost all = declaration_views(decls@);
            let ghost c0 = counter@;
            let mut id_map: IdMap = Vec::new();
            let mut out: Vec<Declaration<UnTypedExp>> = Vec::new();
            let mut rest = decls;
            let n0 = rest.len();
            proof {
                lemma_declaration_views(rest@);
                lemma_declaration_views(out@);
                lemma_pair_views(id_map@);
                assert(v0@.len() == n0);
                assert(all.subrange(0, 0) =~= Seq::<DeclarationV<UnTypedExpV>>::empty());
                assert(declaration_views(out@) =~= Seq::<DeclarationV<UnTypedExpV>>::empty());
                assert(pair_views(id_map@) =~= Seq::<(Seq<char>, VarEntryV)>::empty());
            }
            let mut i: usize = 0;
            while rest.len() > 0
                invariant
                    v0@.len() <= usize::MAX,
                    i + rest@.len() == v0@.len(),
                    rest@ == v0@.subrange(i as int, v0@.len() as int),
                    all == declaration_views(v0@),
                    all.len() == v0@.len(),
                    forall|j: int| 0 <= j < all.len() ==> all[j] == v0@[j]@,
                    spec_resolve_decls(Seq::empty(), all.subrange(0, i as int), c0) == Ok::<
                        (IdMapV, Seq<DeclarationV<UnTypedExpV>>, nat),
                        CompileErrorV,
                    >((pair_views(id_map@), declaration_views(out@), counter@)),
                decreases rest@.len(),
            {
                let d = rest.remove(0);
                proof {
                    assert(d == v0@[i as int]);
                    assert(rest@ =~= v0@.subrange(i + 1, v0@.len() as int));
                    assert(all.subrange(0, i + 1).drop_last() =~= all.subrange(0, i as int));
                    assert(all.subrange(0, i + 1).last() == v0@[i as int]@);
                }
                let d1 = match resolve_global_declaration(&mut id_map, d, counter) {
                    Ok(d1) => d1,
                    Err(e) => {
                        proof {
                            lemma_resolve_decls_err(Seq::empty(), all, c0, i + 1);
                        }
                        return Err(e);
                    },
                };
                let ghost before = out@;
                out.push(d1);
                proof {
                    lemma_declaration_views(out@);
                    lemma_declaration_views(before);
                    assert(declaration_views(out@) =~= declaration_views(before).push(
                        out@[out@.len() - 1]@,
                    ));
                }
                i += 1;
            }
            proof {
                assert(all.subrange(0, v0@.len() as int) =~= all);
            }
            Ok(ProgType::Program(out))
        },
    }
}

} // verus!
