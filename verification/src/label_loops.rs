//! The pass that gives every loop a fresh id and stamps each `break` and
//! `continue` with the id of its enclosing loop.

use crate::ast::{
    block_item_views, lemma_block_item_views, lemma_declaration_views, declaration_views, Block,
    BlockItem, BlockItemV, BlockV, Declaration, DeclarationV, ForInit, FunctionDeclaration,
    FunctionDeclarationV, ProgType, ProgTypeV, Statement, StatementV, UnTypedExp, UnTypedExpV,
    UntypedProgType,
};
use crate::errors::{CompileError, CompileErrorV};
use crate::unique_ids::{bump, label_name, Counter};
use vstd::prelude::*;

verus! {

/// The labelling of one statement under an optional enclosing loop id,
/// with the next counter value.
pub open spec fn spec_label_statement(
    current_label: Option<Seq<char>>,
    s: StatementV<UnTypedExpV>,
    c: nat,
) -> Result<(StatementV<UnTypedExpV>, nat), CompileErrorV>
    decreases s,
{
    match s {
        StatementV::Break(_) => {
            match current_label {
                Some(l) => Ok((StatementV::Break(l), c)),
                None => Err(CompileErrorV::BreakOutsideLoop),
            }
        },
        StatementV::Continue(_) => {
            match current_label {
                Some(l) => Ok((StatementV::Continue(l), c)),
                None => Err(CompileErrorV::ContinueOutsideLoop),
            }
        },
        StatementV::While { condition, body, id: _ } => {
            let new_id = label_name("while"@, c);
            match spec_label_statement(Some(new_id), *body, bump(c)) {
                Err(e) => Err(e),
                Ok((body1, c1)) => Ok(
                    (StatementV::While { condition, body: Box::new(body1), id: new_id }, c1),
                ),
            }
        },
        StatementV::DoWhile { body, condition, id: _ } => {
            let new_id = label_name("do_while"@, c);
            match spec_label_statement(Some(new_id), *body, bump(c)) {
                Err(e) => Err(e),
                Ok((body1, c1)) => Ok(
                    (StatementV::DoWhile { body: Box::new(body1), condition, id: new_id }, c1),
                ),
            }
        },
        StatementV::For { init, condition, post, body, id: _ } => {
            let new_id = label_name("for"@, c);
            match spec_label_statement(Some(new_id), *body, bump(c)) {
                Err(e) => Err(e),
                Ok((body1, c1)) => Ok(
                    (
                        StatementV::For {
                            init,
                            condition,
                            post,
                            body: Box::new(body1),
                            id: new_id,
                        },
                        c1,
                    ),
                ),
            }
        },
        StatementV::Compound(blk) => {
            match spec_label_block(current_label, blk, c) {
                Err(e) => Err(e),
                Ok((blk1, c1)) => Ok((StatementV::Compound(blk1), c1)),
            }
        },
        StatementV::If { condition, then_clause, else_clause } => {
            match spec_label_statement(current_label, *then_clause, c) {
                Err(e) => Err(e),
                Ok((then1, c1)) => {
                    match else_clause {
                        None => Ok(
                            (
                                StatementV::If {
                                    condition,
                                    then_clause: Box::new(then1),
                                    else_clause: None,
                                },
                                c1,
                            ),
                        ),
                        Some(els) => match spec_label_statement(current_label, *els, c1) {
                            Err(e) => Err(e),
                            Ok((else1, c2)) => Ok(
                                (
                                    StatementV::If {
                                        condition,
                                        then_clause: Box::new(then1),
                                        else_clause: Some(Box::new(else1)),
                                    },
                                    c2,
                                ),
                            ),
                        },
                    }
                },
            }
        },
        other => Ok((other, c)),
    }
}

/// The labelling of the statements of a block, in order.
pub open spec fn spec_label_items(
    current_label: Option<Seq<char>>,
    items: Seq<BlockItemV<UnTypedExpV>>,
    c: nat,
) -> Result<(Seq<BlockItemV<UnTypedExpV>>, nat), CompileErrorV>
    decreases items,
{
    if items.len() == 0 {
        Ok((Seq::empty(), c))
    } else {
        match spec_label_items(current_label, items.drop_last(), c) {
            Err(e) => Err(e),
            Ok((done, c1)) => match items.last() {
                BlockItemV::S(s) => match spec_label_statement(current_label, s, c1) {
                    Err(e) => Err(e),
                    Ok((s1, c2)) => Ok((done.push(BlockItemV::S(s1)), c2)),
                },
                decl => Ok((done.push(decl), c1)),
            },
        }
    }
}

/// The labelling of a block.
pub open spec fn spec_label_block(
    current_label: Option<Seq<char>>,
    b: BlockV<UnTypedExpV>,
    c: nat,
) -> Result<(BlockV<UnTypedExpV>, nat), CompileErrorV>
    decreases b,
{
    match b {
        BlockV::Block(items) => match spec_label_items(current_label, items, c) {
            Err(e) => Err(e),
            Ok((items1, c1)) => Ok((BlockV::Block(items1), c1)),
        },
    }
}

/// The labelling of one declaration: only a function body holds
/// statements to label, starting outside every loop.
pub open spec fn spec_label_decl(d: DeclarationV<UnTypedExpV>, c: nat) -> Result<
    (DeclarationV<UnTypedExpV>, nat),
    CompileErrorV,
> {
    match d {
        DeclarationV::FunDecl(fd) => {
            match fd.body {
                Some(body) => match spec_label_block(None, body, c) {
                    Err(e) => Err(e),
                    Ok((body1, c1)) => Ok(
                        (
                            DeclarationV::FunDecl(
                                FunctionDeclarationV {
                                    name: fd.name,
                                    fun_type: fd.fun_type,
                                    params: fd.params,
                                    body: Some(body1),
                                    storage_class: fd.storage_class,
                                },
                            ),
                            c1,
                        ),
                    ),
                },
                None => Ok((DeclarationV::FunDecl(fd), c)),
            }
        },
        var_decl => Ok((var_decl, c)),
    }
}

/// The labelling of the declarations of a program, in order.
pub open spec fn spec_label_decls(ds: Seq<DeclarationV<UnTypedExpV>>, c: nat) -> Result<
    (Seq<DeclarationV<UnTypedExpV>>, nat),
    CompileErrorV,
>
    decreases ds,
{
    if ds.len() == 0 {
        Ok((Seq::empty(), c))
    } else {
        match spec_label_decls(ds.drop_last(), c) {
            Err(e) => Err(e),
            Ok((done, c1)) => match spec_label_decl(ds.last(), c1) {
                Err(e) => Err(e),
                Ok((d1, c2)) => Ok((done.push(d1), c2)),
            },
        }
    }
}

/// The labelling of a whole program.
pub open spec fn spec_label_loops(p: ProgTypeV<UnTypedExpV>, c: nat) -> Result<
    (ProgTypeV<UnTypedExpV>, nat),
    CompileErrorV,
> {
    match p {
        ProgTypeV::Program(ds) => match spec_label_decls(ds, c) {
            Err(e) => Err(e),
            Ok((ds1, c1)) => Ok((ProgTypeV::Program(ds1), c1)),
        },
    }
}

/// Once a prefix fails, the block fails the same way.
proof fn lemma_label_items_err(
    current_label: Option<Seq<char>>,
    items: Seq<BlockItemV<UnTypedExpV>>,
    c: nat,
    i: int,
)
    requires
        0 <= i <= items.len(),
        spec_label_items(current_label, items.subrange(0, i), c) is Err,
    ensures
        spec_label_items(current_label, items, c) == spec_label_items(
            current_label,
            items.subrange(0, i),
            c,
        ),
    decreases items.len() - i,
{
    if i < items.len() {
        assert(items.subrange(0, i + 1).drop_last() =~= items.subrange(0, i));
        lemma_label_items_err(current_label, items, c, i + 1);
    } else {
        assert(items.subrange(0, i) =~= items);
    }
}

/// Once a prefix fails, the program fails the same way.
proof fn lemma_label_decls_err(ds: Seq<DeclarationV<UnTypedExpV>>, c: nat, i: int)
    requires
        0 <= i <= ds.len(),
        spec_label_decls(ds.subrange(0, i), c) is Err,
    ensures
        spec_label_decls(ds, c) == spec_label_decls(ds.subrange(0, i), c),
    decreases ds.len() - i,
{
    if i < ds.len() {
        assert(ds.subrange(0, i + 1).drop_last() =~= ds.subrange(0, i));
        lemma_label_decls_err(ds, c, i + 1);
    } else {
        assert(ds.subrange(0, i) =~= ds);
    }
}

/// The view of an optional enclosing loop id.
pub open spec fn opt_label_view(l: Option<&String>) -> Option<Seq<char>> {
    match l {
        Some(s) => Some(s@),
        None => None,
    }
}

/// Labels one statement.
fn label_statement(
    current_label: Option<&String>,
    statement: Statement<UnTypedExp>,
    counter: &mut Counter,
) -> (r: Result<Statement<UnTypedExp>, CompileError>)
    ensures
        match r {
            Ok(out) => spec_label_statement(opt_label_view(current_label), statement@, old(
                counter,
            )@) == Ok::<(StatementV<UnTypedExpV>, nat), CompileErrorV>((out@, final(counter)@)),
            Err(e) => spec_label_statement(opt_label_view(current_label), statement@, old(
                counter,
            )@) == Err::<(StatementV<UnTypedExpV>, nat), CompileErrorV>(e@),
        },
    decreases statement,
{
    match statement {
        Statement::Break(_) => {
            match current_label {
                Some(l) => Ok(Statement::Break(l.clone())),
                None => Err(CompileError::BreakOutsideLoop),
            }
        },
        Statement::Continue(_) => {
            match current_label {
                Some(l) => Ok(Statement::Continue(l.clone())),
                None => Err(CompileError::ContinueOutsideLoop),
            }
        },
        Statement::While { condition, body, id: _ } => {
            let new_id = counter.make_label("while");
            let body1 = label_statement(Some(&new_id), *body, counter)?;
            Ok(Statement::While { condition, body: Box::new(body1), id: new_id })
        },
        Statement::DoWhile { body, condition, id: _ } => {
            let new_id = counter.make_label("do_while");
            let body1 = label_statement(Some(&new_id), *body, counter)?;
            Ok(Statement::DoWhile { body: Box::new(body1), condition, id: new_id })
        },
        Statement::For { init, condition, post, body, id: _ } => {
            let new_id = counter.make_label("for");
            let body1 = label_statement(Some(&new_id), *body, counter)?;
            Ok(Statement::For { init, condition, post, body: Box::new(body1), id: new_id })
        },
        Statement::Compound(blk) => {
            let blk1 = label_block(current_label, blk, counter)?;
            Ok(Statement::Compound(blk1))
        },
        Statement::If { condition, then_clause, else_clause } => {
            let then1 = label_statement(current_label, *then_clause, counter)?;
            match else_clause {
                None => Ok(
                    Statement::If {
                        condition,
                        then_clause: Box::new(then1),
                        else_clause: None,
                    },
                ),
                Some(els) => {
                    let else1 = label_statement(current_label, *els, counter)?;
                    Ok(
                        Statement::If {
                            condition,
                            then_clause: Box::new(then1),
                            else_clause: Some(Box::new(else1)),
                        },
                    )
                },
            }
        },
        other => Ok(other),
    }
}

/// Labels the statements of a block.
#[verifier::rlimit(100)]
fn label_block(
    current_label: Option<&String>,
    b: Block<UnTypedExp>,
    counter: &mut Counter,
) -> (r: Result<Block<UnTypedExp>, CompileError>)
    ensures
        match r {
            Ok(out) => spec_label_block(opt_label_view(current_label), b@, old(counter)@) == Ok::<
                (BlockV<UnTypedExpV>, nat),
                CompileErrorV,
            >((out@, final(counter)@)),
            Err(e) => spec_label_block(opt_label_view(current_label), b@, old(counter)@) == Err::<
                (BlockV<UnTypedExpV>, nat),
                CompileErrorV,
            >(e@),
        },
    decreases b,
{
    let ghost b0 = b;
    match b {
        Block::Block(items) => {
            let ghost v0 = items;
            let ghost all = block_item_views(items@);
            let ghost c0 = counter@;
            let ghost lv = opt_label_view(current_label);
            let mut out: Vec<BlockItem<UnTypedExp>> = Vec::new();
            proof {
                lemma_block_item_views(items@);
                lemma_block_item_views(out@);
                assert(all.subrange(0, 0) =~= Seq::<BlockItemV<UnTypedExpV>>::empty());
                assert(block_item_views(out@) =~= Seq::<BlockItemV<UnTypedExpV>>::empty());
            }
            let mut items_rest = items;
            let n0 = items_rest.len();
            proof {
                assert(v0@.len() == n0);
            }
            let mut i: usize = 0;
            while items_rest.len() > 0
                invariant
                    v0@.len() <= usize::MAX,
                    i + items_rest@.len() == v0@.len(),
                    items_rest@ == v0@.subrange(i as int, v0@.len() as int),
                    all == block_item_views(v0@),
                    all.len() == v0@.len(),
                    forall|j: int| 0 <= j < all.len() ==> all[j] == v0@[j]@,
                    spec_label_items(lv, all.subrange(0, i as int), c0) == Ok::<
                        (Seq<BlockItemV<UnTypedExpV>>, nat),
                        CompileErrorV,
                    >((block_item_views(out@), counter@)),
                    lv == opt_label_view(current_label),
                decreases items_rest@.len(),
            {
                let item = items_rest.remove(0);
                proof {
                    assert(item == v0@[i as int]);
                    assert(items_rest@ =~= v0@.subrange(i + 1, v0@.len() as int));
                    assert(all.subrange(0, i + 1).drop_last() =~= all.subrange(0, i as int));
                    assert(all.subrange(0, i + 1).last() == v0@[i as int]@);
                }
                let labelled: BlockItem<UnTypedExp> = match item {
                    BlockItem::S(s) => {
                        proof {
                            assert(decreases_to!(b0 => v0));
                            assert(decreases_to!(v0 => v0@));
                            assert(decreases_to!(v0@ => v0@[i as int]));
                            assert(decreases_to!(v0@[i as int] => s));
                            assert(decreases_to!(b0 => s));
                        }
                        let sr = label_statement(current_label, s, counter);
                        match sr {
                            Ok(s1) => BlockItem::S(s1),
                            Err(e) => {
                                proof {
                                    lemma_label_items_err(lv, all, c0, i + 1);
                                }
                                return Err(e);
                            },
                        }
                    },
                    decl => decl,
                };
                let ghost before = out@;
                out.push(labelled);
                proof {
                    lemma_block_item_views(out@);
                    lemma_block_item_views(before);
                    assert(block_item_views(out@) =~= block_item_views(before).push(
                        out@[out@.len() - 1]@,
                    ));
                }
                i += 1;
            }
            proof {
                assert(all.subrange(0, v0@.len() as int) =~= all);
            }
            Ok(Block::Block(out))
        },
    }
}

/// Labels one declaration; only a function body holds statements.
fn label_decl(f: Declaration<UnTypedExp>, counter: &mut Counter) -> (r: Result<
    Declaration<UnTypedExp>,
    CompileError,
>)
    ensures
        match r {
            Ok(out) => spec_label_decl(f@, old(counter)@) == Ok::<
                (DeclarationV<UnTypedExpV>, nat),
                CompileErrorV,
            >((out@, final(counter)@)),
            Err(e) => spec_label_decl(f@, old(counter)@) == Err::<
                (DeclarationV<UnTypedExpV>, nat),
                CompileErrorV,
            >(e@),
        },
{
    match f {
        Declaration::FunDecl(fd) => {
            match fd.body {
                Some(body) => {
                    let body1 = label_block(None, body, counter)?;
                    Ok(
                        Declaration::FunDecl(
                            FunctionDeclaration {
                                name: fd.name,
                                fun_type: fd.fun_type,
                                params: fd.params,
                                body: Some(body1),
                                storage_class: fd.storage_class,
                            },
                        ),
                    )
                },
                None => Ok(
                    Declaration::FunDecl(
                        FunctionDeclaration {
                            name: fd.name,
                            fun_type: fd.fun_type,
                            params: fd.params,
                            body: None,
                            storage_class: fd.storage_class,
                        },
                    ),
                ),
            }
        },
        var_decl => Ok(var_decl),
    }
}

/// Gives every loop of the program a fresh id and stamps each `break`
/// and `continue` with its enclosing loop's id; a `break` or `continue`
/// outside every loop is an error.
pub fn label_loops(program: UntypedProgType, counter: &mut Counter) -> (r: Result<
    UntypedProgType,
    CompileError,
>)
    ensures
        match r {
            Ok(out) => spec_label_loops(program@, old(counter)@) == Ok::<
                (ProgTypeV<UnTypedExpV>, nat),
                CompileErrorV,
            >((out@, final(counter)@)),
            Err(e) => spec_label_loops(program@, old(counter)@) == Err::<
                (ProgTypeV<UnTypedExpV>, nat),
                CompileErrorV,
            >(e@),
        },
{
    match program {
        ProgType::Program(decls) => {
            let ghost v0 = decls;
            let ghost all = declaration_views(decls@);
            let ghost c0 = counter@;
            let mut out: Vec<Declaration<UnTypedExp>> = Vec::new();
            proof {
                lemma_declaration_views(decls@);
                lemma_declaration_views(out@);
                assert(all.subrange(0, 0) =~= Seq::<DeclarationV<UnTypedExpV>>::empty());
                assert(declaration_views(out@) =~= Seq::<DeclarationV<UnTypedExpV>>::empty());
            }
            let mut rest = decls;
            let n0 = rest.len();
            proof {
                assert(v0@.len() == n0);
            }
            let mut i: usize = 0;
            while rest.len() > 0
                invariant
                    v0@.len() <= usize::MAX,
                    i + rest@.len() == v0@.len(),
                    rest@ == v0@.subrange(i as int, v0@.len() as int),
                    all == declaration_views(v0@),
                    all.len() == v0@.len(),
                    forall|j: int| 0 <= j < all.len() ==> all[j] == v0@[j]@,
                    spec_label_decls(all.subrange(0, i as int), c0) == Ok::<
                        (Seq<DeclarationV<UnTypedExpV>>, nat),
                        CompileErrorV,
                    >((declaration_views(out@), counter@)),
                decreases rest@.len(),
            {
                let d = rest.remove(0);
                proof {
                    assert(d == v0@[i as int]);
                    assert(rest@ =~= v0@.subrange(i + 1, v0@.len() as int));
                    assert(all.subrange(0, i + 1).drop_last() =~= all.subrange(0, i as int));
                    assert(all.subrange(0, i + 1).last() == v0@[i as int]@);
                }
                let d1 = match label_decl(d, counter) {
                    Ok(d1) => d1,
                    Err(e) => {
                        proof {
                            lemma_label_decls_err(all, c0, i + 1);
                        }
                        return Err(e);
                    },
                };
                let ghost before = out@;
                out.push(d1);
                proof {
                    lemma_declaration_views(out@);
                    lemma_declaration_views(before);
                    assert(declaration_views(out@) =~= declaration_views(before).push(
                        out@[out@.len() - 1]@,
                    ));
                }
                i += 1;
            }
            proof {
                assert(all.subrange(0, v0@.len() as int) =~= all);
            }
            Ok(ProgType::Program(out))
        },
    }
}

} // verus!
