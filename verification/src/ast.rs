//! The abstract syntax tree.
//!
//! The tree comes in two flavours sharing one shape: the parser produces
//! [`UnTypedExp`] expressions, and the type checker rebuilds them as
//! [`TypedExp`] expressions carrying a type annotation.  Statements and
//! declarations are generic over the expression flavour.
//!
//! Each tree type has a mathematical model (`...V`) with `Seq` in place of
//! `Vec` and character sequences in place of `String`, reached through the
//! `@` view operator; all pass contracts are stated over these models.

use crate::constants;
use crate::text::string_views;
use crate::types::{type_view, Type, TypeV};
use vstd::prelude::*;

verus! {

/// A unary operator of the source language.
#[derive(Clone, Copy, Debug, PartialEq, Eq, Structural)]
pub enum UnaryOperator {
    Complement,
    Negate,
    Not,
}

/// A binary operator of the source language.
#[derive(Clone, Copy, Debug, PartialEq, Eq, Structural)]
pub enum BinaryOperator {
    Add,
    Subtract,
    Multiply,
    Divide,
    Mod,
    And,
    Or,
    Equal,
    NotEqual,
    LessThan,
    LessOrEqual,
    GreaterThan,
    GreaterOrEqual,
}

/// A storage-class specifier on a declaration.
#[derive(Clone, Copy, Debug, PartialEq, Eq, Structural)]
pub enum StorageClass {
    Static,
    Extern,
}

/// An expression as the parser produces it, without type annotations.
#[derive(Debug)]
pub enum UnTypedExp {
    Constant(constants::T),
    Var(String),
    Cast { target_type: Type, e: Box<UnTypedExp> },
    Unary(UnaryOperator, Box<UnTypedExp>),
    Binary(BinaryOperator, Box<UnTypedExp>, Box<UnTypedExp>),
    Assignment(Box<UnTypedExp>, Box<UnTypedExp>),
    Conditional {
        condition: Box<UnTypedExp>,
        then_result: Box<UnTypedExp>,
        else_result: Box<UnTypedExp>,
    },
    FunCall { f: String, args: Vec<UnTypedExp> },
}

/// The model of an untyped expression.
pub enum UnTypedExpV {
    Constant(constants::T),
    Var(Seq<char>),
    Cast { target_type: TypeV, e: Box<UnTypedExpV> },
    Unary(UnaryOperator, Box<UnTypedExpV>),
    Binary(BinaryOperator, Box<UnTypedExpV>, Box<UnTypedExpV>),
    Assignment(Box<UnTypedExpV>, Box<UnTypedExpV>),
    Conditional {
        condition: Box<UnTypedExpV>,
        then_result: Box<UnTypedExpV>,
        else_result: Box<UnTypedExpV>,
    },
    FunCall { f: Seq<char>, args: Seq<UnTypedExpV> },
}

/// The model of a sequence of untyped expressions, element by element.
pub open spec fn untyped_exp_views(es: Seq<UnTypedExp>) -> Seq<UnTypedExpV>
    decreases es,
{
    if es.len() == 0 {
        Seq::empty()
    } else {
        untyped_exp_views(es.drop_last()).push(untyped_exp_view(es.last()))
    }
}

/// The model of one untyped expression.
pub open spec fn untyped_exp_view(e: UnTypedExp) -> UnTypedExpV
    decreases e,
{
    match e {
        UnTypedExp::Constant(c) => UnTypedExpV::Constant(c),
        UnTypedExp::Var(v) => UnTypedExpV::Var(v@),
        UnTypedExp::Cast { target_type, e } => UnTypedExpV::Cast {
            target_type: type_view(target_type),
            e: Box::new(untyped_exp_view(*e)),
        },
        UnTypedExp::Unary(op, inner) => UnTypedExpV::Unary(op, Box::new(untyped_exp_view(*inner))),
        UnTypedExp::Binary(op, e1, e2) => UnTypedExpV::Binary(
            op,
            Box::new(untyped_exp_view(*e1)),
            Box::new(untyped_exp_view(*e2)),
        ),
        UnTypedExp::Assignment(l, r) => UnTypedExpV::Assignment(
            Box::new(untyped_exp_view(*l)),
            Box::new(untyped_exp_view(*r)),
        ),
        UnTypedExp::Conditional { condition, then_result, else_result } => UnTypedExpV::Conditional {
            condition: Box::new(untyped_exp_view(*condition)),
            then_result: Box::new(untyped_exp_view(*then_result)),
            else_result: Box::new(untyped_exp_view(*else_result)),
        },
        UnTypedExp::FunCall { f, args } => UnTypedExpV::FunCall {
            f: f@,
            args: untyped_exp_views(args@),
        },
    }
}

/// `untyped_exp_views` maps the sequence pointwise.
pub broadcast proof fn lemma_untyped_exp_views(es: Seq<UnTypedExp>)
    ensures
        #[trigger] untyped_exp_views(es).len() == es.len(),
        forall|i: int| 0 <= i < es.len() ==> untyped_exp_views(es)[i] == untyped_exp_view(es[i]),
    decreases es.len(),
{
    if es.len() > 0 {
        lemma_untyped_exp_views(es.drop_last());
        assert(forall|i: int|
            0 <= i < es.len() - 1 ==> untyped_exp_views(es)[i] == untyped_exp_views(
                es.drop_last(),
            )[i]);
        assert(forall|i: int| 0 <= i < es.len() - 1 ==> es.drop_last()[i] == es[i]);
    }
}

impl View for UnTypedExp {
    type V = UnTypedExpV;

    open spec fn view(&self) -> UnTypedExpV {
        untyped_exp_view(*self)
    }
}

/// An expression annotated with its type by the type checker.
#[derive(Debug)]
pub struct TypedExp {
    pub e: Box<TypedInnerExp>,
    pub t: Type,
}

/// The node of a typed expression; children are full [`TypedExp`]s.
#[derive(Debug)]
pub enum TypedInnerExp {
    Constant(constants::T),
    Var(String),
    Cast { target_type: Type, e: TypedExp },
    Unary(UnaryOperator, TypedExp),
    Binary(BinaryOperator, TypedExp, TypedExp),
    Assignment(TypedExp, TypedExp),
    Conditional { condition: TypedExp, then_result: TypedExp, else_result: TypedExp },
    FunCall { f: String, args: Vec<TypedExp> },
}

/// The model of a typed expression.
pub struct TypedExpV {
    pub e: Box<TypedInnerExpV>,
    pub t: TypeV,
}

/// The model of a typed expression node.
pub enum TypedInnerExpV {
    Constant(constants::T),
    Var(Seq<char>),
    Cast { target_type: TypeV, e: TypedExpV },
    Unary(UnaryOperator, TypedExpV),
    Binary(BinaryOperator, TypedExpV, TypedExpV),
    Assignment(TypedExpV, TypedExpV),
    Conditional { condition: TypedExpV, then_result: TypedExpV, else_result: TypedExpV },
    FunCall { f: Seq<char>, args: Seq<TypedExpV> },
}

/// The model of a sequence of typed expressions, element by element.
pub open spec fn typed_exp_views(es: Seq<TypedExp>) -> Seq<TypedExpV>
    decreases es,
{
    if es.len() == 0 {
        Seq::empty()
    } else {
        typed_exp_views(es.drop_last()).push(typed_exp_view(es.last()))
    }
}

/// The model of one typed expression.
pub open spec fn typed_exp_view(e: TypedExp) -> TypedExpV
    decreases e,
{
    TypedExpV { e: Box::new(typed_inner_exp_view(*e.e)), t: type_view(e.t) }
}

/// The model of one typed expression node.
pub open spec fn typed_inner_exp_view(e: TypedInnerExp) -> TypedInnerExpV
    decreases e,
{
    match e {
        TypedInnerExp::Constant(c) => TypedInnerExpV::Constant(c),
        TypedInnerExp::Var(v) => TypedInnerExpV::Var(v@),
        TypedInnerExp::Cast { target_type, e } => TypedInnerExpV::Cast {
            target_type: type_view(target_type),
            e: typed_exp_view(e),
        },
        TypedInnerExp::Unary(op, inner) => TypedInnerExpV::Unary(op, typed_exp_view(inner)),
        TypedInnerExp::Binary(op, e1, e2) => TypedInnerExpV::Binary(
            op,
            typed_exp_view(e1),
            typed_exp_view(e2),
        ),
        TypedInnerExp::Assignment(l, r) => TypedInnerExpV::Assignment(
            typed_exp_view(l),
            typed_exp_view(r),
        ),
        TypedInnerExp::Conditional { condition, then_result, else_result } => TypedInnerExpV::Conditional {
            condition: typed_exp_view(condition),
            then_result: typed_exp_view(then_result),
            else_result: typed_exp_view(else_result),
        },
        TypedInnerExp::FunCall { f, args } => TypedInnerExpV::FunCall {
            f: f@,
            args: typed_exp_views(args@),
        },
    }
}

/// `typed_exp_views` maps the sequence pointwise.
pub broadcast proof fn lemma_typed_exp_views(es: Seq<TypedExp>)
    ensures
        #[trigger] typed_exp_views(es).len() == es.len(),
        forall|i: int| 0 <= i < es.len() ==> typed_exp_views(es)[i] == typed_exp_view(es[i]),
    decreases es.len(),
{
    if es.len() > 0 {
        lemma_typed_exp_views(es.drop_last());
        assert(forall|i: int|
            0 <= i < es.len() - 1 ==> typed_exp_views(es)[i] == typed_exp_views(es.drop_last())[i]);
        assert(forall|i: int| 0 <= i < es.len() - 1 ==> es.drop_last()[i] == es[i]);
    }
}

impl View for TypedExp {
    type V = TypedExpV;

    open spec fn view(&self) -> TypedExpV {
        typed_exp_view(*self)
    }
}

impl View for TypedInnerExp {
    type V = TypedInnerExpV;

    open spec fn view(&self) -> TypedInnerExpV {
        typed_inner_exp_view(*self)
    }
}

/// A statement, generic over the expression flavour.
#[derive(Debug)]
pub enum Statement<ExpType> {
    Return(ExpType),
    Expression(ExpType),
    If {
        condition: ExpType,
        then_clause: Box<Statement<ExpType>>,
        else_clause: Option<Box<Statement<ExpType>>>,
    },
    Compound(Block<ExpType>),
    Break(String),
    Continue(String),
    While { condition: ExpType, body: Box<Statement<ExpType>>, id: String },
    DoWhile { body: Box<Statement<ExpType>>, condition: ExpType, id: String },
    For {
        init: ForInit<ExpType>,
        condition: Option<ExpType>,
        post: Option<ExpType>,
        body: Box<Statement<ExpType>>,
        id: String,
    },
    Null,
}

/// One item of a block: a statement or a declaration.
#[derive(Debug)]
pub enum BlockItem<ExpType> {
    S(Statement<ExpType>),
    D(Declaration<ExpType>),
}

/// A brace-enclosed sequence of block items.
#[derive(Debug)]
pub enum Block<ExpType> {
    Block(Vec<BlockItem<ExpType>>),
}

/// A whole translation unit: a sequence of declarations.
#[derive(Debug)]
pub enum ProgType<ExpType> {
    Program(Vec<Declaration<ExpType>>),
}

/// A variable declaration.
#[derive(Debug)]
pub struct VariableDeclaration<ExpType> {
    pub name: String,
    pub var_type: Type,
    pub init: Option<ExpType>,
    pub storage_class: Option<StorageClass>,
}

/// The first clause of a `for` statement.
#[derive(Debug)]
pub enum ForInit<ExpType> {
    InitDecl(VariableDeclaration<ExpType>),
    InitExp(Option<ExpType>),
}

/// A function declaration, with a body when it is a definition.
#[derive(Debug)]
pub struct FunctionDeclaration<ExpType> {
    pub name: String,
    pub fun_type: Type,
    pub params: Vec<String>,
    pub body: Option<Block<ExpType>>,
    pub storage_class: Option<StorageClass>,
}

/// A declaration: of a function or of a variable.
#[derive(Debug)]
pub enum Declaration<ExpType> {
    FunDecl(FunctionDeclaration<ExpType>),
    VarDecl(VariableDeclaration<ExpType>),
}

/// A program over untyped expressions, as the parser returns it.
pub type UntypedProgType = ProgType<UnTypedExp>;

/// A program over typed expressions, as the type checker returns it.
pub type TypedProgType = ProgType<TypedExp>;

/// The model of a statement.
pub enum StatementV<EV> {
    Return(EV),
    Expression(EV),
    If { condition: EV, then_clause: Box<StatementV<EV>>, else_clause: Option<Box<StatementV<EV>>> },
    Compound(BlockV<EV>),
    Break(Seq<char>),
    Continue(Seq<char>),
    While { condition: EV, body: Box<StatementV<EV>>, id: Seq<char> },
    DoWhile { body: Box<StatementV<EV>>, condition: EV, id: Seq<char> },
    For {
        init: ForInitV<EV>,
        condition: Option<EV>,
        post: Option<EV>,
        body: Box<StatementV<EV>>,
        id: Seq<char>,
    },
    Null,
}

/// The model of a block item.
pub enum BlockItemV<EV> {
    S(StatementV<EV>),
    D(DeclarationV<EV>),
}

/// The model of a block.
pub enum BlockV<EV> {
    Block(Seq<BlockItemV<EV>>),
}

/// The model of a program.
pub enum ProgTypeV<EV> {
    Program(Seq<DeclarationV<EV>>),
}

/// The model of a variable declaration.
pub struct VariableDeclarationV<EV> {
    pub name: Seq<char>,
    pub var_type: TypeV,
    pub init: Option<EV>,
    pub storage_class: Option<StorageClass>,
}

/// The model of a `for` initializer.
pub enum ForInitV<EV> {
    InitDecl(VariableDeclarationV<EV>),
    InitExp(Option<EV>),
}

/// The model of a function declaration.
pub struct FunctionDeclarationV<EV> {
    pub name: Seq<char>,
    pub fun_type: TypeV,
    pub params: Seq<Seq<char>>,
    pub body: Option<BlockV<EV>>,
    pub storage_class: Option<StorageClass>,
}

/// The model of a declaration.
pub enum DeclarationV<EV> {
    FunDecl(FunctionDeclarationV<EV>),
    VarDecl(VariableDeclarationV<EV>),
}

/// The model of a statement.
pub open spec fn statement_view<E: View>(s: Statement<E>) -> StatementV<E::V>
    decreases s,
{
    match s {
        Statement::Return(e) => StatementV::Return(e@),
        Statement::Expression(e) => StatementV::Expression(e@),
        Statement::If { condition, then_clause, else_clause } => StatementV::If {
            condition: condition@,
            then_clause: Box::new(statement_view(*then_clause)),
            else_clause: match else_clause {
                Some(s) => Some(Box::new(statement_view(*s))),
                None => None,
            },
        },
        Statement::Compound(b) => StatementV::Compound(block_view(b)),
        Statement::Break(id) => StatementV::Break(id@),
        Statement::Continue(id) => StatementV::Continue(id@),
        Statement::While { condition, body, id } => StatementV::While {
            condition: condition@,
            body: Box::new(statement_view(*body)),
            id: id@,
        },
        Statement::DoWhile { body, condition, id } => StatementV::DoWhile {
            body: Box::new(statement_view(*body)),
            condition: condition@,
            id: id@,
        },
        Statement::For { init, condition, post, body, id } => StatementV::For {
            init: for_init_view(init),
            condition: match condition {
                Some(e) => Some(e@),
                None => None,
            },
            post: match post {
                Some(e) => Some(e@),
                None => None,
            },
            body: Box::new(statement_view(*body)),
            id: id@,
        },
        Statement::Null => StatementV::Null,
    }
}

/// The model of a block.
pub open spec fn block_view<E: View>(b: Block<E>) -> BlockV<E::V>
    decreases b,
{
    match b {
        Block::Block(items) => BlockV::Block(block_item_views(items@)),
    }
}

/// The model of a sequence of block items, element by element.
pub open spec fn block_item_views<E: View>(items: Seq<BlockItem<E>>) -> Seq<BlockItemV<E::V>>
    decreases items,
{
    if items.len() == 0 {
        Seq::empty()
    } else {
        block_item_views(items.drop_last()).push(block_item_view(items.last()))
    }
}

/// The model of one block item.
pub open spec fn block_item_view<E: View>(item: BlockItem<E>) -> BlockItemV<E::V>
    decreases item,
{
    match item {
        BlockItem::S(s) => BlockItemV::S(statement_view(s)),
        BlockItem::D(d) => BlockItemV::D(declaration_view(d)),
    }
}

/// The model of a declaration.
pub open spec fn declaration_view<E: View>(d: Declaration<E>) -> DeclarationV<E::V>
    decreases d,
{
    match d {
        Declaration::FunDecl(fd) => DeclarationV::FunDecl(fun_decl_view(fd)),
        Declaration::VarDecl(vd) => DeclarationV::VarDecl(var_decl_view(vd)),
    }
}

/// The model of a variable declaration.
pub open spec fn var_decl_view<E: View>(vd: VariableDeclaration<E>) -> VariableDeclarationV<E::V> {
    VariableDeclarationV {
        name: vd.name@,
        var_type: type_view(vd.var_type),
        init: match vd.init {
            Some(e) => Some(e@),
            None => None,
        },
        storage_class: vd.storage_class,
    }
}

/// The model of a function declaration.
pub open spec fn fun_decl_view<E: View>(fd: FunctionDeclaration<E>) -> FunctionDeclarationV<E::V>
    decreases fd,
{
    FunctionDeclarationV {
        name: fd.name@,
        fun_type: type_view(fd.fun_type),
        params: string_views(fd.params@),
        body: match fd.body {
            Some(b) => Some(block_view(b)),
            None => None,
        },
        storage_class: fd.storage_class,
    }
}

/// The model of a `for` initializer.
pub open spec fn for_init_view<E: View>(init: ForInit<E>) -> ForInitV<E::V>
    decreases init,
{
    match init {
        ForInit::InitDecl(vd) => ForInitV::InitDecl(var_decl_view(vd)),
        ForInit::InitExp(e) => ForInitV::InitExp(
            match e {
                Some(e) => Some(e@),
                None => None,
            },
        ),
    }
}

/// The model of a sequence of declarations, element by element.
pub open spec fn declaration_views<E: View>(ds: Seq<Declaration<E>>) -> Seq<DeclarationV<E::V>>
    decreases ds,
{
    if ds.len() == 0 {
        Seq::empty()
    } else {
        declaration_views(ds.drop_last()).push(declaration_view(ds.last()))
    }
}

/// The model of a program.
pub open spec fn prog_view<E: View>(p: ProgType<E>) -> ProgTypeV<E::V>
    decreases p,
{
    match p {
        ProgType::Program(ds) => ProgTypeV::Program(declaration_views(ds@)),
    }
}

/// `block_item_views` maps the sequence pointwise.
pub broadcast proof fn lemma_block_item_views<E: View>(items: Seq<BlockItem<E>>)
    ensures
        #[trigger] block_item_views(items).len() == items.len(),
        forall|i: int|
            0 <= i < items.len() ==> block_item_views(items)[i] == block_item_view(items[i]),
    decreases items.len(),
{
    if items.len() > 0 {
        lemma_block_item_views(items.drop_last());
        assert(forall|i: int|
            0 <= i < items.len() - 1 ==> block_item_views(items)[i] == block_item_views(
                items.drop_last(),
            )[i]);
        assert(forall|i: int| 0 <= i < items.len() - 1 ==> items.drop_last()[i] == items[i]);
    }
}

/// `declaration_views` maps the sequence pointwise.
pub broadcast proof fn lemma_declaration_views<E: View>(ds: Seq<Declaration<E>>)
    ensures
        #[trigger] declaration_views(ds).len() == ds.len(),
        forall|i: int| 0 <= i < ds.len() ==> declaration_views(ds)[i] == declaration_view(ds[i]),
    decreases ds.len(),
{
    if ds.len() > 0 {
        lemma_declaration_views(ds.drop_last());
        assert(forall|i: int|
            0 <= i < ds.len() - 1 ==> declaration_views(ds)[i] == declaration_views(
                ds.drop_last(),
            )[i]);
        assert(forall|i: int| 0 <= i < ds.len() - 1 ==> ds.drop_last()[i] == ds[i]);
    }
}

impl<E: View> View for Statement<E> {
    type V = StatementV<E::V>;

    open spec fn view(&self) -> StatementV<E::V> {
        statement_view(*self)
    }
}

impl<E: View> View for Block<E> {
    type V = BlockV<E::V>;

    open spec fn view(&self) -> BlockV<E::V> {
        block_view(*self)
    }
}

impl<E: View> View for BlockItem<E> {
    type V = BlockItemV<E::V>;

    open spec fn view(&self) -> BlockItemV<E::V> {
        block_item_view(*self)
    }
}

impl<E: View> View for Declaration<E> {
    type V = DeclarationV<E::V>;

    open spec fn view(&self) -> DeclarationV<E::V> {
        declaration_view(*self)
    }
}

impl<E: View> View for VariableDeclaration<E> {
    type V = VariableDeclarationV<E::V>;

    open spec fn view(&self) -> VariableDeclarationV<E::V> {
        var_decl_view(*self)
    }
}

impl<E: View> View for FunctionDeclaration<E> {
    type V = FunctionDeclarationV<E::V>;

    open spec fn view(&self) -> FunctionDeclarationV<E::V> {
        fun_decl_view(*self)
    }
}

impl<E: View> View for ForInit<E> {
    type V = ForInitV<E::V>;

    open spec fn view(&self) -> ForInitV<E::V> {
        for_init_view(*self)
    }
}

impl<E: View> View for ProgType<E> {
    type V = ProgTypeV<E::V>;

    open spec fn view(&self) -> ProgTypeV<E::V> {
        prog_view(*self)
    }
}

} // verus!
