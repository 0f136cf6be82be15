//! The three-address intermediate representation.

use crate::constants;
use crate::initializers::StaticInit;
use crate::text::string_views;
use crate::types::{type_view, Type, TypeV};
use vstd::prelude::*;

verus! {

/// A unary IR operator.
#[derive(Clone, Copy, Debug, PartialEq, Eq, Structural)]
pub enum UnaryOperator {
    Complement,
    Negate,
    Not,
}

/// A binary IR operator; the short-circuit operators are lowered away
/// before the IR and do not appear here.
#[derive(Clone, Copy, Debug, PartialEq, Eq, Structural)]
pub enum BinaryOperator {
    Add,
    Subtract,
    Multiply,
    Divide,
    Mod,
    Equal,
    NotEqual,
    LessThan,
    LessOrEqual,
    GreaterThan,
    GreaterOrEqual,
}

/// An IR value: a constant or a named variable.
#[derive(Debug)]
pub enum IrValue {
    Constant(constants::T),
    Var(String),
}

/// The model of an IR value.
pub enum IrValueV {
    Constant(constants::T),
    Var(Seq<char>),
}

impl View for IrValue {
    type V = IrValueV;

    open spec fn view(&self) -> IrValueV {
        match self {
            IrValue::Constant(c) => IrValueV::Constant(*c),
            IrValue::Var(v) => IrValueV::Var(v@),
        }
    }
}

impl Clone for IrValue {
    fn clone(&self) -> (r: Self)
        ensures
            r@ == self@,
    {
        match self {
            IrValue::Constant(c) => IrValue::Constant(*c),
            IrValue::Var(v) => IrValue::Var(v.clone()),
        }
    }
}

/// The model of a sequence of IR values, element by element.
pub open spec fn ir_value_views(vs: Seq<IrValue>) -> Seq<IrValueV>
    decreases vs,
{
    if vs.len() == 0 {
        Seq::empty()
    } else {
        ir_value_views(vs.drop_last()).push(vs.last()@)
    }
}

/// `ir_value_views` maps the sequence pointwise.
pub broadcast proof fn lemma_ir_value_views(vs: Seq<IrValue>)
    ensures
        #[trigger] ir_value_views(vs).len() == vs.len(),
        forall|i: int| 0 <= i < vs.len() ==> ir_value_views(vs)[i] == vs[i]@,
    decreases vs.len(),
{
    if vs.len() > 0 {
        lemma_ir_value_views(vs.drop_last());
        assert(forall|i: int|
            0 <= i < vs.len() - 1 ==> ir_value_views(vs)[i] == ir_value_views(vs.drop_last())[i]);
        assert(forall|i: int| 0 <= i < vs.len() - 1 ==> vs.drop_last()[i] == vs[i]);
    }
}

/// One IR instruction.
#[derive(Debug)]
pub enum Instruction {
    Return(IrValue),
    SignExtend { src: IrValue, dst: IrValue },
    Truncate { src: IrValue, dst: IrValue },
    Unary { op: UnaryOperator, src: IrValue, dst: IrValue },
    Binary { op: BinaryOperator, src1: IrValue, src2: IrValue, dst: IrValue },
    Copy { src: IrValue, dst: IrValue },
    Jump(String),
    JumpIfZero(IrValue, String),
    JumpIfNotZero(IrValue, String),
    Label(String),
    FunCall { f: String, args: Vec<IrValue>, dst: IrValue },
}

/// The model of an IR instruction.
pub enum InstructionV {
    Return(IrValueV),
    SignExtend { src: IrValueV, dst: IrValueV },
    Truncate { src: IrValueV, dst: IrValueV },
    Unary { op: UnaryOperator, src: IrValueV, dst: IrValueV },
    Binary { op: BinaryOperator, src1: IrValueV, src2: IrValueV, dst: IrValueV },
    Copy { src: IrValueV, dst: IrValueV },
    Jump(Seq<char>),
    JumpIfZero(IrValueV, Seq<char>),
    JumpIfNotZero(IrValueV, Seq<char>),
    Label(Seq<char>),
    FunCall { f: Seq<char>, args: Seq<IrValueV>, dst: IrValueV },
}

impl View for Instruction {
    type V = InstructionV;

    open spec fn view(&self) -> InstructionV {
        match self {
            Instruction::Return(v) => InstructionV::Return(v@),
            Instruction::SignExtend { src, dst } => InstructionV::SignExtend {
                src: src@,
                dst: dst@,
            },
            Instruction::Truncate { src, dst } => InstructionV::Truncate { src: src@, dst: dst@ },
            Instruction::Unary { op, src, dst } => InstructionV::Unary {
                op: *op,
                src: src@,
                dst: dst@,
            },
            Instruction::Binary { op, src1, src2, dst } => InstructionV::Binary {
                op: *op,
                src1: src1@,
                src2: src2@,
                dst: dst@,
            },
            Instruction::Copy { src, dst } => InstructionV::Copy { src: src@, dst: dst@ },
            Instruction::Jump(l) => InstructionV::Jump(l@),
            Instruction::JumpIfZero(v, l) => InstructionV::JumpIfZero(v@, l@),
            Instruction::JumpIfNotZero(v, l) => InstructionV::JumpIfNotZero(v@, l@),
            Instruction::Label(l) => InstructionV::Label(l@),
            Instruction::FunCall { f, args, dst } => InstructionV::FunCall {
                f: f@,
                args: ir_value_views(args@),
                dst: dst@,
            },
        }
    }
}

/// The model of an IR instruction sequence, element by element.
pub open spec fn instruction_views(is: Seq<Instruction>) -> Seq<InstructionV>
    decreases is,
{
    if is.len() == 0 {
        Seq::empty()
    } else {
        instruction_views(is.drop_last()).push(is.last()@)
    }
}

/// `instruction_views` maps the sequence pointwise.
pub broadcast proof fn lemma_instruction_views(is: Seq<Instruction>)
    ensures
        #[trigger] instruction_views(is).len() == is.len(),
        forall|i: int| 0 <= i < is.len() ==> instruction_views(is)[i] == is[i]@,
    decreases is.len(),
{
    if is.len() > 0 {
        lemma_instruction_views(is.drop_last());
        assert(forall|i: int|
            0 <= i < is.len() - 1 ==> instruction_views(is)[i] == instruction_views(
                is.drop_last(),
            )[i]);
        assert(forall|i: int| 0 <= i < is.len() - 1 ==> is.drop_last()[i] == is[i]);
    }
}

/// A top-level IR item: a function or a static variable.
#[derive(Debug)]
pub enum TopLevel {
    Function { name: String, global: bool, params: Vec<String>, body: Vec<Instruction> },
    StaticVariable { name: String, t: Type, global: bool, init: StaticInit },
}

/// The model of a top-level IR item.
pub enum TopLevelV {
    Function { name: Seq<char>, global: bool, params: Seq<Seq<char>>, body: Seq<InstructionV> },
    StaticVariable { name: Seq<char>, t: TypeV, global: bool, init: StaticInit },
}

impl View for TopLevel {
    type V = TopLevelV;

    open spec fn view(&self) -> TopLevelV {
        match self {
            TopLevel::Function { name, global, params, body } => TopLevelV::Function {
                name: name@,
                global: *global,
                params: string_views(params@),
                body: instruction_views(body@),
            },
            TopLevel::StaticVariable { name, t, global, init } => TopLevelV::StaticVariable {
                name: name@,
                t: type_view(*t),
                global: *global,
                init: *init,
            },
        }
    }
}

/// The model of a top-level IR sequence, element by element.
pub open spec fn top_level_views(ts: Seq<TopLevel>) -> Seq<TopLevelV>
    decreases ts,
{
    if ts.len() == 0 {
        Seq::empty()
    } else {
        top_level_views(ts.drop_last()).push(ts.last()@)
    }
}

/// `top_level_views` maps the sequence pointwise.
pub broadcast proof fn lemma_top_level_views(ts: Seq<TopLevel>)
    ensures
        #[trigger] top_level_views(ts).len() == ts.len(),
        forall|i: int| 0 <= i < ts.len() ==> top_level_views(ts)[i] == ts[i]@,
    decreases ts.len(),
{
    if ts.len() > 0 {
        lemma_top_level_views(ts.drop_last());
        assert(forall|i: int|
            0 <= i < ts.len() - 1 ==> top_level_views(ts)[i] == top_level_views(ts.drop_last())[i]);
        assert(forall|i: int| 0 <= i < ts.len() - 1 ==> ts.drop_last()[i] == ts[i]);
    }
}

/// A whole IR program.
#[derive(Debug)]
pub enum T {
    Program(Vec<TopLevel>),
}

/// The model of an IR program.
pub enum TV {
    Program(Seq<TopLevelV>),
}

impl View for T {
    type V = TV;

    open spec fn view(&self) -> TV {
        match self {
            T::Program(ts) => TV::Program(top_level_views(ts@)),
        }
    }
}

} // verus!
