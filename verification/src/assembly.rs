//! The assembly representation: x86-64 instructions over operands that
//! may still name pseudo registers before replacement.

use crate::initializers::StaticInit;
use vstd::prelude::*;

verus! {

/// A hardware register.
#[derive(Clone, Copy, Debug, PartialEq, Eq, Structural)]
pub enum Reg {
    AX,
    CX,
    DX,
    DI,
    SI,
    R8,
    R9,
    R10,
    R11,
    SP,
}

/// An instruction operand.
#[derive(Debug)]
pub enum Operand {
    Imm(i64),
    Reg(Reg),
    Pseudo(String),
    Stack(i64),
    Data(String),
}

/// The model of an operand.
pub enum OperandV {
    Imm(i64),
    Reg(Reg),
    Pseudo(Seq<char>),
    Stack(i64),
    Data(Seq<char>),
}

impl View for Operand {
    type V = OperandV;

    open spec fn view(&self) -> OperandV {
        match self {
            Operand::Imm(i) => OperandV::Imm(*i),
            Operand::Reg(r) => OperandV::Reg(*r),
            Operand::Pseudo(s) => OperandV::Pseudo(s@),
            Operand::Stack(i) => OperandV::Stack(*i),
            Operand::Data(s) => OperandV::Data(s@),
        }
    }
}

impl Clone for Operand {
    fn clone(&self) -> (r: Self)
        ensures
            r@ == self@,
    {
        match self {
            Operand::Imm(i) => Operand::Imm(*i),
            Operand::Reg(r) => Operand::Reg(*r),
            Operand::Pseudo(s) => Operand::Pseudo(s.clone()),
            Operand::Stack(i) => Operand::Stack(*i),
            Operand::Data(s) => Operand::Data(s.clone()),
        }
    }
}

/// A unary assembly operation.
#[derive(Clone, Copy, Debug, PartialEq, Eq, Structural)]
pub enum UnaryOperator {
    Neg,
    Not,
}

/// A binary assembly operation.
#[derive(Clone, Copy, Debug, PartialEq, Eq, Structural)]
pub enum BinaryOperator {
    Add,
    Sub,
    Mult,
}

/// A condition code for conditional jumps and set instructions.
#[derive(Clone, Copy, Debug, PartialEq, Eq, Structural)]
pub enum CondCode {
    E,
    NE,
    G,
    GE,
    L,
    LE,
}

/// An operand width: 32-bit longword or 64-bit quadword.
#[derive(Clone, Copy, Debug, PartialEq, Eq, Structural)]
pub enum AsmType {
    Longword,
    Quadword,
}

/// One assembly instruction.
#[derive(Debug)]
pub enum Instruction {
    Mov(AsmType, Operand, Operand),
    Movsx(Operand, Operand),
    Unary(UnaryOperator, AsmType, Operand),
    Binary { op: BinaryOperator, t: AsmType, src: Operand, dst: Operand },
    Cmp(AsmType, Operand, Operand),
    Idiv(AsmType, Operand),
    Cdq(AsmType),
    Jmp(String),
    JmpCC(CondCode, String),
    SetCC(CondCode, Operand),
    Label(String),
    Push(Operand),
    Call(String),
    Ret,
}

/// The model of an instruction.
pub enum InstructionV {
    Mov(AsmType, OperandV, OperandV),
    Movsx(OperandV, OperandV),
    Unary(UnaryOperator, AsmType, OperandV),
    Binary { op: BinaryOperator, t: AsmType, src: OperandV, dst: OperandV },
    Cmp(AsmType, OperandV, OperandV),
    Idiv(AsmType, OperandV),
    Cdq(AsmType),
    Jmp(Seq<char>),
    JmpCC(CondCode, Seq<char>),
    SetCC(CondCode, OperandV),
    Label(Seq<char>),
    Push(OperandV),
    Call(Seq<char>),
    Ret,
}

impl View for Instruction {
    type V = InstructionV;

    open spec fn view(&self) -> InstructionV {
        match self {
            Instruction::Mov(t, src, dst) => InstructionV::Mov(*t, src@, dst@),
            Instruction::Movsx(src, dst) => InstructionV::Movsx(src@, dst@),
            Instruction::Unary(op, t, dst) => InstructionV::Unary(*op, *t, dst@),
            Instruction::Binary { op, t, src, dst } => InstructionV::Binary {
                op: *op,
                t: *t,
                src: src@,
                dst: dst@,
            },
            Instruction::Cmp(t, src, dst) => InstructionV::Cmp(*t, src@, dst@),
            Instruction::Idiv(t, o) => InstructionV::Idiv(*t, o@),
            Instruction::Cdq(t) => InstructionV::Cdq(*t),
            Instruction::Jmp(l) => InstructionV::Jmp(l@),
            Instruction::JmpCC(cc, l) => InstructionV::JmpCC(*cc, l@),
            Instruction::SetCC(cc, o) => InstructionV::SetCC(*cc, o@),
            Instruction::Label(l) => InstructionV::Label(l@),
            Instruction::Push(o) => InstructionV::Push(o@),
            Instruction::Call(f) => InstructionV::Call(f@),
            Instruction::Ret => InstructionV::Ret,
        }
    }
}

impl Clone for Instruction {
    fn clone(&self) -> (r: Self)
        ensures
            r@ == self@,
    {
        match self {
            Instruction::Mov(t, src, dst) => Instruction::Mov(*t, src.clone(), dst.clone()),
            Instruction::Movsx(src, dst) => Instruction::Movsx(src.clone(), dst.clone()),
            Instruction::Unary(op, t, dst) => Instruction::Unary(*op, *t, dst.clone()),
            Instruction::Binary { op, t, src, dst } => Instruction::Binary {
                op: *op,
                t: *t,
                src: src.clone(),
                dst: dst.clone(),
            },
            Instruction::Cmp(t, src, dst) => Instruction::Cmp(*t, src.clone(), dst.clone()),
            Instruction::Idiv(t, o) => Instruction::Idiv(*t, o.clone()),
            Instruction::Cdq(t) => Instruction::Cdq(*t),
            Instruction::Jmp(l) => Instruction::Jmp(l.clone()),
            Instruction::JmpCC(cc, l) => Instruction::JmpCC(*cc, l.clone()),
            Instruction::SetCC(cc, o) => Instruction::SetCC(*cc, o.clone()),
            Instruction::Label(l) => Instruction::Label(l.clone()),
            Instruction::Push(o) => Instruction::Push(o.clone()),
            Instruction::Call(f) => Instruction::Call(f.clone()),
            Instruction::Ret => Instruction::Ret,
        }
    }
}

/// The operands an instruction carries, in order.
pub open spec fn instr_operands(i: InstructionV) -> Seq<OperandV> {
    match i {
        InstructionV::Mov(_, src, dst) => seq![src, dst],
        InstructionV::Movsx(src, dst) => seq![src, dst],
        InstructionV::Unary(_, _, dst) => seq![dst],
        InstructionV::Binary { op: _, t: _, src, dst } => seq![src, dst],
        InstructionV::Cmp(_, src, dst) => seq![src, dst],
        InstructionV::Idiv(_, o) => seq![o],
        InstructionV::SetCC(_, o) => seq![o],
        InstructionV::Push(o) => seq![o],
        _ => Seq::empty(),
    }
}

/// The model of an instruction sequence, element by element.
pub open spec fn instruction_views(is: Seq<Instruction>) -> Seq<InstructionV>
    decreases is,
{
    if is.len() == 0 {
        Seq::empty()
    } else {
        instruction_views(is.drop_last()).push(is.last()@)
    }
}

/// `instruction_views` maps the sequence pointwise.
pub broadcast proof fn lemma_instruction_views(is: Seq<Instruction>)
    ensures
        #[trigger] instruction_views(is).len() == is.len(),
        forall|i: int| 0 <= i < is.len() ==> instruction_views(is)[i] == is[i]@,
    decreases is.len(),
{
    if is.len() > 0 {
        lemma_instruction_views(is.drop_last());
        assert(forall|i: int|
            0 <= i < is.len() - 1 ==> instruction_views(is)[i] == instruction_views(
                is.drop_last(),
            )[i]);
        assert(forall|i: int| 0 <= i < is.len() - 1 ==> is.drop_last()[i] == is[i]);
    }
}

/// A top-level assembly item: a function or a static variable.
#[derive(Debug)]
pub enum TopLevel {
    Function { name: String, global: bool, instructions: Vec<Instruction> },
    StaticVariable { name: String, alignment: i64, global: bool, init: StaticInit },
}

/// The model of a top-level assembly item.
pub enum TopLevelV {
    Function { name: Seq<char>, global: bool, instructions: Seq<InstructionV> },
    StaticVariable { name: Seq<char>, alignment: i64, global: bool, init: StaticInit },
}

impl View for TopLevel {
    type V = TopLevelV;

    open spec fn view(&self) -> TopLevelV {
        match self {
            TopLevel::Function { name, global, instructions } => TopLevelV::Function {
                name: name@,
                global: *global,
                instructions: instruction_views(instructions@),
            },
            TopLevel::StaticVariable { name, alignment, global, init } => TopLevelV::StaticVariable {
                name: name@,
                alignment: *alignment,
                global: *global,
                init: *init,
            },
        }
    }
}

impl Clone for TopLevel {
    fn clone(&self) -> (r: Self)
        ensures
            r@ == self@,
    {
        match self {
            TopLevel::Function { name, global, instructions } => {
                let mut is: Vec<Instruction> = Vec::new();
                let mut i: usize = 0;
                while i < instructions.len()
                    invariant
                        i <= instructions.len(),
                        is@.len() == i,
                        forall|j: int| 0 <= j < i ==> (#[trigger] is@[j])@ == instructions@[j]@,
                    decreases instructions.len() - i,
                {
                    is.push(instructions[i].clone());
                    i += 1;
                }
                proof {
                    lemma_instruction_views(is@);
                    lemma_instruction_views(instructions@);
                    assert(instruction_views(is@) =~= instruction_views(instructions@));
                }
                TopLevel::Function { name: name.clone(), global: *global, instructions: is }
            },
            TopLevel::StaticVariable { name, alignment, global, init } => {
                TopLevel::StaticVariable {
                    name: name.clone(),
                    alignment: *alignment,
                    global: *global,
                    init: *init,
                }
            },
        }
    }
}

/// The model of a top-level sequence, element by element.
pub open spec fn top_level_views(ts: Seq<TopLevel>) -> Seq<TopLevelV>
    decreases ts,
{
    if ts.len() == 0 {
        Seq::empty()
    } else {
        top_level_views(ts.drop_last()).push(ts.last()@)
    }
}

/// `top_level_views` maps the sequence pointwise.
pub broadcast proof fn lemma_top_level_views(ts: Seq<TopLevel>)
    ensures
        #[trigger] top_level_views(ts).len() == ts.len(),
        forall|i: int| 0 <= i < ts.len() ==> top_level_views(ts)[i] == ts[i]@,
    decreases ts.len(),
{
    if ts.len() > 0 {
        lemma_top_level_views(ts.drop_last());
        assert(forall|i: int|
            0 <= i < ts.len() - 1 ==> top_level_views(ts)[i] == top_level_views(ts.drop_last())[i]);
        assert(forall|i: int| 0 <= i < ts.len() - 1 ==> ts.drop_last()[i] == ts[i]);
    }
}

/// A whole assembly program.
#[derive(Debug)]
pub enum T {
    Program(Vec<TopLevel>),
}

/// The model of an assembly program.
pub enum TV {
    Program(Seq<TopLevelV>),
}

impl View for T {
    type V = TV;

    open spec fn view(&self) -> TV {
        match self {
            T::Program(ts) => TV::Program(top_level_views(ts@)),
        }
    }
}

} // verus!
