//! The pass that assigns every pseudo register a home: a stack slot for
//! an automatic local, the labelled data section for a static variable.

use crate::assembly::{
    instr_operands, instruction_views, lemma_instruction_views, lemma_top_level_views,
    top_level_views, Instruction, InstructionV, Operand, OperandV, TopLevel, TopLevelV, T, TV,
};
use crate::assembly_symbols::{spec_obj_size, AsmSymbolTable, Entry};
use crate::errors::{CompileError, CompileErrorV};
use crate::table::{key_index, lemma_key_index, spec_get, spec_insert};
use vstd::arithmetic::div_mod::{lemma_fundamental_div_mod, lemma_fundamental_div_mod_converse_mod};
use vstd::prelude::*;

verus! {

/// The model of a list of assigned offsets, pair by pair.
pub open spec fn offset_views(ps: Seq<(String, i64)>) -> Seq<(Seq<char>, i64)>
    decreases ps,
{
    if ps.len() == 0 {
        Seq::empty()
    } else {
        offset_views(ps.drop_last()).push((ps.last().0@, ps.last().1))
    }
}

/// `offset_views` maps the list pointwise.
pub broadcast proof fn lemma_offset_views(ps: Seq<(String, i64)>)
    ensures
        #[trigger] offset_views(ps).len() == ps.len(),
        forall|i: int| 0 <= i < ps.len() ==> offset_views(ps)[i] == (ps[i].0@, ps[i].1),
    decreases ps.len(),
{
    if ps.len() > 0 {
        lemma_offset_views(ps.drop_last());
        assert(forall|i: int|
            0 <= i < ps.len() - 1 ==> offset_views(ps)[i] == offset_views(ps.drop_last())[i]);
        assert(forall|i: int| 0 <= i < ps.len() - 1 ==> ps.drop_last()[i] == ps[i]);
    }
}

/// The model of the per-function replacement state: the most negative
/// offset handed out so far, and the offset each pseudo received.
pub struct ReplacementStateV {
    pub current_offset: i64,
    pub offsets: Seq<(Seq<char>, i64)>,
}

/// The most negative offset the pass accepts before giving up on a
/// frame as malformed.
pub open spec fn min_stack_offset() -> int {
    -0x0fff_ffff_ffff_ff00
}

/// `x` rounded down to the nearest multiple of `a`.
pub open spec fn spec_align_down(x: int, a: int) -> int {
    x - x % a
}

/// The replacement of one operand.  A pseudo register that the assembly
/// symbol table records as static becomes a data reference; any other
/// recorded pseudo becomes the stack slot already assigned to it, or a
/// freshly assigned slot just below the deepest one, aligned to the
/// object's natural alignment.  A pseudo the table does not record as an
/// object is a malformed input.
pub open spec fn spec_replace_operand(
    st: ReplacementStateV,
    op: OperandV,
    table: Seq<(Seq<char>, Entry)>,
) -> Result<(ReplacementStateV, OperandV), CompileErrorV> {
    match op {
        OperandV::Pseudo(name) => {
            match spec_get(table, name) {
                Some(Entry::Obj { t, is_static }) => {
                    if is_static {
                        Ok((st, OperandV::Data(name)))
                    } else {
                        match spec_get(st.offsets, name) {
                            Some(off) => Ok((st, OperandV::Stack(off))),
                            None => {
                                if st.current_offset < min_stack_offset() || st.current_offset
                                    > 0 {
                                    Err(CompileErrorV::Internal)
                                } else {
                                    let size = spec_obj_size(t);
                                    let off = spec_align_down(
                                        st.current_offset - size,
                                        size,
                                    ) as i64;
                                    Ok(
                                        (
                                            ReplacementStateV {
                                                current_offset: off,
                                                offsets: spec_insert(st.offsets, name, off),
                                            },
                                            OperandV::Stack(off),
                                        ),
                                    )
                                }
                            },
                        }
                    }
                },
                _ => Err(CompileErrorV::Internal),
            }
        },
        other => Ok((st, other)),
    }
}

/// The replacement of every operand of one instruction, left to right.
pub open spec fn spec_replace_instruction(
    st: ReplacementStateV,
    instr: InstructionV,
    table: Seq<(Seq<char>, Entry)>,
) -> Result<(ReplacementStateV, InstructionV), CompileErrorV> {
    match instr {
        InstructionV::Mov(t, src, dst) => {
            match spec_replace_operand(st, src, table) {
                Err(e) => Err(e),
                Ok((st1, s)) => match spec_replace_operand(st1, dst, table) {
                    Err(e) => Err(e),
                    Ok((st2, d)) => Ok((st2, InstructionV::Mov(t, s, d))),
                },
            }
        },
        InstructionV::Movsx(src, dst) => {
            match spec_replace_operand(st, src, table) {
                Err(e) => Err(e),
                Ok((st1, s)) => match spec_replace_operand(st1, dst, table) {
                    Err(e) => Err(e),
                    Ok((st2, d)) => Ok((st2, InstructionV::Movsx(s, d))),
                },
            }
        },
        InstructionV::Unary(op, t, dst) => {
            match spec_replace_operand(st, dst, table) {
                Err(e) => Err(e),
                Ok((st1, d)) => Ok((st1, InstructionV::Unary(op, t, d))),
            }
        },
        InstructionV::Binary { op, t, src, dst } => {
            match spec_replace_operand(st, src, table) {
                Err(e) => Err(e),
                Ok((st1, s)) => match spec_replace_operand(st1, dst, table) {
                    Err(e) => Err(e),
                    Ok((st2, d)) => Ok((st2, InstructionV::Binary { op, t, src: s, dst: d })),
                },
            }
        },
        InstructionV::Cmp(t, src, dst) => {
            match spec_replace_operand(st, src, table) {
                Err(e) => Err(e),
                Ok((st1, s)) => match spec_replace_operand(st1, dst, table) {
                    Err(e) => Err(e),
                    Ok((st2, d)) => Ok((st2, InstructionV::Cmp(t, s, d))),
                },
            }
        },
        InstructionV::Idiv(t, o) => {
            match spec_replace_operand(st, o, table) {
                Err(e) => Err(e),
                Ok((st1, o1)) => Ok((st1, InstructionV::Idiv(t, o1))),
            }
        },
        InstructionV::SetCC(cc, o) => {
            match spec_replace_operand(st, o, table) {
                Err(e) => Err(e),
                Ok((st1, o1)) => Ok((st1, InstructionV::SetCC(cc, o1))),
            }
        },
        InstructionV::Push(o) => {
            match spec_replace_operand(st, o, table) {
                Err(e) => Err(e),
                Ok((st1, o1)) => Ok((st1, InstructionV::Push(o1))),
            }
        },
        other => Ok((st, other)),
    }
}

/// The replacement over an instruction sequence, in order.
pub open spec fn spec_replace_instrs(
    st: ReplacementStateV,
    instrs: Seq<InstructionV>,
    table: Seq<(Seq<char>, Entry)>,
) -> Result<(ReplacementStateV, Seq<InstructionV>), CompileErrorV>
    decreases instrs,
{
    if instrs.len() == 0 {
        Ok((st, Seq::empty()))
    } else {
        match spec_replace_instrs(st, instrs.drop_last(), table) {
            Err(e) => Err(e),
            Ok((st1, done)) => match spec_replace_instruction(st1, instrs.last(), table) {
                Err(e) => Err(e),
                Ok((st2, i)) => Ok((st2, done.push(i))),
            },
        }
    }
}

/// Once a prefix fails, the whole sequence fails the same way.
proof fn lemma_replace_instrs_err(
    st: ReplacementStateV,
    instrs: Seq<InstructionV>,
    table: Seq<(Seq<char>, Entry)>,
    i: int,
)
    requires
        0 <= i <= instrs.len(),
        spec_replace_instrs(st, instrs.subrange(0, i), table) is Err,
    ensures
        spec_replace_instrs(st, instrs, table) == spec_replace_instrs(
            st,
            instrs.subrange(0, i),
            table,
        ),
    decreases instrs.len() - i,
{
    if i < instrs.len() {
        assert(instrs.subrange(0, i + 1).drop_last() =~= instrs.subrange(0, i));
        lemma_replace_instrs_err(st, instrs, table, i + 1);
    } else {
        assert(instrs.subrange(0, i) =~= instrs);
    }
}

/// The replacement over one top-level item.  A function starts from a
/// fresh state, has its body replaced, and has the bytes its frame needs
/// recorded in the assembly symbol table; a static variable passes
/// through.
pub open spec fn spec_replace_tl(tl: TopLevelV, table: Seq<(Seq<char>, Entry)>) -> Result<
    (TopLevelV, Seq<(Seq<char>, Entry)>),
    CompileErrorV,
> {
    match tl {
        TopLevelV::Function { name, global, instructions } => {
            let st0 = ReplacementStateV { current_offset: 0, offsets: Seq::empty() };
            match spec_replace_instrs(st0, instructions, table) {
                Err(e) => Err(e),
                Ok((st, out)) => {
                    match spec_get(table, name) {
                        Some(Entry::Fun { defined, bytes_required: _ }) => {
                            Ok(
                                (
                                    TopLevelV::Function { name, global, instructions: out },
                                    spec_insert(
                                        table,
                                        name,
                                        Entry::Fun {
                                            defined,
                                            bytes_required: (-(st.current_offset as int)) as i64,
                                        },
                                    ),
                                ),
                            )
                        },
                        _ => Err(CompileErrorV::Internal),
                    }
                },
            }
        },
        static_var => Ok((static_var, table)),
    }
}

/// The replacement over a whole program, item by item, threading the
/// assembly symbol table through.
pub open spec fn spec_replace_program(
    tls: Seq<TopLevelV>,
    table: Seq<(Seq<char>, Entry)>,
) -> Result<(Seq<TopLevelV>, Seq<(Seq<char>, Entry)>), CompileErrorV>
    decreases tls,
{
    if tls.len() == 0 {
        Ok((Seq::empty(), table))
    } else {
        match spec_replace_program(tls.drop_last(), table) {
            Err(e) => Err(e),
            Ok((done, table1)) => match spec_replace_tl(tls.last(), table1) {
                Err(e) => Err(e),
                Ok((tl, table2)) => Ok((done.push(tl), table2)),
            },
        }
    }
}

/// Once a prefix fails, the whole program fails the same way.
proof fn lemma_replace_program_err(
    tls: Seq<TopLevelV>,
    table: Seq<(Seq<char>, Entry)>,
    i: int,
)
    requires
        0 <= i <= tls.len(),
        spec_replace_program(tls.subrange(0, i), table) is Err,
    ensures
        spec_replace_program(tls, table) == spec_replace_program(tls.subrange(0, i), table),
    decreases tls.len() - i,
{
    if i < tls.len() {
        assert(tls.subrange(0, i + 1).drop_last() =~= tls.subrange(0, i));
        lemma_replace_program_err(tls, table, i + 1);
    } else {
        assert(tls.subrange(0, i) =~= tls);
    }
}

/// The per-function replacement state.
pub struct ReplacementState {
    pub current_offset: i64,
    offset_map: Vec<(String, i64)>,
}

impl View for ReplacementState {
    type V = ReplacementStateV;

    closed spec fn view(&self) -> ReplacementStateV {
        ReplacementStateV {
            current_offset: self.current_offset,
            offsets: offset_views(self.offset_map@),
        }
    }
}

impl ReplacementState {
    /// A fresh state, with no offsets handed out.
    pub fn new() -> (st: ReplacementState)
        ensures
            st@.current_offset == 0,
            st@.offsets == Seq::<(Seq<char>, i64)>::empty(),
    {
        let st = ReplacementState { current_offset: 0, offset_map: Vec::new() };
        proof {
            assert(st@.offsets =~= Seq::<(Seq<char>, i64)>::empty());
        }
        st
    }

    /// The index of the offset assigned to `name`, if any.
    fn find(&self, name: &String) -> (r: Option<usize>)
        ensures
            match r {
                Some(i) => 0 <= i < self@.offsets.len() && key_index(self@.offsets, name@) == i,
                None => key_index(self@.offsets, name@) == -1,
            },
    {
        proof {
            lemma_offset_views(self.offset_map@);
        }
        let mut i: usize = 0;
        while i < self.offset_map.len()
            invariant
                i <= self.offset_map.len(),
                key_index(self@.offsets, name@) >= 0 ==> key_index(self@.offsets, name@) >= i,
            decreases self.offset_map.len() - i,
        {
            if self.offset_map[i].0 == *name {
                proof {
                    lemma_key_index(self@.offsets, name@);
                    assert(self@.offsets[i as int].0 == name@);
                    if key_index(self@.offsets, name@) == -1 {
                        assert(false);
                    }
                    assert(key_index(self@.offsets, name@) <= i) by {
                        if key_index(self@.offsets, name@) > i {
                            assert(self@.offsets[i as int].0 != name@);
                        }
                    }
                }
                return Some(i);
            }
            proof {
                lemma_key_index(self@.offsets, name@);
                if key_index(self@.offsets, name@) == i {
                    assert(self@.offsets[i as int].0 == name@);
                }
            }
            i += 1;
        }
        proof {
            lemma_key_index(self@.offsets, name@);
        }
        None
    }

    /// Assigns `name` the offset `off`.
    fn record(&mut self, name: String, off: i64)
        ensures
            final(self)@.current_offset == off,
            final(self)@.offsets == spec_insert(old(self)@.offsets, name@, off),
    {
        proof {
            lemma_offset_views(self.offset_map@);
        }
        let found = self.find(&name);
        self.current_offset = off;
        match found {
            Some(i) => {
                self.offset_map.set(i, (name, off));
                proof {
                    lemma_offset_views(self.offset_map@);
                    lemma_offset_views(old(self).offset_map@);
                    assert(final(self)@.offsets =~= old(self)@.offsets.update(
                        key_index(old(self)@.offsets, name@),
                        (name@, off),
                    ));
                }
            },
            None => {
                self.offset_map.push((name, off));
                proof {
                    lemma_offset_views(self.offset_map@);
                    lemma_offset_views(old(self).offset_map@);
                    assert(final(self)@.offsets =~= old(self)@.offsets.push((name@, off)));
                }
            },
        }
    }

    /// Replaces one operand, assigning a stack slot if needed.
    fn replace_operand(&mut self, operand: Operand, table: &AsmSymbolTable) -> (r: Result<
        Operand,
        CompileError,
    >)
        ensures
            match r {
                Ok(o) => spec_replace_operand(old(self)@, operand@, table@) == Ok::<
                    _,
                    CompileErrorV,
                >((final(self)@, o@)),
                Err(e) => spec_replace_operand(old(self)@, operand@, table@) == Err::<
                    (ReplacementStateV, OperandV),
                    _,
                >(e@) && final(self)@ == old(self)@,
            },
    {
        match operand {
            Operand::Pseudo(name) => {
                match table.get_opt(&name) {
                    Some(Entry::Obj { t, is_static }) => {
                        if is_static {
                            Ok(Operand::Data(name))
                        } else {
                            match self.find(&name) {
                                Some(i) => {
                                    proof {
                                        lemma_offset_views(self.offset_map@);
                                        lemma_key_index(self@.offsets, name@);
                                    }
                                    let off = self.offset_map[i].1;
                                    Ok(Operand::Stack(off))
                                },
                                None => {
                                    if self.current_offset < -0x0fff_ffff_ffff_ff00i64
                                        || self.current_offset > 0 {
                                        Err(CompileError::Internal)
                                    } else {
                                        let size: i64 = match t {
                                            crate::assembly::AsmType::Longword => 4,
                                            crate::assembly::AsmType::Quadword => 8,
                                        };
                                        let x = self.current_offset - size;
                                        let m: i64 = -x;
                                        let rem: i64 = m % size;
                                        let off: i64 = if rem == 0 {
                                            x
                                        } else {
                                            -(m + (size - rem))
                                        };
                                        proof {
                                            lemma_fundamental_div_mod(m as int, size as int);
                                            let q = (m as int) / (size as int);
                                            if rem == 0 {
                                                assert(x as int == (-q) * (size as int))
                                                    by (nonlinear_arith)
                                                    requires
                                                        m as int == (size as int) * q,
                                                        x as int == -(m as int),
                                                ;
                                                lemma_fundamental_div_mod_converse_mod(
                                                    x as int,
                                                    size as int,
                                                    -q,
                                                    0,
                                                );
                                            } else {
                                                assert(x as int == (-q - 1) * (size as int) + (
                                                (size as int) - (rem as int))) by (nonlinear_arith)
                                                    requires
                                                        m as int == (size as int) * q + (
                                                        rem as int),
                                                        x as int == -(m as int),
                                                ;
                                                lemma_fundamental_div_mod_converse_mod(
                                                    x as int,
                                                    size as int,
                                                    -q - 1,
                                                    (size as int) - (rem as int),
                                                );
                                                assert(off as int == x as int - (x as int) % (
                                                size as int));
                                            }
                                        }
                                        self.record(name, off);
                                        Ok(Operand::Stack(off))
                                    }
                                },
                            }
                        }
                    },
                    _ => Err(CompileError::Internal),
                }
            },
            other => Ok(other),
        }
    }

    /// Replaces every operand of one instruction.
    fn replace_pseudos_in_instruction(
        &mut self,
        instruction: Instruction,
        table: &AsmSymbolTable,
    ) -> (r: Result<Instruction, CompileError>)
        ensures
            match r {
                Ok(i) => spec_replace_instruction(old(self)@, instruction@, table@) == Ok::<
                    _,
                    CompileErrorV,
                >((final(self)@, i@)),
                Err(e) => spec_replace_instruction(old(self)@, instruction@, table@) == Err::<
                    (ReplacementStateV, InstructionV),
                    _,
                >(e@),
            },
    {
        match instruction {
            Instruction::Mov(t, src, dst) => {
                let s = self.replace_operand(src, table)?;
                let d = self.replace_operand(dst, table)?;
                Ok(Instruction::Mov(t, s, d))
            },
            Instruction::Movsx(src, dst) => {
                let s = self.replace_operand(src, table)?;
                let d = self.replace_operand(dst, table)?;
                Ok(Instruction::Movsx(s, d))
            },
            Instruction::Unary(op, t, dst) => {
                let d = self.replace_operand(dst, table)?;
                Ok(Instruction::Unary(op, t, d))
            },
            Instruction::Binary { op, t, src, dst } => {
                let s = self.replace_operand(src, table)?;
                let d = self.replace_operand(dst, table)?;
                Ok(Instruction::Binary { op, t, src: s, dst: d })
            },
            Instruction::Cmp(t, src, dst) => {
                let s = self.replace_operand(src, table)?;
                let d = self.replace_operand(dst, table)?;
                Ok(Instruction::Cmp(t, s, d))
            },
            Instruction::Idiv(t, o) => {
                let o1 = self.replace_operand(o, table)?;
                Ok(Instruction::Idiv(t, o1))
            },
            Instruction::SetCC(cc, o) => {
                let o1 = self.replace_operand(o, table)?;
                Ok(Instruction::SetCC(cc, o1))
            },
            Instruction::Push(o) => {
                let o1 = self.replace_operand(o, table)?;
                Ok(Instruction::Push(o1))
            },
            other => Ok(other),
        }
    }

    /// Replaces the pseudo registers of one top-level item, recording the
    /// stack bytes its frame needs.
    fn replace_pseudos_in_tl(&mut self, f: TopLevel, table: &mut AsmSymbolTable) -> (r: Result<
        TopLevel,
        CompileError,
    >)
        ensures
            match r {
                Ok(out) => spec_replace_tl(f@, old(table)@) == Ok::<_, CompileErrorV>(
                    (out@, final(table)@),
                ),
                Err(e) => spec_replace_tl(f@, old(table)@) == Err::<
                    (TopLevelV, Seq<(Seq<char>, Entry)>),
                    _,
                >(e@),
            },
    {
        match f {
            TopLevel::Function { name, global, instructions } => {
                self.current_offset = 0;
                self.offset_map = Vec::new();
                proof {
                    assert(self@.offsets =~= Seq::<(Seq<char>, i64)>::empty());
                }
                let ghost st0 = self@;
                let ghost all = instruction_views(instructions@);
                let mut out: Vec<Instruction> = Vec::new();
                proof {
                    lemma_instruction_views(instructions@);
                    lemma_instruction_views(out@);
                    assert(all.subrange(0, 0) =~= Seq::<InstructionV>::empty());
                    assert(instruction_views(out@) =~= Seq::<InstructionV>::empty());
                }
                let mut i: usize = 0;
                while i < instructions.len()
                    invariant
                        i <= instructions.len(),
                        spec_replace_instrs(st0, all.subrange(0, i as int), table@) == Ok::<
                            _,
                            CompileErrorV,
                        >((self@, instruction_views(out@))),
                    decreases instructions.len() - i,
                {
                    proof {
                        lemma_instruction_views(instructions@);
                    }
                    let ir = self.replace_pseudos_in_instruction(instructions[i].clone(), table);
                    match ir {
                        Ok(instr) => {
                            let ghost out_before = out@;
                            out.push(instr);
                            proof {
                                lemma_instruction_views(out@);
                                lemma_instruction_views(out_before);
                                assert(instruction_views(out@) =~= instruction_views(
                                    out_before,
                                ).push(instr@));
                                assert(all.subrange(0, i + 1).drop_last() =~= all.subrange(
                                    0,
                                    i as int,
                                ));
                                assert(all.subrange(0, i + 1).last() == instructions@[i as int]@);
                            }
                        },
                        Err(e) => {
                            proof {
                                assert(all.subrange(0, i + 1).drop_last() =~= all.subrange(
                                    0,
                                    i as int,
                                ));
                                assert(all.subrange(0, i + 1).last() == instructions@[i as int]@);
                                lemma_replace_instrs_err(st0, all, table@, i + 1);
                            }
                            return Err(e);
                        },
                    }
                    i += 1;
                }
                proof {
                    assert(all.subrange(0, instructions@.len() as int) =~= all);
                }
                proof {
                    lemma_replace_instrs_offset_bound(st0, all, table@);
                }
                match table.get_opt(&name) {
                    Some(Entry::Fun { defined: _, bytes_required: _ }) => {
                        let bytes = -self.current_offset;
                        table.set_bytes_required(&name, bytes);
                        Ok(TopLevel::Function { name, global, instructions: out })
                    },
                    _ => Err(CompileError::Internal),
                }
            },
            static_var => Ok(static_var),
        }
    }

    /// Replaces every pseudo register of a program and records each
    /// function's frame size in the assembly symbol table.
    pub fn replace_pseudos(&mut self, program: T, table: &mut AsmSymbolTable) -> (r: Result<
        T,
        CompileError,
    >)
        ensures
            match r {
                Ok(out) => {
                    &&& program@ matches TV::Program(tls)
                    &&& out@ matches TV::Program(fixed) && spec_replace_program(tls, old(table)@)
                        == Ok::<_, CompileErrorV>((fixed, final(table)@))
                },
                Err(e) => {
                    &&& program@ matches TV::Program(tls)
                    &&& spec_replace_program(tls, old(table)@) == Err::<
                        (Seq<TopLevelV>, Seq<(Seq<char>, Entry)>),
                        _,
                    >(e@)
                },
            },
    {
        match program {
            T::Program(tls) => {
                let ghost all = top_level_views(tls@);
                let mut out: Vec<TopLevel> = Vec::new();
                proof {
                    lemma_top_level_views(tls@);
                    lemma_top_level_views(out@);
                    assert(all.subrange(0, 0) =~= Seq::<TopLevelV>::empty());
                    assert(top_level_views(out@) =~= Seq::<TopLevelV>::empty());
                }
                let mut i: usize = 0;
                while i < tls.len()
                    invariant
                        i <= tls.len(),
                        spec_replace_program(all.subrange(0, i as int), old(table)@) == Ok::<
                            _,
                            CompileErrorV,
                        >((top_level_views(out@), table@)),
                    decreases tls.len() - i,
                {
                    proof {
                        lemma_top_level_views(tls@);
                    }
                    let tr = self.replace_pseudos_in_tl(tls[i].clone(), table);
                    match tr {
                        Ok(tl) => {
                            let ghost out_before = out@;
                            out.push(tl);
                            proof {
                                lemma_top_level_views(out@);
                                lemma_top_level_views(out_before);
                                assert(top_level_views(out@) =~= top_level_views(out_before).push(
                                    tl@,
                                ));
                                assert(all.subrange(0, i + 1).drop_last() =~= all.subrange(
                                    0,
                                    i as int,
                                ));
                                assert(all.subrange(0, i + 1).last() == tls@[i as int]@);
                            }
                        },
                        Err(e) => {
                            proof {
                                assert(all.subrange(0, i + 1).drop_last() =~= all.subrange(
                                    0,
                                    i as int,
                                ));
                                assert(all.subrange(0, i + 1).last() == tls@[i as int]@);
                                lemma_replace_program_err(all, old(table)@, i + 1);
                            }
                            return Err(e);
                        },
                    }
                    i += 1;
                }
                proof {
                    assert(all.subrange(0, tls@.len() as int) =~= all);
                }
                Ok(T::Program(out))
            },
        }
    }
}

/// A replaced operand is never a pseudo register.
pub broadcast proof fn lemma_replaced_operand_not_pseudo(
    st: ReplacementStateV,
    op: OperandV,
    table: Seq<(Seq<char>, Entry)>,
)
    ensures
        #[trigger] spec_replace_operand(st, op, table) matches Ok((st1, o)) ==> !(o is Pseudo),
{
}

/// No operand of a replaced instruction is a pseudo register.
proof fn lemma_replace_instruction_no_pseudo(
    st: ReplacementStateV,
    instr: InstructionV,
    table: Seq<(Seq<char>, Entry)>,
)
    ensures
        spec_replace_instruction(st, instr, table) matches Ok((st1, out)) ==> forall|k: int|
            0 <= k < instr_operands(out).len() ==> !(#[trigger] instr_operands(out)[k] is Pseudo),
{
    broadcast use lemma_replaced_operand_not_pseudo;

}

/// After pseudo replacement, no pseudo operand remains in the
/// instruction stream.
pub proof fn lemma_no_pseudo_after_replacement(
    st: ReplacementStateV,
    instrs: Seq<InstructionV>,
    table: Seq<(Seq<char>, Entry)>,
)
    ensures
        spec_replace_instrs(st, instrs, table) matches Ok((st1, out)) ==> forall|j: int, k: int|
            #![trigger instr_operands(out[j])[k]]
            0 <= j < out.len() && 0 <= k < instr_operands(out[j]).len() ==> !(instr_operands(
                out[j],
            )[k] is Pseudo),
    decreases instrs,
{
    if instrs.len() > 0 && spec_replace_instrs(st, instrs, table) is Ok {
        lemma_no_pseudo_after_replacement(st, instrs.drop_last(), table);
        let (st1, done) = spec_replace_instrs(st, instrs.drop_last(), table)->Ok_0;
        lemma_replace_instruction_no_pseudo(st1, instrs.last(), table);
        let out = spec_replace_instrs(st, instrs, table)->Ok_0.1;
        assert(forall|j: int| 0 <= j < done.len() ==> out[j] == done[j]);
        assert(out[out.len() - 1] == spec_replace_instruction(st1, instrs.last(), table)->Ok_0.1);
    }
}

/// One operand step only moves the offset down, and never past the
/// floor by more than one aligned slot.
proof fn lemma_replace_operand_offset_bound(
    st: ReplacementStateV,
    op: OperandV,
    table: Seq<(Seq<char>, Entry)>,
)
    requires
        min_stack_offset() - 16 <= st.current_offset <= 0,
    ensures
        spec_replace_operand(st, op, table) matches Ok((st1, o)) ==> min_stack_offset() - 16
            <= st1.current_offset <= st.current_offset,
{
    match op {
        OperandV::Pseudo(name) => {
            match spec_get(table, name) {
                Some(Entry::Obj { t, is_static }) => {
                    if !is_static && spec_get(st.offsets, name) is None && min_stack_offset()
                        <= st.current_offset <= 0 {
                        let size = spec_obj_size(t);
                        let x = st.current_offset - size;
                        vstd::arithmetic::div_mod::lemma_mod_division_less_than_divisor(
                            x as int,
                            size,
                        );
                    }
                },
                _ => {},
            }
        },
        _ => {},
    }
}

/// One instruction step keeps the same offset bounds.
proof fn lemma_replace_instruction_offset_bound(
    st: ReplacementStateV,
    instr: InstructionV,
    table: Seq<(Seq<char>, Entry)>,
)
    requires
        min_stack_offset() - 16 <= st.current_offset <= 0,
    ensures
        spec_replace_instruction(st, instr, table) matches Ok((st1, out)) ==> min_stack_offset()
            - 16 <= st1.current_offset <= st.current_offset,
{
    match instr {
        InstructionV::Mov(_, src, dst) => {
            lemma_replace_operand_offset_bound(st, src, table);
            match spec_replace_operand(st, src, table) {
                Ok((st1, _)) => lemma_replace_operand_offset_bound(st1, dst, table),
                _ => {},
            }
        },
        InstructionV::Movsx(src, dst) => {
            lemma_replace_operand_offset_bound(st, src, table);
            match spec_replace_operand(st, src, table) {
                Ok((st1, _)) => lemma_replace_operand_offset_bound(st1, dst, table),
                _ => {},
            }
        },
        InstructionV::Unary(_, _, dst) => {
            lemma_replace_operand_offset_bound(st, dst, table);
        },
        InstructionV::Binary { op: _, t: _, src, dst } => {
            lemma_replace_operand_offset_bound(st, src, table);
            match spec_replace_operand(st, src, table) {
                Ok((st1, _)) => lemma_replace_operand_offset_bound(st1, dst, table),
                _ => {},
            }
        },
        InstructionV::Cmp(_, src, dst) => {
            lemma_replace_operand_offset_bound(st, src, table);
            match spec_replace_operand(st, src, table) {
                Ok((st1, _)) => lemma_replace_operand_offset_bound(st1, dst, table),
                _ => {},
            }
        },
        InstructionV::Idiv(_, o) => {
            lemma_replace_operand_offset_bound(st, o, table);
        },
        InstructionV::SetCC(_, o) => {
            lemma_replace_operand_offset_bound(st, o, table);
        },
        InstructionV::Push(o) => {
            lemma_replace_operand_offset_bound(st, o, table);
        },
        _ => {},
    }
}

/// After pseudo replacement, the program has the same top-level items in
/// the same order, no pseudo operand remains in any function body, and
/// every static variable passes through unchanged.
pub proof fn lemma_no_pseudo_program(tls: Seq<TopLevelV>, table: Seq<(Seq<char>, Entry)>)
    ensures
        spec_replace_program(tls, table) matches Ok((out, table2)) ==> {
            &&& out.len() == tls.len()
            &&& forall|m: int, j: int, k: int|
                #![trigger instr_operands(out[m]->instructions[j])[k]]
                0 <= m < out.len() && out[m] is Function && 0 <= j < out[m]->instructions.len()
                    && 0 <= k < instr_operands(out[m]->instructions[j]).len() ==> !(instr_operands(
                    out[m]->instructions[j],
                )[k] is Pseudo)
            &&& forall|m: int|
                0 <= m < tls.len() && tls[m] is StaticVariable ==> #[trigger] out[m] == tls[m]
        },
    decreases tls,
{
    if tls.len() > 0 && spec_replace_program(tls, table) is Ok {
        lemma_no_pseudo_program(tls.drop_last(), table);
        match spec_replace_program(tls.drop_last(), table) {
            Ok((done, table1)) => {
                let out = spec_replace_program(tls, table)->Ok_0.0;
                assert(forall|m: int| 0 <= m < done.len() ==> out[m] == done[m]);
                assert(forall|m: int|
                    0 <= m < tls.len() - 1 ==> tls.drop_last()[m] == tls[m]);
                match tls.last() {
                    TopLevelV::Function { name, global, instructions } => {
                        let st0 = ReplacementStateV {
                            current_offset: 0,
                            offsets: Seq::empty(),
                        };
                        lemma_no_pseudo_after_replacement(st0, instructions, table1);
                    },
                    _ => {},
                }
            },
            _ => {},
        }
    }
}

/// Every offset the state has handed out lies at or above the deepest
/// one.
pub open spec fn offsets_ok(st: ReplacementStateV) -> bool {
    forall|k: int| 0 <= k < st.offsets.len() ==> (#[trigger] st.offsets[k]).1 >= st.current_offset
}

/// One operand step keeps the handed-out offsets at or above the
/// deepest, and any negative stack slot it returns is a handed-out one
/// unless the operand already was that slot.
proof fn lemma_replace_operand_slots(
    st: ReplacementStateV,
    op: OperandV,
    table: Seq<(Seq<char>, Entry)>,
)
    requires
        offsets_ok(st),
        st.current_offset <= 0,
    ensures
        spec_replace_operand(st, op, table) matches Ok((st1, o)) ==> offsets_ok(st1)
            && st1.current_offset <= st.current_offset && st1.current_offset <= 0 && (o is Stack
            && o->Stack_0 < 0 ==> (o->Stack_0 >= st1.current_offset || o == op)),
{
    match op {
        OperandV::Pseudo(name) => {
            match spec_get(table, name) {
                Some(Entry::Obj { t, is_static }) => {
                    if !is_static {
                        match spec_get(st.offsets, name) {
                            Some(off) => {
                                lemma_key_index(st.offsets, name);
                            },
                            None => {
                                if min_stack_offset() <= st.current_offset <= 0 {
                                    let size = spec_obj_size(t);
                                    let x = st.current_offset - size;
                                    vstd::arithmetic::div_mod::lemma_mod_division_less_than_divisor(
                                        x as int,
                                        size,
                                    );
                                    let off = spec_align_down(x as int, size) as i64;
                                    let st1 = ReplacementStateV {
                                        current_offset: off,
                                        offsets: spec_insert(st.offsets, name, off),
                                    };
                                    lemma_key_index(st.offsets, name);
                                    assert forall|k: int|
                                        0 <= k < st1.offsets.len() implies (#[trigger] st1.offsets[
                                        k]).1 >= st1.current_offset by {
                                        if key_index(st.offsets, name) < 0 {
                                            assert(st1.offsets =~= st.offsets.push((name, off)));
                                        } else {
                                            assert(st1.offsets =~= st.offsets.update(
                                                key_index(st.offsets, name),
                                                (name, off),
                                            ));
                                        }
                                    }
                                }
                            },
                        }
                    }
                },
                _ => {},
            }
        },
        _ => {},
    }
}

/// One instruction step keeps the handed-out offsets at or above the
/// deepest, and every negative stack slot it writes is within them,
/// provided the instruction read no negative slot itself.
proof fn lemma_replace_instruction_slots(
    st: ReplacementStateV,
    instr: InstructionV,
    table: Seq<(Seq<char>, Entry)>,
)
    requires
        offsets_ok(st),
        st.current_offset <= 0,
        forall|k: int|
            0 <= k < instr_operands(instr).len() && (#[trigger] instr_operands(instr)[k])
                is Stack ==> instr_operands(instr)[k]->Stack_0 >= 0,
    ensures
        spec_replace_instruction(st, instr, table) matches Ok((st1, out)) ==> offsets_ok(st1)
            && st1.current_offset <= st.current_offset && st1.current_offset <= 0 && forall|k: int|
            0 <= k < instr_operands(out).len() && (#[trigger] instr_operands(out)[k]) is Stack
                && instr_operands(out)[k]->Stack_0 < 0 ==> instr_operands(out)[k]->Stack_0
                >= st1.current_offset,
{
    match instr {
        InstructionV::Mov(_, src, dst) => {
            lemma_replace_operand_slots(st, src, table);
            match spec_replace_operand(st, src, table) {
                Ok((st1, _)) => lemma_replace_operand_slots(st1, dst, table),
                _ => {},
            }
        },
        InstructionV::Movsx(src, dst) => {
            lemma_replace_operand_slots(st, src, table);
            match spec_replace_operand(st, src, table) {
                Ok((st1, _)) => lemma_replace_operand_slots(st1, dst, table),
                _ => {},
            }
        },
        InstructionV::Unary(_, _, dst) => {
            lemma_replace_operand_slots(st, dst, table);
        },
        InstructionV::Binary { op: _, t: _, src, dst } => {
            lemma_replace_operand_slots(st, src, table);
            match spec_replace_operand(st, src, table) {
                Ok((st1, _)) => lemma_replace_operand_slots(st1, dst, table),
                _ => {},
            }
        },
        InstructionV::Cmp(_, src, dst) => {
            lemma_replace_operand_slots(st, src, table);
            match spec_replace_operand(st, src, table) {
                Ok((st1, _)) => lemma_replace_operand_slots(st1, dst, table),
                _ => {},
            }
        },
        InstructionV::Idiv(_, o) => {
            lemma_replace_operand_slots(st, o, table);
        },
        InstructionV::SetCC(_, o) => {
            lemma_replace_operand_slots(st, o, table);
        },
        InstructionV::Push(o) => {
            lemma_replace_operand_slots(st, o, table);
        },
        _ => {},
    }
}

/// Over a whole body, every negative stack slot lies within the deepest
/// offset handed out, provided the body read no negative slot before
/// replacement.
proof fn lemma_replace_instrs_slots(
    st: ReplacementStateV,
    instrs: Seq<InstructionV>,
    table: Seq<(Seq<char>, Entry)>,
)
    requires
        offsets_ok(st),
        st.current_offset <= 0,
        crate::codegen::no_negative_stack(instrs),
    ensures
        spec_replace_instrs(st, instrs, table) matches Ok((st1, out)) ==> offsets_ok(st1)
            && st1.current_offset <= st.current_offset && st1.current_offset <= 0 && forall|
            j: int,
            k: int,
        |
            #![trigger instr_operands(out[j])[k]]
            0 <= j < out.len() && 0 <= k < instr_operands(out[j]).len() && instr_operands(
                out[j],
            )[k] is Stack && instr_operands(out[j])[k]->Stack_0 < 0 ==> instr_operands(
                out[j],
            )[k]->Stack_0 >= st1.current_offset,
    decreases instrs,
{
    if instrs.len() > 0 && spec_replace_instrs(st, instrs, table) is Ok {
        assert(crate::codegen::no_negative_stack(instrs.drop_last())) by {
            assert(forall|j: int|
                0 <= j < instrs.len() - 1 ==> instrs.drop_last()[j] == instrs[j]);
        }
        lemma_replace_instrs_slots(st, instrs.drop_last(), table);
        match spec_replace_instrs(st, instrs.drop_last(), table) {
            Ok((st1, done)) => {
                assert(forall|k: int|
                    0 <= k < instr_operands(instrs.last()).len() && (#[trigger] instr_operands(
                        instrs.last(),
                    )[k]) is Stack ==> instr_operands(instrs.last())[k]->Stack_0 >= 0) by {
                    assert(instrs[instrs.len() - 1] == instrs.last());
                    assert(forall|k: int|
                        0 <= k < instr_operands(instrs[instrs.len() - 1]).len() ==> instr_operands(
                            instrs[instrs.len() - 1],
                        )[k] == instr_operands(instrs.last())[k]);
                }
                lemma_replace_instruction_slots(st1, instrs.last(), table);
                match spec_replace_instruction(st1, instrs.last(), table) {
                    Ok((st2, last_out)) => {
                        let out = spec_replace_instrs(st, instrs, table)->Ok_0.1;
                        assert(forall|j: int| 0 <= j < done.len() ==> out[j] == done[j]);
                        assert(out[out.len() - 1] == last_out);
                    },
                    _ => {},
                }
            },
            _ => {},
        }
    }
}

/// After pseudo replacement, each function's body references stack
/// slots only within the frame size recorded for it: for every
/// `Stack(offset)` operand with a negative offset, `-offset` is at most
/// the function's recorded `bytes_required`.  This is the premise the
/// fixup pass's prologue coverage rests on; stack slots the body read
/// before replacement (incoming stack arguments) are all nonnegative, as
/// instruction selection guarantees.
pub proof fn lemma_replaced_function_slots(tl: TopLevelV, table: Seq<(Seq<char>, Entry)>)
    requires
        tl is Function,
        crate::codegen::no_negative_stack(tl->instructions),
        spec_replace_tl(tl, table) is Ok,
    ensures
        spec_replace_tl(tl, table) matches Ok((out, table2)) ==> {
            &&& out is Function
            &&& spec_get(table2, tl->Function_name) matches Some(Entry::Fun {
                defined: _,
                bytes_required,
            })
            &&& 0 <= spec_get(table2, tl->Function_name)->Some_0->bytes_required
                <= crate::instruction_fixup::max_stack_bytes()
            &&& forall|j: int, k: int|
                #![trigger instr_operands(out->instructions[j])[k]]
                0 <= j < out->instructions.len() && 0 <= k < instr_operands(
                    out->instructions[j],
                ).len() && instr_operands(out->instructions[j])[k] is Stack && instr_operands(
                    out->instructions[j],
                )[k]->Stack_0 < 0 ==> -instr_operands(out->instructions[j])[k]->Stack_0
                    <= spec_get(table2, tl->Function_name)->Some_0->bytes_required
        },
{
    let st0 = ReplacementStateV { current_offset: 0, offsets: Seq::empty() };
    lemma_replace_instrs_slots(st0, tl->instructions, table);
    lemma_replace_instrs_offset_bound(st0, tl->instructions, table);
    match spec_replace_instrs(st0, tl->instructions, table) {
        Ok((st1, out_instrs)) => {
            match spec_get(table, tl->Function_name) {
                Some(Entry::Fun { defined, bytes_required: _ }) => {
                    crate::table::lemma_spec_insert(
                        table,
                        tl->Function_name,
                        Entry::Fun {
                            defined,
                            bytes_required: (-(st1.current_offset as int)) as i64,
                        },
                    );
                },
                _ => {},
            }
        },
        _ => {},
    }
}

/// Offsets only move down, and never past the floor by more than one
/// aligned slot.
proof fn lemma_replace_instrs_offset_bound(
    st: ReplacementStateV,
    instrs: Seq<InstructionV>,
    table: Seq<(Seq<char>, Entry)>,
)
    requires
        min_stack_offset() - 16 <= st.current_offset <= 0,
    ensures
        spec_replace_instrs(st, instrs, table) matches Ok((st1, out)) ==> min_stack_offset() - 16
            <= st1.current_offset <= st.current_offset,
    decreases instrs,
{
    if instrs.len() > 0 && spec_replace_instrs(st, instrs, table) is Ok {
        lemma_replace_instrs_offset_bound(st, instrs.drop_last(), table);
        match spec_replace_instrs(st, instrs.drop_last(), table) {
            Ok((st1, _)) => lemma_replace_instruction_offset_bound(st1, instrs.last(), table),
            _ => {},
        }
    }
}

} // verus!
