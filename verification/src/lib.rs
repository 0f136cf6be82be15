#![verifier::loop_isolation(false)]
//! A compiler front and middle end for a small subset of C, targeting
//! x86-64 System V assembly in GNU syntax.
//!
//! The pipeline runs in stages: lexing, parsing, identifier resolution,
//! loop labelling, type checking, lowering to a three-address IR,
//! instruction selection into virtual-register assembly, pseudo-register
//! replacement, instruction fixup, and finally text emission.  Every stage
//! is a pure function of its inputs; the two symbol tables and the unique
//! name counter are threaded through explicitly.

pub mod assembly;
pub mod assembly_symbols;
pub mod ast;
pub mod codegen;
pub mod const_convert;
pub mod constants;
pub mod emit;
pub mod errors;
pub mod identifier_resolution;
pub mod initializers;
pub mod instruction_fixup;
pub mod ir;
pub mod ir_gen;
pub mod label_loops;
pub mod lex;
pub mod lexer;
pub mod parse;
pub mod parser;
pub mod replace_pseudos;
pub mod rounding;
pub mod symbols;
pub mod table;
pub mod text;
pub mod tokens;
pub mod unique_ids;
pub mod type_utils;
pub mod typecheck;
pub mod types;

use crate::errors::{CompileError, CompileErrorV};
use vstd::prelude::*;
use vstd::string::StringSliceAdditionalSpecFns;

verus! {

/// The whole pipeline over a source text's bytes: lexing, parsing,
/// identifier resolution, loop labelling, type checking, IR lowering,
/// instruction selection, pseudo-register replacement, instruction
/// fixup, and emission, with both symbol tables and the name counter
/// threaded through in that order from their empty starting states.
pub open spec fn spec_compile(src: Seq<u8>) -> Result<Seq<char>, CompileErrorV> {
    match lexer::spec_lex_from(src, 0) {
        Err(e) => Err(e),
        Ok(ts) => match parser::spec_parse(ts) {
            Err(e) => Err(e),
            Ok(tree) => match identifier_resolution::spec_resolve(tree, 0) {
                Err(e) => Err(e),
                Ok((resolved, c1)) => match label_loops::spec_label_loops(resolved, c1) {
                    Err(e) => Err(e),
                    Ok((labelled, c2)) => match typecheck::spec_typecheck(
                        Seq::empty(),
                        labelled,
                    ) {
                        Err(e) => Err(e),
                        Ok((table, typed)) => match ir_gen::spec_gen(typed, table, c2) {
                            Err(e) => Err(e),
                            Ok((ir_program, table2, _c3)) => match codegen::spec_gen(
                                ir_program,
                                table2,
                                Seq::empty(),
                            ) {
                                Err(e) => Err(e),
                                Ok((lowered, lowered_table)) => match lowered {
                                    assembly::TV::Program(tls) => match
                                        replace_pseudos::spec_replace_program(
                                        tls,
                                        lowered_table,
                                    ) {
                                        Err(e) => Err(e),
                                        Ok((replaced, replaced_table)) => match
                                            instruction_fixup::spec_fixup_program(
                                            replaced,
                                            replaced_table,
                                        ) {
                                            Err(e) => Err(e),
                                            Ok(fixed) => Ok(
                                                emit::spec_emit(
                                                    assembly::TV::Program(fixed),
                                                    replaced_table,
                                                ),
                                            ),
                                        },
                                    },
                                },
                            },
                        },
                    },
                },
            },
        },
    }
}

/// Two sources that lex to the same token stream compile to the same
/// result, byte for byte: after lexing, every pass is an exact function
/// of its inputs, so a reformatting that only moves whitespace - which
/// the lexer skips, leaving the token stream unchanged - leaves the
/// emitted assembly unchanged.
pub proof fn lemma_reformatting_keeps_output(a: Seq<u8>, b: Seq<u8>)
    requires
        lexer::spec_lex_from(a, 0) == lexer::spec_lex_from(b, 0),
    ensures
        spec_compile(a) == spec_compile(b),
{
}

/// Every IR variable the generated program mentions has an entry in the
/// symbol table the generation returns: the type checker binds the
/// program's own variables and only ever adds bindings, and the IR
/// lowering registers each temporary it mints as an automatic local of
/// the expression's type.
pub proof fn lemma_ir_vars_have_symbols(
    table0: Seq<(Seq<char>, symbols::EntryV)>,
    p: ast::ProgTypeV<ast::UnTypedExpV>,
    c: nat,
)
    ensures
        typecheck::spec_typecheck(table0, p) matches Ok((t1, typed)) ==> (ir_gen::spec_gen(
            typed,
            t1,
            c,
        ) matches Ok((prog, t2, c2)) ==> prog matches ir::TV::Program(tls)
            && ir_gen::tops_vars_bound(tls, t2)),
{
    if typecheck::spec_typecheck(table0, p) is Ok {
        match p {
            ast::ProgTypeV::Program(ds) => {
                typecheck::lemma_typecheck_vars(table0, ds);
                match typecheck::spec_typecheck_decls(table0, ds) {
                    Ok((t1, tds)) => {
                        ir_gen::lemma_gen_vars_bound(ast::ProgTypeV::Program(tds), t1, c);
                    },
                    _ => {},
                }
            },
        }
    }
}

/// Compiles one translation unit to GNU-syntax assembly text, exactly
/// as [`spec_compile`] says of its bytes.
pub fn compile(source: &str) -> (r: Result<String, CompileError>)
    ensures
        match r {
            Ok(text) => spec_compile(source.spec_bytes()) == Ok::<Seq<char>, CompileErrorV>(
                text@,
            ),
            Err(e) => spec_compile(source.spec_bytes()) == Err::<Seq<char>, CompileErrorV>(e@),
        },
{
    let ts = lex::lex(source)?;
    let mut p = parser::Parser::new(ts);
    let program = p.parse()?;
    let mut counter = unique_ids::Counter::new();
    let resolved = identifier_resolution::resolve(program, &mut counter)?;
    let labelled = label_loops::label_loops(resolved, &mut counter)?;
    let mut table = symbols::SymbolTable::new();
    let typed = typecheck::typecheck(&mut table, labelled)?;
    let ir_program = ir_gen::gen(typed, &mut table, &mut counter)?;
    let mut asm_table = assembly_symbols::AsmSymbolTable::new();
    let lowered = codegen::gen(&ir_program, &table, &mut asm_table)?;
    let mut replacement_state = replace_pseudos::ReplacementState::new();
    let replaced = replacement_state.replace_pseudos(lowered, &mut asm_table)?;
    let fixed = instruction_fixup::fixup_program(replaced, &asm_table)?;
    Ok(emit::emit(&fixed, &asm_table))
}

} // verus!
