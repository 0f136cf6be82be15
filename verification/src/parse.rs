//! The entry point that parses a whole token stream.

use crate::ast::{ProgTypeV, UnTypedExpV, UntypedProgType};
use crate::errors::{CompileError, CompileErrorV};
use crate::parser::{spec_parse, Parser};
use crate::tokens;
use crate::tokens::token_views;
use vstd::prelude::*;

verus! {

/// Parses a token stream into the untyped tree that [`spec_parse`] gives
/// it: the declarations of the unit, up to the end-of-file marker.
pub fn parse(tokens: Vec<tokens::T>) -> (r: Result<UntypedProgType, CompileError>)
    ensures
        match r {
            Ok(tree) => spec_parse(token_views(tokens@)) == Ok::<
                ProgTypeV<UnTypedExpV>,
                CompileErrorV,
            >(tree@),
            Err(e) => spec_parse(token_views(tokens@)) == Err::<
                ProgTypeV<UnTypedExpV>,
                CompileErrorV,
            >(e@),
        },
{
    let mut p = Parser::new(tokens);
    p.parse()
}

} // verus!
