//! The entry point that lexes a whole source text.

use crate::errors::CompileError;
use crate::lexer::{spec_id_token, Lexer};
use crate::tokens;
use crate::tokens::token_views;
use vstd::prelude::*;
use vstd::string::StringSliceAdditionalSpecFns;

verus! {

/// The token of an identifier's text: the keyword it spells, or an
/// identifier token carrying it.
pub fn id_to_tok(s: String) -> (t: tokens::T)
    ensures
        t@ == spec_id_token(s@),
{
    if s == String::from_str("int") {
        tokens::T::KWInt
    } else if s == String::from_str("long") {
        tokens::T::KWLong
    } else if s == String::from_str("return") {
        tokens::T::KWReturn
    } else if s == String::from_str("void") {
        tokens::T::KWVoid
    } else if s == String::from_str("if") {
        tokens::T::KWIf
    } else if s == String::from_str("else") {
        tokens::T::KWElse
    } else if s == String::from_str("do") {
        tokens::T::KWDo
    } else if s == String::from_str("while") {
        tokens::T::KWWhile
    } else if s == String::from_str("for") {
        tokens::T::KWFor
    } else if s == String::from_str("break") {
        tokens::T::KWBreak
    } else if s == String::from_str("continue") {
        tokens::T::KWContinue
    } else if s == String::from_str("static") {
        tokens::T::KWStatic
    } else if s == String::from_str("extern") {
        tokens::T::KWExtern
    } else {
        tokens::T::Identifier(s)
    }
}

/// Lexes a whole source text into the token stream that
/// [`crate::lexer::spec_lex_from`] gives its bytes, ending in the
/// end-of-file marker.
pub fn lex(input: &str) -> (r: Result<Vec<tokens::T>, CompileError>)
    ensures
        match r {
            Ok(ts) => crate::lexer::spec_lex_from(input.spec_bytes(), 0) == Ok::<
                Seq<crate::tokens::TokenV>,
                crate::errors::CompileErrorV,
            >(token_views(ts@)) && ts@.len() >= 1 && ts@[ts@.len() - 1]@ is Eof,
            Err(e) => crate::lexer::spec_lex_from(input.spec_bytes(), 0) == Err::<
                Seq<crate::tokens::TokenV>,
                crate::errors::CompileErrorV,
            >(e@),
        },
{
    let bytes = input.as_bytes_vec();
    let mut lexer = Lexer::new(bytes);
    lexer.lex()
}

} // verus!
