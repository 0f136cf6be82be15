//! The diagnostics of the compiler.
//!
//! Every error is fatal: each pass returns the first diagnostic it finds
//! and compilation stops.  Each variant carries the offending token or
//! name, so a driver can print a precise message.

use crate::tokens;
use crate::tokens::TokenV;
use vstd::prelude::*;

verus! {

/// A fatal compilation error.
#[derive(Debug)]
pub enum CompileError {
    /// A byte no token can start with.
    UnknownCharacter(u8),
    /// A constant run together with an identifier character.
    MalformedNumber(String),
    /// A token that does not fit the grammar at this point.
    UnexpectedToken(tokens::T),
    /// A type specifier list that names no valid type, or a second
    /// storage class.
    BadSpecifiers,
    /// A use of a name with no visible declaration.
    UndeclaredIdentifier(String),
    /// A second declaration of a name in the same scope.
    DuplicateDeclaration(String),
    /// A function definition nested inside a block.
    NestedFunctionDefinition(String),
    /// A `static` storage class on a block-scope function declaration.
    StaticLocalFunction(String),
    /// A `break` statement outside every loop.
    BreakOutsideLoop,
    /// A `continue` statement outside every loop.
    ContinueOutsideLoop,
    /// A function name in expression position, or a variable called.
    WrongKindOfName(String),
    /// A call with the wrong number of arguments.
    WrongArgumentCount(String),
    /// A file-scope or `static` initializer that is not a constant.
    NonConstantInitializer(String),
    /// An initializer on a local `extern` declaration.
    InitializerOnExternLocal(String),
    /// A storage class on the declaration in a `for` header.
    StorageClassInForInit(String),
    /// A redeclaration that conflicts with the previous one in type or
    /// linkage.
    ConflictingDeclaration(String),
    /// A second definition of a function body or of a file-scope value.
    DuplicateDefinition(String),
    /// An assignment whose left side is not assignable.
    InvalidLValue,
    /// A cast to or from a function type.
    InvalidCast,
    /// A malformed tree reached a later pass; never produced by this
    /// library's own pipeline on accepted inputs.
    Internal,
}

/// The model of a compilation error.
pub enum CompileErrorV {
    UnknownCharacter(u8),
    MalformedNumber(Seq<char>),
    UnexpectedToken(TokenV),
    BadSpecifiers,
    UndeclaredIdentifier(Seq<char>),
    DuplicateDeclaration(Seq<char>),
    NestedFunctionDefinition(Seq<char>),
    StaticLocalFunction(Seq<char>),
    BreakOutsideLoop,
    ContinueOutsideLoop,
    WrongKindOfName(Seq<char>),
    WrongArgumentCount(Seq<char>),
    NonConstantInitializer(Seq<char>),
    InitializerOnExternLocal(Seq<char>),
    StorageClassInForInit(Seq<char>),
    ConflictingDeclaration(Seq<char>),
    DuplicateDefinition(Seq<char>),
    InvalidLValue,
    InvalidCast,
    Internal,
}

impl View for CompileError {
    type V = CompileErrorV;

    open spec fn view(&self) -> CompileErrorV {
        match self {
            CompileError::UnknownCharacter(b) => CompileErrorV::UnknownCharacter(*b),
            CompileError::MalformedNumber(s) => CompileErrorV::MalformedNumber(s@),
            CompileError::UnexpectedToken(t) => CompileErrorV::UnexpectedToken(t@),
            CompileError::BadSpecifiers => CompileErrorV::BadSpecifiers,
            CompileError::UndeclaredIdentifier(s) => CompileErrorV::UndeclaredIdentifier(s@),
            CompileError::DuplicateDeclaration(s) => CompileErrorV::DuplicateDeclaration(s@),
            CompileError::NestedFunctionDefinition(s) => CompileErrorV::NestedFunctionDefinition(
                s@,
            ),
            CompileError::StaticLocalFunction(s) => CompileErrorV::StaticLocalFunction(s@),
            CompileError::BreakOutsideLoop => CompileErrorV::BreakOutsideLoop,
            CompileError::ContinueOutsideLoop => CompileErrorV::ContinueOutsideLoop,
            CompileError::WrongKindOfName(s) => CompileErrorV::WrongKindOfName(s@),
            CompileError::WrongArgumentCount(s) => CompileErrorV::WrongArgumentCount(s@),
            CompileError::NonConstantInitializer(s) => CompileErrorV::NonConstantInitializer(s@),
            CompileError::InitializerOnExternLocal(s) => CompileErrorV::InitializerOnExternLocal(
                s@,
            ),
            CompileError::StorageClassInForInit(s) => CompileErrorV::StorageClassInForInit(s@),
            CompileError::ConflictingDeclaration(s) => CompileErrorV::ConflictingDeclaration(s@),
            CompileError::DuplicateDefinition(s) => CompileErrorV::DuplicateDefinition(s@),
            CompileError::InvalidLValue => CompileErrorV::InvalidLValue,
            CompileError::InvalidCast => CompileErrorV::InvalidCast,
            CompileError::Internal => CompileErrorV::Internal,
        }
    }
}

} // verus!
