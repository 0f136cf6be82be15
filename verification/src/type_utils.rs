//! Small helpers on typed expressions and types.

use crate::ast::{TypedExp, TypedExpV, TypedInnerExp};
use crate::types::{is_scalar, Type, TypeV};
use vstd::prelude::*;

verus! {

/// Reads the type annotation off a typed expression.
pub fn get_type(t: &TypedExp) -> (r: Type)
    ensures
        r@ == t@.t,
{
    t.t.clone()
}

/// Wraps an expression node with a type annotation.
pub fn set_type(e: TypedInnerExp, new_type: Type) -> (r: TypedExp)
    ensures
        r@ == (TypedExpV { e: Box::new(e@), t: new_type@ }),
{
    TypedExp { e: Box::new(e), t: new_type }
}

/// The natural alignment in bytes of a scalar type.
pub open spec fn spec_alignment(t: TypeV) -> int {
    if t == TypeV::Long {
        8
    } else {
        4
    }
}

/// Returns the natural alignment in bytes of a scalar type.
pub fn get_alignment(t: &Type) -> (r: i64)
    requires
        is_scalar(t@),
    ensures
        r == spec_alignment(t@),
{
    match t {
        Type::Int => 4,
        Type::Long => 8,
        Type::FunType { .. } => {
            proof {
                assert(false);
            }
            4
        },
    }
}

} // verus!
