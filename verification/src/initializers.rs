//! Static initial values for file-scope and `static` variables.

use crate::types::{is_scalar, Type, TypeV};
use vstd::prelude::*;

verus! {

/// The initial value recorded for a static variable, one variant per width.
#[derive(Clone, Copy, Debug, PartialEq, Eq, Structural)]
pub enum StaticInit {
    IntInit(i32),
    LongInit(i64),
}

/// The zero initializer of a scalar type.
pub open spec fn spec_zero(t: TypeV) -> StaticInit {
    match t {
        TypeV::Long => StaticInit::LongInit(0),
        _ => StaticInit::IntInit(0),
    }
}

/// Returns the zero initializer of the given scalar type.
pub fn zero(t: &Type) -> (r: StaticInit)
    requires
        is_scalar(t@),
    ensures
        r == spec_zero(t@),
{
    match t {
        Type::Int => StaticInit::IntInit(0),
        Type::Long => StaticInit::LongInit(0),
        Type::FunType { .. } => {
            proof {
                assert(false);
            }
            StaticInit::IntInit(0)
        },
    }
}

/// Whether a static initializer is zero of its width.
pub open spec fn spec_is_zero(t: StaticInit) -> bool {
    match t {
        StaticInit::IntInit(i) => i == 0,
        StaticInit::LongInit(l) => l == 0,
    }
}

/// Decides whether a static initializer is zero of its width.
pub fn is_zero(t: StaticInit) -> (r: bool)
    ensures
        r == spec_is_zero(t),
{
    match t {
        StaticInit::IntInit(i) => i == 0,
        StaticInit::LongInit(l) => l == 0,
    }
}

} // verus!
