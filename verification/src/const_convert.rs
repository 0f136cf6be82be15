//! Conversion of integer constants between the two widths.

use crate::constants;
use crate::types::{Type, TypeV};
use vstd::prelude::*;

verus! {

/// The constant `c` converted to `target_type`: widening sign-extends,
/// narrowing truncates, and a constant already of the target width is
/// unchanged.
pub open spec fn spec_const_convert(target_type: TypeV, c: constants::T) -> constants::T {
    match c {
        constants::T::ConstInt(i) => {
            if target_type == TypeV::Int {
                constants::T::ConstInt(i)
            } else {
                constants::T::ConstLong(i as i64)
            }
        },
        constants::T::ConstLong(i) => {
            if target_type == TypeV::Long {
                constants::T::ConstLong(i)
            } else {
                constants::T::ConstInt(i as i32)
            }
        },
    }
}

/// Converts a constant to the given type.
pub fn const_convert(target_type: &Type, c: constants::T) -> (r: constants::T)
    ensures
        r == spec_const_convert(target_type@, c),
{
    match c {
        constants::T::ConstInt(i) => {
            match target_type {
                Type::Int => constants::T::ConstInt(i),
                _ => constants::T::ConstLong(i as i64),
            }
        },
        constants::T::ConstLong(i) => {
            match target_type {
                Type::Long => constants::T::ConstLong(i),
                _ => constants::T::ConstInt(#[verifier::truncate] (i as i32)),
            }
        },
    }
}

} // verus!
