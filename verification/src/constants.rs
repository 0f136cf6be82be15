//! Integer constants of the source language, one variant per width.

use vstd::prelude::*;

verus! {

/// A lexed integer constant: 32-bit `int` or 64-bit `long`, tagged by the
/// token that produced it, never by magnitude.
#[derive(Clone, Copy, Debug, PartialEq, Eq, Structural)]
pub enum T {
    ConstInt(i32),
    ConstLong(i64),
}

} // verus!
