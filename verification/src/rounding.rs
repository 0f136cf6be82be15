//! Rounding of stack sizes away from zero to a multiple of an alignment.

use vstd::arithmetic::div_mod::{lemma_fundamental_div_mod, lemma_fundamental_div_mod_converse_mod};
use vstd::prelude::*;

verus! {

/// Rounds `x` away from zero to the nearest multiple of `n`.
///
/// The instruction fixup pass uses this to round a function's stack
/// allocation up to a multiple of 16 bytes.
pub fn round_way_from_zero(n: i64, x: i64) -> (r: i64)
    requires
        0 < n <= 0x1000_0000,
        -0x1000_0000_0000_0000 <= x <= 0x1000_0000_0000_0000,
    ensures
        r % n == 0,
        x >= 0 ==> x <= r < x + n,
        x < 0 ==> x - n < r <= x,
{
    if x >= 0 {
        let rem: i64 = x % n;
        if rem == 0 {
            x
        } else {
            let r = x + (n - rem);
            proof {
                lemma_fundamental_div_mod(x as int, n as int);
                let q = (x as int) / (n as int);
                assert(r as int == (q + 1) * (n as int)) by (nonlinear_arith)
                    requires
                        x as int == (n as int) * q + (rem as int),
                        r as int == x as int + (n as int) - (rem as int),
                ;
                lemma_fundamental_div_mod_converse_mod(r as int, n as int, q + 1, 0);
            }
            r
        }
    } else {
        let m: i64 = -x;
        let rem: i64 = m % n;
        if rem == 0 {
            proof {
                lemma_fundamental_div_mod(m as int, n as int);
                let q = (m as int) / (n as int);
                assert(x as int == (-q) * (n as int)) by (nonlinear_arith)
                    requires
                        m as int == (n as int) * q + 0,
                        x as int == -(m as int),
                ;
                lemma_fundamental_div_mod_converse_mod(x as int, n as int, -q, 0);
            }
            x
        } else {
            let r = -(m + (n - rem));
            proof {
                lemma_fundamental_div_mod(m as int, n as int);
                let q = (m as int) / (n as int);
                assert(r as int == (-q - 1) * (n as int)) by (nonlinear_arith)
                    requires
                        m as int == (n as int) * q + (rem as int),
                        r as int == -((m as int) + ((n as int) - (rem as int))),
                ;
                lemma_fundamental_div_mod_converse_mod(r as int, n as int, -q - 1, 0);
            }
            r
        }
    }
}

} // verus!
