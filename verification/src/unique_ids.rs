//! The monotonic counter that feeds every freshly generated name.
//!
//! One counter is threaded through all passes, so a temporary `tmp.N` can
//! never collide with a label `while.N` minted elsewhere: the numeric
//! suffixes differ.  The counter saturates at its maximum instead of
//! wrapping; freshness statements therefore assume the counter stays below
//! the maximum, which one counter step per AST node cannot exhaust.

use crate::text::dec_chars;
use crate::text::u64_to_string;
use vstd::prelude::*;

verus! {

/// The process-wide source of unique name suffixes.
pub struct Counter {
    n: u64,
}

impl View for Counter {
    type V = nat;

    closed spec fn view(&self) -> nat {
        self.n as nat
    }
}

/// The counter value after one mint: one more, saturating at the maximum.
pub open spec fn bump(n: nat) -> nat {
    if n < u64::MAX {
        n + 1
    } else {
        n
    }
}

/// The name of the temporary minted at counter value `n`.
pub open spec fn temp_name(n: nat) -> Seq<char> {
    "tmp."@ + dec_chars(n)
}

/// The label minted from `prefix` at counter value `n`.
pub open spec fn label_name(prefix: Seq<char>, n: nat) -> Seq<char> {
    prefix + "."@ + dec_chars(n)
}

impl Counter {
    /// A fresh counter, starting at zero.
    pub fn new() -> (c: Counter)
        ensures
            c@ == 0,
    {
        Counter { n: 0 }
    }

    /// Returns a fresh temporary name `tmp.N` and advances the counter.
    pub fn make_temporary(&mut self) -> (r: String)
        ensures
            final(self)@ == bump(old(self)@),
            r@ == temp_name(old(self)@),
    {
        proof {
            reveal_strlit("tmp.");
        }
        let mut s = String::from_str("tmp.");
        s.append(u64_to_string(self.n).as_str());
        if self.n < u64::MAX {
            self.n = self.n + 1;
        }
        s
    }

    /// Returns a fresh label `prefix.N` and advances the counter.
    pub fn make_label(&mut self, prefix: &str) -> (r: String)
        ensures
            final(self)@ == bump(old(self)@),
            r@ == label_name(prefix@, old(self)@),
    {
        proof {
            reveal_strlit(".");
        }
        let mut s = prefix.to_owned();
        s.append(".");
        s.append(u64_to_string(self.n).as_str());
        if self.n < u64::MAX {
            self.n = self.n + 1;
        }
        proof {
            assert(s@ =~= label_name(prefix@, old(self)@));
        }
        s
    }
}

} // verus!
