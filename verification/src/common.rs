use vstd::prelude::*;

verus! {

/// The counter value that follows `r`, wrapping around at `u64::MAX`.
pub open spec fn next_revision(r: u64) -> u64 {
    if r == u64::MAX {
        0
    } else {
        (r + 1) as u64
    }
}

/// Advances a change counter by one, wrapping around.
pub fn bump_revision(r: u64) -> (next: u64)
    ensures
        next == next_revision(r),
{
    r.wrapping_add(1)
}

/// The text of an optional message, as characters.
pub open spec fn opt_text(s: Option<String>) -> Option<Seq<char>> {
    match s {
        Some(t) => Some(t@),
        None => None,
    }
}

/// `a - b`, or zero where `b` exceeds `a`.
pub open spec fn saturating_minus(a: int, b: int) -> nat {
    if a <= b {
        0
    } else {
        (a - b) as nat
    }
}

} // verus!
