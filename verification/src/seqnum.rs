//! Modular 32-bit sequence-number arithmetic.
//!
//! TCP sequence numbers live on a circle of size 2^32. The one comparison
//! primitive the rest of the endpoint needs is `is_between_wrapped`: whether a
//! number lies strictly between two others when walking the circle forward.

use vstd::prelude::*;

verus! {

/// Number of points on the sequence-number circle.
pub const SEQ_MOD: u64 = 0x1_0000_0000;

/// Half of the sequence-number circle.
pub const SEQ_HALF: u64 = 0x8000_0000;

/// Distance walked forward on the circle from `a` to `b`.
///
/// Always in `[0, 2^32)`; it is `0` exactly when `a == b`.
pub open spec fn seq_dist(a: u32, b: u32) -> int {
    if b >= a {
        b - a
    } else {
        b - a + SEQ_MOD
    }
}

/// `x` lies strictly between `start` and `end` on the circle, walking forward
/// from `start`; both endpoints are excluded.
pub open spec fn spec_between_wrapped(start: u32, x: u32, end: u32) -> bool {
    0 < seq_dist(start, x) && seq_dist(start, x) < seq_dist(start, end)
}

/// Returns whether `x` lies strictly between `start` and `end` on the 32-bit
/// sequence circle (both endpoints excluded), per the RFC 1323 comparison:
/// partition by the numeric order of `start` and `x`, then place `end`.
pub fn is_between_wrapped(start: &u32, x: &u32, end: &u32) -> (r: bool)
    ensures
        r == spec_between_wrapped(*start, *x, *end),
{
    if *start == *x {
        false
    } else if *start < *x {
        !(*end >= *start && *end <= *x)
    } else {
        *x < *end && *end < *start
    }
}

/// Walking forward from `a` by a 32-bit step lands exactly that far away.
pub proof fn lemma_dist_wrapping_add(a: u32, k: u32)
    ensures
        seq_dist(a, a.wrapping_add(k)) == k,
{
}

/// Walking a further `k` steps from `b` adds `k` to the distance from `a`,
/// as long as the walk does not come back around past `a`.
pub proof fn lemma_dist_add(a: u32, b: u32, k: u32)
    requires
        seq_dist(a, b) + k < SEQ_MOD,
    ensures
        seq_dist(a, b.wrapping_add(k)) == seq_dist(a, b) + k,
{
}

/// A point `b` no further from `a` than `c` splits the walk from `a` to `c`:
/// the remaining distance from `b` to `c` is the difference.
pub proof fn lemma_dist_split(a: u32, b: u32, c: u32)
    requires
        seq_dist(a, b) <= seq_dist(a, c),
    ensures
        seq_dist(b, c) == seq_dist(a, c) - seq_dist(a, b),
{
}

/// Stepping the start of the walk back by one adds one to the distance,
/// except for the one point that the step uncovers.
pub proof fn lemma_dist_back_one(a: u32, b: u32)
    ensures
        b != a.wrapping_sub(1) ==> seq_dist(a.wrapping_sub(1), b) == seq_dist(a, b) + 1,
        b == a.wrapping_sub(1) ==> seq_dist(a.wrapping_sub(1), b) == 0,
{
}

/// Two successive wrapped steps land where one wrapped step by the sum does.
pub proof fn lemma_wrapping_add_assoc(a: u32, x: u32, y: u32)
    requires
        x + y <= u32::MAX,
    ensures
        a.wrapping_add(x).wrapping_add(y) == a.wrapping_add((x + y) as u32),
{
}

/// An endpoint of the interval, or a collapsed interval, is never strictly
/// inside it: `spec_between_wrapped(a, b, c)` is false whenever `b == a`,
/// `b == c` or `a == c`.
pub proof fn lemma_between_wrapped_endpoints(a: u32, b: u32, c: u32)
    ensures
        b == a || b == c || a == c ==> !spec_between_wrapped(a, b, c),
{
}

/// Trichotomy of the modular order: for points `a`, `b` with `c` distinct
/// from both, exactly one of the three relations holds: `b` strictly between
/// `a` and `c`; `a == b`; or `c` strictly between `a` and `b`.
///
/// (When `c` coincides with `a` or `b` both strict relations are false by
/// `lemma_between_wrapped_endpoints`, so the trichotomy needs `c` distinct.)
pub proof fn lemma_between_wrapped_trichotomy(a: u32, b: u32, c: u32)
    requires
        c != a,
        c != b,
    ensures
        spec_between_wrapped(a, b, c) ==> a != b && !spec_between_wrapped(a, c, b),
        a == b ==> !spec_between_wrapped(a, b, c) && !spec_between_wrapped(a, c, b),
        !spec_between_wrapped(a, b, c) && a != b ==> spec_between_wrapped(a, c, b),
{
    assert(seq_dist(a, b) == seq_dist(a, c) ==> b == c);
}

} // verus!
