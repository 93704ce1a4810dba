//! Arithmetic on the 32-bit circular sequence space.

use vstd::prelude::*;

verus! {

/// How far one travels going forward round the circle from `from` to `to`.
pub open spec fn forward_distance(from: u32, to: u32) -> int {
    (to - from) % 0x1_0000_0000
}

/// The point reached from `x` after `n` steps forward (backward if negative).
#[verifier::opaque]
pub open spec fn advance(x: u32, n: int) -> u32 {
    ((x + n) % 0x1_0000_0000) as u32
}

/// `x` lies strictly inside the forward arc that leaves `start` and ends at
/// `end`. The arc is empty when both ends coincide.
pub open spec fn on_forward_arc(start: u32, x: u32, end: u32) -> bool {
    0 < forward_distance(start, x) < forward_distance(start, end)
}

/// The open range test written by cases on the order of its two ends.
pub open spec fn in_open_range(start: u32, x: u32, end: u32) -> bool {
    if start == end {
        false
    } else if start < end {
        start < x && x < end
    } else {
        x > start || x < end
    }
}

/// `x` lies in the half-open arc `(start, end]`.
pub open spec fn in_left_open_range(start: u32, x: u32, end: u32) -> bool {
    in_open_range(start, x, advance(end, 1))
}

/// An acknowledgment number that falls in the region already acknowledged.
pub open spec fn duplicate_ack(una: u32, ack: u32, nxt: u32) -> bool {
    if una == nxt {
        true
    } else if una < nxt {
        ack < una
    } else {
        ack > nxt && ack < una
    }
}

/// The case analysis and the circular reading of the open range agree on
/// every triple of sequence numbers, and the range with equal ends is empty.
pub proof fn lemma_open_range_is_forward_arc(start: u32, x: u32, end: u32)
    ensures
        in_open_range(start, x, end) == on_forward_arc(start, x, end),
        start == end ==> !in_open_range(start, x, end),
{
}

/// Adding with wrap-around is a walk forward on the circle.
pub proof fn lemma_wrapping_add_is_advance(x: u32, n: u32)
    ensures
        x.wrapping_add(n) == advance(x, n as int),
{
    reveal(advance);
}

/// Subtracting with wrap-around is a walk backward on the circle.
pub proof fn lemma_wrapping_sub_is_advance(x: u32, n: u32)
    ensures
        x.wrapping_sub(n) == advance(x, -(n as int)),
{
    reveal(advance);
}

/// Walking `a` steps and then `b` steps is walking `a + b` steps.
pub proof fn lemma_advance_twice(x: u32, a: int, b: int)
    ensures
        advance(advance(x, a), b) == advance(x, a + b),
{
    reveal(advance);
}

/// Whole turns round the circle do not move a point.
pub proof fn lemma_advance_whole_turns(x: u32, n: int)
    ensures
        advance(x, n % 0x1_0000_0000) == advance(x, n),
{
    reveal(advance);
}

/// Moves `x` forward by `n` steps, with wrap-around.
pub fn step_forward(x: u32, n: usize) -> (r: u32)
    ensures
        r == advance(x, n as int),
{
    let reduced: u32 = (n as u64 % 0x1_0000_0000u64) as u32;
    proof {
        lemma_advance_whole_turns(x, n as int);
        lemma_wrapping_add_is_advance(x, reduced);
    }
    x.wrapping_add(reduced)
}

/// The sequence number that follows `x`.
pub fn successor(x: u32) -> (r: u32)
    ensures
        r == advance(x, 1),
{
    proof {
        lemma_wrapping_add_is_advance(x, 1);
    }
    x.wrapping_add(1)
}

/// The sequence number that precedes `x`.
pub fn predecessor(x: u32) -> (r: u32)
    ensures
        r == advance(x, -1),
{
    proof {
        lemma_wrapping_sub_is_advance(x, 1);
    }
    x.wrapping_sub(1)
}

/// Standing still is a walk of no steps.
pub proof fn lemma_advance_zero(x: u32)
    ensures
        advance(x, 0) == x,
{
    reveal(advance);
}

/// Moves `x` forward by one step if `step` holds, with wrap-around.
pub fn step_if(x: u32, step: bool) -> (r: u32)
    ensures
        r == advance(x, if step { 1int } else { 0int }),
{
    if step {
        successor(x)
    } else {
        proof {
            lemma_advance_zero(x);
        }
        x
    }
}

/// Tells whether `x` lies strictly between `start` and `end` on the circle.
pub fn is_in_range_wrap(start: u32, x: u32, end: u32) -> (r: bool)
    ensures
        r == in_open_range(start, x, end),
        r == on_forward_arc(start, x, end),
{
    proof {
        lemma_open_range_is_forward_arc(start, x, end);
    }
    if start == end {
        false
    } else if start < end {
        x > start && x < end
    } else {
        x < end || x > start
    }
}

/// Tells whether an acknowledgment number was acknowledged before.
pub fn is_duplicate(una: u32, ack: u32, nxt: u32) -> (r: bool)
    ensures
        r == duplicate_ack(una, ack, nxt),
{
    if una == nxt {
        true
    } else if una < nxt {
        ack < una
    } else {
        ack > nxt && ack < una
    }
}

} // verus!
