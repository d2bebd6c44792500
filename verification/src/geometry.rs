//! Fixed-point pointer coordinates and the distance between two of them.
//!
//! A coordinate is a signed count of steps, `STEPS_PER_UNIT` of which make one
//! distance unit: the resolution at which a Wayland compositor reports pointer
//! positions. Distances are Euclidean, measured in the same steps and rounded
//! down to a whole step.

use vstd::prelude::*;

verus! {

/// Number of coordinate steps in one distance unit.
pub const STEPS_PER_UNIT: u64 = 256;

/// Whether `root` is the largest natural number whose square does not exceed `n`.
pub open spec fn is_floor_sqrt(n: nat, root: nat) -> bool {
    root * root <= n < (root + 1) * (root + 1)
}

/// The square root of `n`, rounded down.
pub closed spec fn floor_sqrt(n: nat) -> nat {
    choose|root: nat| is_floor_sqrt(n, root)
}

/// Zero is its own square root.
proof fn lemma_zero_root()
    ensures
        is_floor_sqrt(0, 0),
{
    assert(0nat * 0nat == 0 && (0nat + 1) * (0nat + 1) == 1) by (nonlinear_arith);
}

/// Every natural number has a rounded-down square root.
pub proof fn lemma_floor_sqrt_exists(n: nat)
    ensures
        is_floor_sqrt(n, floor_sqrt(n)),
    decreases n,
{
    if n == 0 {
        lemma_zero_root();
    } else {
        lemma_floor_sqrt_exists((n - 1) as nat);
        let below = floor_sqrt((n - 1) as nat);
        if (below + 1) * (below + 1) <= n {
            assert((below + 1) * (below + 1) == n);
            assert(n < (below + 2) * (below + 2)) by (nonlinear_arith)
                requires
                    (below + 1) * (below + 1) == n,
            ;
            assert(is_floor_sqrt(n, below + 1));
        } else {
            assert(below * below <= n) by (nonlinear_arith)
                requires
                    below * below <= n - 1,
            ;
            assert(is_floor_sqrt(n, below));
        }
    }
}

/// The rounded-down square root is the only number that `is_floor_sqrt` accepts.
pub proof fn lemma_floor_sqrt_unique(n: nat, root: nat)
    requires
        is_floor_sqrt(n, root),
    ensures
        floor_sqrt(n) == root,
{
    lemma_floor_sqrt_exists(n);
    let other = floor_sqrt(n);
    if other < root {
        assert((other + 1) * (other + 1) <= root * root) by (nonlinear_arith)
            requires
                other + 1 <= root,
        ;
    } else if root < other {
        assert((root + 1) * (root + 1) <= other * other) by (nonlinear_arith)
            requires
                root + 1 <= other,
        ;
    }
}

/// Integer square root, rounded down.
pub fn isqrt(n: u128) -> (root: u64)
    ensures
        is_floor_sqrt(n as nat, root as nat),
        root == floor_sqrt(n as nat),
{
    let mut low: u128 = 0;
    let mut high: u128 = 0x1_0000_0000_0000_0000;
    assert(0x1_0000_0000_0000_0000int * 0x1_0000_0000_0000_0000int > u128::MAX);
    while high - low > 1
        invariant
            low < high <= 0x1_0000_0000_0000_0000,
            low * low <= n < high * high,
        decreases high - low,
    {
        let mid: u128 = low + (high - low) / 2;
        assert(mid * mid <= u128::MAX) by (nonlinear_arith)
            requires
                mid < 0x1_0000_0000_0000_0000,
        ;
        if mid * mid <= n {
            low = mid;
        } else {
            high = mid;
        }
    }
    proof {
        lemma_floor_sqrt_unique(n as nat, low as nat);
    }
    low as u64
}

/// The square of the Euclidean distance between two positions.
pub open spec fn squared_distance(from: (i32, i32), to: (i32, i32)) -> nat {
    ((to.0 - from.0) * (to.0 - from.0) + (to.1 - from.1) * (to.1 - from.1)) as nat
}

/// The Euclidean distance between two positions, rounded down to a whole step.
pub open spec fn distance(from: (i32, i32), to: (i32, i32)) -> nat {
    floor_sqrt(squared_distance(from, to))
}

/// A bound that the distance between two positions never reaches.
pub const DISTANCE_LIMIT: u64 = 0x2_0000_0000;

/// No two positions are as far apart as `DISTANCE_LIMIT`.
pub proof fn lemma_distance_bounded(from: (i32, i32), to: (i32, i32))
    ensures
        distance(from, to) < DISTANCE_LIMIT,
{
    let dx = to.0 - from.0;
    let dy = to.1 - from.1;
    let n = squared_distance(from, to);
    assert(0 <= dx * dx <= 0xFFFF_FFFF * 0xFFFF_FFFF) by (nonlinear_arith)
        requires
            -0xFFFF_FFFF <= dx <= 0xFFFF_FFFF,
    ;
    assert(0 <= dy * dy <= 0xFFFF_FFFF * 0xFFFF_FFFF) by (nonlinear_arith)
        requires
            -0xFFFF_FFFF <= dy <= 0xFFFF_FFFF,
    ;
    assert(n == dx * dx + dy * dy);
    assert(n < 0x2_0000_0000int * 0x2_0000_0000int);
    lemma_floor_sqrt_exists(n);
    let root = floor_sqrt(n);
    if root >= DISTANCE_LIMIT {
        assert(root * root >= 0x2_0000_0000int * 0x2_0000_0000int) by (nonlinear_arith)
            requires
                root >= 0x2_0000_0000int,
        ;
    }
}

/// The gap between two coordinates on one axis.
fn axis_gap(from: i32, to: i32) -> (gap: u64)
    ensures
        gap == vstd::math::abs(to - from),
        gap <= 0xFFFF_FFFF,
{
    if to >= from {
        (to as i64 - from as i64) as u64
    } else {
        (from as i64 - to as i64) as u64
    }
}

/// Computes the distance between two positions.
pub fn distance_between(from: (i32, i32), to: (i32, i32)) -> (steps: u64)
    ensures
        steps == distance(from, to),
        steps < DISTANCE_LIMIT,
{
    let dx: u64 = axis_gap(from.0, to.0);
    let dy: u64 = axis_gap(from.1, to.1);
    assert(dx * dx <= 0xFFFF_FFFF * 0xFFFF_FFFF && dx * dx == (to.0 - from.0) * (to.0 - from.0))
        by (nonlinear_arith)
        requires
            dx <= 0xFFFF_FFFF,
            dx == to.0 - from.0 || dx == from.0 - to.0,
    ;
    assert(dy * dy <= 0xFFFF_FFFF * 0xFFFF_FFFF && dy * dy == (to.1 - from.1) * (to.1 - from.1))
        by (nonlinear_arith)
        requires
            dy <= 0xFFFF_FFFF,
            dy == to.1 - from.1 || dy == from.1 - to.1,
    ;
    let squared: u128 = (dx as u128) * (dx as u128) + (dy as u128) * (dy as u128);
    proof {
        lemma_distance_bounded(from, to);
    }
    isqrt(squared)
}

/// The length of the path that visits `points` in order: the sum of the
/// distances between each point and the next.
pub open spec fn path_length(points: Seq<(i32, i32)>) -> nat
    decreases points.len(),
{
    if points.len() < 2 {
        0
    } else {
        path_length(points.drop_last()) + distance(
            points[points.len() - 2],
            points[points.len() - 1],
        )
    }
}

/// A path is at least as long as the same path without its last point.
pub proof fn lemma_path_length_grows(points: Seq<(i32, i32)>)
    requires
        points.len() > 0,
    ensures
        path_length(points.drop_last()) <= path_length(points),
{
}

} // verus!
