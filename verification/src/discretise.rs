//! Integer rules of the libgm tessellation: how many segments a curved
//! primitive is cut into once the floating-point step angle is known.
//!
//! The angle arithmetic (`acos`, degrees, `ceil`) happens on floats and is
//! done by the caller; what is decided here is the part that enters the
//! reusable-mesh identity key: rounding to the four quadrant points, the cap
//! of `MAX_SEGMENTS`, the minimum of two segments for a partial revolution,
//! the sphere's stack count and the elliptical dish clamp.

use vstd::prelude::*;

verus! {

/// The segment cap that libgm applies to every curved primitive.
pub const MAX_SEGMENTS: i32 = 1000;

/// The least multiple of four that is not below `n`.
pub open spec fn round_up_to_four(n: int) -> int {
    if n % 4 == 0 {
        n
    } else {
        n + (4 - n % 4)
    }
}

/// The smaller of a segment count and `MAX_SEGMENTS`.
pub open spec fn capped(n: int) -> int {
    if n <= MAX_SEGMENTS {
        n
    } else {
        MAX_SEGMENTS as int
    }
}

/// Segment count of a full circle before the cap: a degenerate radius (given
/// as `None`) gets one segment, otherwise the step count rounded up to four.
pub open spec fn spec_uncapped_circle_segments(full_turn_steps: Option<i32>) -> int {
    match full_turn_steps {
        None => 1,
        Some(n) => round_up_to_four(n as int),
    }
}

/// Rounds a raw segment count up to a multiple of four, so that the four
/// quadrant points (0, 90, 180 and 270 degrees) lie on the polygon.
pub fn align_to_quadrants(n: i32) -> (r: i32)
    requires
        n <= i32::MAX - 3,
    ensures
        r == round_up_to_four(n as int),
{
    let m: i32 = n + 3;
    assert((m & !3i32) as int == m as int - (m as int) % 4) by (bit_vector);
    m & !3
}

/// Applies the libgm cap of `MAX_SEGMENTS` to a segment count.
pub fn cap_segments(n: i32) -> (r: i32)
    ensures
        r == capped(n as int),
{
    if n <= MAX_SEGMENTS {
        n
    } else {
        MAX_SEGMENTS
    }
}

/// `d2_numberOfSegmentsForCircle` without the cap.
///
/// `full_turn_steps` is `None` when the radius is not positive, and otherwise
/// `ceil(360 / step)` for the step angle derived from the chord tolerance.
pub fn uncapped_circle_segments(full_turn_steps: Option<i32>) -> (r: i32)
    requires
        full_turn_steps matches Some(n) ==> n <= i32::MAX - 3,
    ensures
        r == spec_uncapped_circle_segments(full_turn_steps),
{
    match full_turn_steps {
        None => 1,
        Some(n) => align_to_quadrants(n),
    }
}

/// `d2_numberOfSegmentsForCircle` with the per-primitive cap of libgm.
pub fn circle_segments(full_turn_steps: Option<i32>) -> (r: i32)
    requires
        full_turn_steps matches Some(n) ==> n <= i32::MAX - 3,
    ensures
        r == capped(spec_uncapped_circle_segments(full_turn_steps)),
{
    let n = uncapped_circle_segments(full_turn_steps);
    cap_segments(n)
}

/// Segment count of a partial revolution: the full-circle count scaled by the
/// sweep (`scaled_steps`, already rounded up by the caller), never below two.
pub fn partial_turn_segments(scaled_steps: i32) -> (r: i32)
    ensures
        r == if scaled_steps >= 2 { scaled_steps as int } else { 2 },
{
    if scaled_steps >= 2 {
        scaled_steps
    } else {
        2
    }
}

/// Number of latitude bands of a sphere: half the count around the axis,
/// never below one (`max(around / 2, 1)`, truncating division).
pub fn sphere_stacks(around: i32) -> (r: i32)
    ensures
        r == if around >= 2 { around as int / 2 } else { 1 },
{
    let half: i32 = around / 2;
    if half > 1 {
        half
    } else {
        1
    }
}

/// The two meridional counts of an elliptical dish after the libgm clamp:
/// when `2 * (hub + knuckle)` exceeds `MAX_SEGMENTS`, each part whose four-fold
/// exceeds `MAX_SEGMENTS` is set to 250.
pub open spec fn spec_clamp_dish_meridians(hub: int, knuckle: int) -> (int, int) {
    if 2 * (hub + knuckle) > MAX_SEGMENTS {
        (
            if 4 * hub > MAX_SEGMENTS { 250 } else { hub },
            if 4 * knuckle > MAX_SEGMENTS { 250 } else { knuckle },
        )
    } else {
        (hub, knuckle)
    }
}

/// Applies the elliptical dish clamp to `(hub, knuckle)`.
pub fn clamp_dish_meridians(hub: i32, knuckle: i32) -> (r: (i32, i32))
    requires
        i32::MIN <= 2 * (hub + knuckle) <= i32::MAX,
        2 * (hub + knuckle) > MAX_SEGMENTS ==> i32::MIN <= 4 * hub <= i32::MAX,
        2 * (hub + knuckle) > MAX_SEGMENTS ==> i32::MIN <= 4 * knuckle <= i32::MAX,
    ensures
        (r.0 as int, r.1 as int) == spec_clamp_dish_meridians(hub as int, knuckle as int),
{
    let mut hub = hub;
    let mut knuckle = knuckle;
    if 2 * (hub + knuckle) > MAX_SEGMENTS {
        if 4 * knuckle > MAX_SEGMENTS {
            knuckle = 250;
        }
        if 4 * hub > MAX_SEGMENTS {
            hub = 250;
        }
    }
    (hub, knuckle)
}

/// A count aligned to the quadrants is a multiple of four, not below the raw
/// count and less than four above it; aligning it again changes nothing.
pub proof fn lemma_quadrant_alignment(n: int)
    ensures
        round_up_to_four(n) % 4 == 0,
        n <= round_up_to_four(n) < n + 4,
        round_up_to_four(round_up_to_four(n)) == round_up_to_four(n),
{
}

/// Every circle count lies between one and `MAX_SEGMENTS`, and it is a
/// multiple of four whenever the step count was positive.
pub proof fn lemma_circle_segments_range(full_turn_steps: Option<i32>)
    ensures
        full_turn_steps matches Some(n) && n >= 1 ==> {
            let c = capped(spec_uncapped_circle_segments(full_turn_steps));
            &&& 4 <= c <= MAX_SEGMENTS
            &&& c % 4 == 0
        },
        full_turn_steps is None ==> capped(spec_uncapped_circle_segments(full_turn_steps)) == 1,
{
}

/// The clamp never raises a count, and it leaves each part either unchanged
/// or at 250.
pub proof fn lemma_dish_clamp_never_raises(hub: int, knuckle: int)
    requires
        hub >= 0,
        knuckle >= 0,
    ensures
        spec_clamp_dish_meridians(hub, knuckle).0 <= hub,
        spec_clamp_dish_meridians(hub, knuckle).1 <= knuckle,
        spec_clamp_dish_meridians(hub, knuckle).0 == hub
            || spec_clamp_dish_meridians(hub, knuckle).0 == 250,
        spec_clamp_dish_meridians(hub, knuckle).1 == knuckle
            || spec_clamp_dish_meridians(hub, knuckle).1 == 250,
{
}

} // verus!
