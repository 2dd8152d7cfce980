//! The tessellation caliber of a reusable primitive: the segment counts that
//! are computed from the actual physical dimensions and carried by the
//! unit mesh as part of its identity.

use vstd::prelude::*;

verus! {

/// Segment counts of a primitive in its (up to) three directions.
#[derive(Debug, Clone, Copy, PartialEq, Eq, Hash, Structural)]
pub struct FacetCaliber {
    pub circumferential: u32,
    pub meridional: u32,
    pub secondary_meridional: u32,
}

/// A signed count clamped at zero, as a caliber field.
pub open spec fn clamp_to_count(n: i32) -> u32 {
    if n >= 0 {
        n as u32
    } else {
        0
    }
}

/// Segment counts of a dish, per branch: a spherical dish has a count around
/// the axis and one meridional count, an elliptical (torispherical) dish has a
/// count around the axis, one for the crown and one for the knuckle.
#[derive(Debug, Clone, Copy, PartialEq, Eq, Hash, Structural)]
pub enum DishSegments {
    Spherical { around: i32, meridional: i32 },
    Elliptical { around: i32, hub: i32, knuckle: i32 },
}

/// Segment counts of a circular torus: around the sweep and around the tube.
#[derive(Debug, Clone, Copy, PartialEq, Eq, Hash, Structural)]
pub struct CircularTorusSegments {
    pub ring: i32,
    pub tube: i32,
}

impl Default for FacetCaliber {
    fn default() -> (r: Self)
        ensures
            r == (FacetCaliber { circumferential: 0, meridional: 0, secondary_meridional: 0 }),
    {
        FacetCaliber { circumferential: 0, meridional: 0, secondary_meridional: 0 }
    }
}

fn count_of(n: i32) -> (r: u32)
    ensures
        r == clamp_to_count(n),
{
    if n >= 0 {
        n as u32
    } else {
        0
    }
}

impl FacetCaliber {
    /// A caliber with only a count around the axis (negative counts become 0).
    pub fn circumferential(segments: i32) -> (r: Self)
        ensures
            r == (FacetCaliber {
                circumferential: clamp_to_count(segments),
                meridional: 0,
                secondary_meridional: 0,
            }),
    {
        FacetCaliber { circumferential: count_of(segments), meridional: 0, secondary_meridional: 0 }
    }

    /// A caliber with all three directions (negative counts become 0).
    pub fn with_meridians(around: i32, meridional: i32, secondary: i32) -> (r: Self)
        ensures
            r == (FacetCaliber {
                circumferential: clamp_to_count(around),
                meridional: clamp_to_count(meridional),
                secondary_meridional: clamp_to_count(secondary),
            }),
    {
        FacetCaliber {
            circumferential: count_of(around),
            meridional: count_of(meridional),
            secondary_meridional: count_of(secondary),
        }
    }

    /// Whether the caliber carries a count around the axis at all.
    pub fn is_explicit(self) -> (r: bool)
        ensures
            r == (self.circumferential > 0),
    {
        self.circumferential > 0
    }
}

/// The caliber of a sphere from its count around the axis: the meridional
/// count is half of it, never below two.
pub fn sphere_caliber_for(around: i32) -> (r: FacetCaliber)
    ensures
        r == FacetCaliber::spec_with_meridians(
            around,
            if around >= 4 { (around as int / 2) as i32 } else { 2 },
            0,
        ),
{
    let half: i32 = around / 2;
    let meridional: i32 = if half > 2 {
        half
    } else {
        2
    };
    FacetCaliber::with_meridians(around, meridional, 0)
}

/// The caliber of a dish from its segment counts; `None` (a dish whose
/// profile cannot be solved) has no caliber.
pub fn dish_caliber_for(segments: Option<DishSegments>) -> (r: Option<FacetCaliber>)
    ensures
        r == match segments {
            None => None,
            Some(DishSegments::Elliptical { around, hub, knuckle }) => Some(
                FacetCaliber::spec_with_meridians(around, hub, knuckle),
            ),
            Some(DishSegments::Spherical { around, meridional }) => Some(
                FacetCaliber::spec_with_meridians(around, meridional, 0),
            ),
        },
{
    match segments {
        None => None,
        Some(DishSegments::Elliptical { around, hub, knuckle }) => Some(
            FacetCaliber::with_meridians(around, hub, knuckle),
        ),
        Some(DishSegments::Spherical { around, meridional }) => Some(
            FacetCaliber::with_meridians(around, meridional, 0),
        ),
    }
}

impl FacetCaliber {
    /// The value that `with_meridians` returns.
    pub open spec fn spec_with_meridians(around: i32, meridional: i32, secondary: i32) -> Self {
        FacetCaliber {
            circumferential: clamp_to_count(around),
            meridional: clamp_to_count(meridional),
            secondary_meridional: clamp_to_count(secondary),
        }
    }
}

/// A caliber built from counts is explicit exactly when its count around the
/// axis is positive, and its fields never hold a negative input.
pub proof fn lemma_caliber_explicit_iff_positive(around: i32, meridional: i32, secondary: i32)
    ensures
        (FacetCaliber::spec_with_meridians(around, meridional, secondary).circumferential > 0)
            <==> around > 0,
        around >= 0 ==> FacetCaliber::spec_with_meridians(
            around,
            meridional,
            secondary,
        ).circumferential == around,
{
}

} // verus!
