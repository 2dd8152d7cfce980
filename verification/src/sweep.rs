//! Which solid a sweep segment becomes.

use vstd::prelude::*;

verus! {

/// The kernel solid that `do_solid_segments` builds for a sweep segment.
#[derive(Debug, Clone, Copy, PartialEq, Eq, Structural)]
pub enum SolidSegmentKind {
    Extrusion,
    Revolution,
    RuledSolid,
}

/// The solid kind chosen for a spine shape and mitre state.
pub open spec fn solid_kind(spine_is_arc: bool, sloped: bool) -> SolidSegmentKind {
    if spine_is_arc {
        SolidSegmentKind::Revolution
    } else if sloped {
        SolidSegmentKind::RuledSolid
    } else {
        SolidSegmentKind::Extrusion
    }
}

/// Core3D `do_solid_segments`: an arc spine revolves, a straight spine with a
/// true mitre at either end becomes a ruled (lofted) solid, any other
/// straight spine is extruded.
pub fn do_solid_segments(spine_is_arc: bool, sloped: bool) -> (r: SolidSegmentKind)
    ensures
        r == solid_kind(spine_is_arc, sloped),
{
    if spine_is_arc {
        SolidSegmentKind::Revolution
    } else if sloped {
        SolidSegmentKind::RuledSolid
    } else {
        SolidSegmentKind::Extrusion
    }
}

/// Whether a sweep is a reusable unit: a straight spine without a true
/// mitre, identified by its profile alone.
pub fn is_reuse_unit(spine_is_arc: bool, sloped: bool) -> (r: bool)
    ensures
        r == (!spine_is_arc && !sloped),
        r <==> solid_kind(spine_is_arc, sloped) == SolidSegmentKind::Extrusion,
{
    !spine_is_arc && !sloped
}

} // verus!
