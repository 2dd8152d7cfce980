use aios_core::discretise::{
    align_to_quadrants, cap_segments, circle_segments, clamp_dish_meridians,
    partial_turn_segments, sphere_stacks, uncapped_circle_segments, MAX_SEGMENTS,
};
use aios_core::facet_caliber::{dish_caliber_for, sphere_caliber_for, DishSegments, FacetCaliber};
use aios_core::sweep::{do_solid_segments, is_reuse_unit, SolidSegmentKind};

#[test]
fn sphere_stacks_are_half_the_around_count() {
    assert_eq!(sphere_stacks(32), 16);
    assert_eq!(sphere_stacks(8), 4);
    assert_eq!(sphere_stacks(1), 1, "degenerate input still gets one band");
}

#[test]
fn sphere_stacks_of_odd_and_negative_counts() {
    assert_eq!(sphere_stacks(33), 16);
    assert_eq!(sphere_stacks(3), 1);
    assert_eq!(sphere_stacks(0), 1);
    assert_eq!(sphere_stacks(-7), 1);
}

#[test]
fn raw_counts_round_up_to_the_quadrants() {
    // ceil(360 / step) for R = 1, 25, 100, 250, 3000, 23400 at a 0.5 mm chord.
    assert_eq!(align_to_quadrants(8), 8);
    assert_eq!(align_to_quadrants(16), 16);
    assert_eq!(align_to_quadrants(15), 16);
    assert_eq!(align_to_quadrants(30), 32);
    assert_eq!(align_to_quadrants(50), 52);
    assert_eq!(align_to_quadrants(174), 176);
    assert_eq!(align_to_quadrants(481), 484);
    assert_eq!(align_to_quadrants(0), 0);
    assert_eq!(align_to_quadrants(-5), -4);
}

#[test]
fn circle_counts_are_capped_at_one_thousand() {
    assert_eq!(cap_segments(1532), MAX_SEGMENTS);
    assert_eq!(cap_segments(1000), 1000);
    assert_eq!(cap_segments(484), 484);
    assert_eq!(circle_segments(Some(1530)), MAX_SEGMENTS);
    assert_eq!(uncapped_circle_segments(Some(1530)), 1532);
    assert_eq!(circle_segments(Some(49)), 52);
}

#[test]
fn a_degenerate_radius_gets_one_segment() {
    assert_eq!(uncapped_circle_segments(None), 1);
    assert_eq!(circle_segments(None), 1);
}

#[test]
fn a_partial_turn_has_at_least_two_segments() {
    assert_eq!(partial_turn_segments(13), 13);
    assert_eq!(partial_turn_segments(2), 2);
    assert_eq!(partial_turn_segments(1), 2);
    assert_eq!(partial_turn_segments(0), 2);
}

#[test]
fn the_elliptical_dish_clamp_only_acts_above_the_cap() {
    assert_eq!(clamp_dish_meridians(8, 9), (8, 9));
    assert_eq!(clamp_dish_meridians(250, 250), (250, 250));
    assert_eq!(clamp_dish_meridians(249, 252), (249, 250));
    assert_eq!(clamp_dish_meridians(300, 400), (250, 250));
    assert_eq!(clamp_dish_meridians(600, 10), (250, 10));
    assert_eq!(clamp_dish_meridians(10, 600), (10, 250));
}

#[test]
fn caliber_constructors_clamp_negative_counts() {
    let c = FacetCaliber::circumferential(-3);
    assert_eq!(c, FacetCaliber { circumferential: 0, meridional: 0, secondary_meridional: 0 });
    assert!(!c.is_explicit());
    let c = FacetCaliber::circumferential(52);
    assert_eq!(c.circumferential, 52);
    assert!(c.is_explicit());
    let c = FacetCaliber::with_meridians(100, -1, 9);
    assert_eq!(c, FacetCaliber { circumferential: 100, meridional: 0, secondary_meridional: 9 });
    assert_eq!(FacetCaliber::default(), FacetCaliber::circumferential(0));
}

#[test]
fn a_sphere_caliber_carries_half_its_count_but_at_least_two() {
    assert_eq!(
        sphere_caliber_for(32),
        FacetCaliber { circumferential: 32, meridional: 16, secondary_meridional: 0 }
    );
    assert_eq!(
        sphere_caliber_for(2),
        FacetCaliber { circumferential: 2, meridional: 2, secondary_meridional: 0 }
    );
}

#[test]
fn dish_calibers_carry_the_directions_of_their_branch() {
    let elliptical = dish_caliber_for(Some(DishSegments::Elliptical { around: 100, hub: 8, knuckle: 9 }))
        .unwrap();
    assert!(elliptical.circumferential > 0 && elliptical.meridional > 0 && elliptical.secondary_meridional > 0);
    assert_eq!(elliptical, FacetCaliber { circumferential: 100, meridional: 8, secondary_meridional: 9 });
    let spherical = dish_caliber_for(Some(DishSegments::Spherical { around: 32, meridional: 3 })).unwrap();
    assert_eq!(spherical, FacetCaliber { circumferential: 32, meridional: 3, secondary_meridional: 0 });
    assert_eq!(dish_caliber_for(None), None);
}

#[test]
fn sweep_segments_pick_their_solid() {
    assert_eq!(do_solid_segments(true, false), SolidSegmentKind::Revolution);
    assert_eq!(do_solid_segments(true, true), SolidSegmentKind::Revolution);
    assert_eq!(do_solid_segments(false, true), SolidSegmentKind::RuledSolid);
    assert_eq!(do_solid_segments(false, false), SolidSegmentKind::Extrusion);
    assert!(is_reuse_unit(false, false));
    assert!(!is_reuse_unit(false, true));
    assert!(!is_reuse_unit(true, false));
}

#[test]
fn test_gen_att_schema() {}

#[test]
fn test_gen_schema_from_json() {}
