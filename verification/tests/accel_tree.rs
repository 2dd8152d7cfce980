use aios_core::accel_tree::{coord_key_of, AabbBits, AccelerationTree, RStarBoundingBox};
use aios_core::refno::RefU64;
use std::collections::HashSet;

fn cube(min: f32, max: f32) -> AabbBits {
    AabbBits {
        min_x: min.to_bits(),
        min_y: min.to_bits(),
        min_z: min.to_bits(),
        max_x: max.to_bits(),
        max_y: max.to_bits(),
        max_z: max.to_bits(),
    }
}

fn refno(seq: u64) -> RefU64 {
    RefU64((4000000001u64 << 32) | seq)
}

fn bbox(seq: u64, min: f32, max: f32) -> RStarBoundingBox {
    RStarBoundingBox::new(cube(min, max), refno(seq), "BOX".to_string())
}

fn repeated_sync_elapsed(tree_size: u64, iterations: u64) -> std::time::Duration {
    let mut tree = AccelerationTree::load(
        (1..=tree_size)
            .map(|seq| bbox(seq, seq as f32, seq as f32 + 1.0))
            .collect(),
    );
    let target = tree_size / 2;
    let started = std::time::Instant::now();
    for step in 0..iterations {
        let min = (tree_size + step + 1) as f32;
        let stale = tree.sync_refnos(vec![bbox(target, min, min + 1.0)]);
        assert_eq!(stale.len(), 1);
        std::hint::black_box(stale);
    }
    started.elapsed()
}

#[test]
fn sync_refnos_cost_is_not_proportional_to_tree_size() {
    let small = repeated_sync_elapsed(2_000, 100);
    let large = repeated_sync_elapsed(100_000, 100);

    assert!(
        large <= small.saturating_mul(12) + std::time::Duration::from_millis(5),
        "syncing one refno seems to scan the whole tree: small={small:?}, large={large:?}"
    );
}

#[test]
fn sync_refnos_replaces_instead_of_stacking() {
    let mut tree = AccelerationTree::default();
    assert!(tree.sync_refnos(vec![bbox(1, 0.0, 10.0)]).is_empty());
    let stale = tree.sync_refnos(vec![bbox(1, 100.0, 110.0)]);

    assert_eq!(tree.size(), 1, "one refno must not hold two entries");
    assert_eq!(stale.len(), 1);
    assert_eq!(stale[0].aabb, bbox(1, 0.0, 10.0).aabb, "the old box is what comes back");
}

#[test]
fn sync_refnos_clears_historic_duplicates() {
    let mut tree = AccelerationTree::load(vec![bbox(1, 0.0, 10.0), bbox(1, 50.0, 60.0)]);

    let stale = tree.sync_refnos(vec![bbox(1, 100.0, 110.0)]);
    assert_eq!(stale.len(), 2, "every stacked entry must leave");
    assert_eq!(tree.size(), 1);
}

#[test]
fn update_aabbs_no_longer_duplicates() {
    let mut tree = AccelerationTree::default();
    tree.update_aabbs(vec![bbox(1, 0.0, 10.0)]);
    tree.update_aabbs(vec![bbox(1, 100.0, 110.0)]);
    assert_eq!(tree.size(), 1);
}

#[test]
fn remove_by_refnos_removes_all_target_entries_only() {
    let mut tree = AccelerationTree::load(vec![
        bbox(1, 0.0, 10.0),
        bbox(1, 20.0, 30.0),
        bbox(2, 40.0, 50.0),
    ]);

    let removed = tree.remove_by_refnos(&HashSet::from([bbox(1, 0.0, 10.0).refno.0]));

    assert_eq!(removed, 2);
    assert_eq!(tree.size(), 1);
    assert_eq!(tree.boxes()[0].refno, bbox(2, 40.0, 50.0).refno);
    assert!(tree.contains_id(refno(2)));
    assert!(!tree.contains_id(refno(1)));
}

#[test]
fn replace_resets_the_id_set() {
    let mut tree = AccelerationTree::default();
    tree.update_aabbs(vec![bbox(1, 0.0, 10.0)]);
    tree.replace(vec![bbox(2, 0.0, 10.0)]);

    assert_eq!(tree.size(), 1);
    assert!(tree.contains_id(refno(2)));
    assert!(!tree.contains_id(refno(1)), "after replace the old refno must be gone");
}

#[test]
fn an_empty_batch_changes_nothing() {
    let mut tree = AccelerationTree::load(vec![bbox(1, 0.0, 10.0)]);
    assert!(tree.sync_refnos(vec![]).is_empty());
    assert_eq!(tree.size(), 1);
    assert_eq!(tree.remove_by_refnos(&HashSet::new()), 0);
    assert_eq!(tree.size(), 1);
}

#[test]
fn a_batch_with_several_refnos_returns_their_old_boxes_by_refno() {
    let mut tree = AccelerationTree::load(vec![
        bbox(1, 0.0, 1.0),
        bbox(2, 2.0, 3.0),
        bbox(1, 4.0, 5.0),
        bbox(3, 6.0, 7.0),
    ]);
    let stale = tree.sync_refnos(vec![bbox(2, 8.0, 9.0), bbox(1, 10.0, 11.0), bbox(4, 12.0, 13.0)]);
    let boxes: Vec<AabbBits> = stale.iter().map(|b| b.aabb).collect();
    assert_eq!(boxes, vec![cube(2.0, 3.0), cube(0.0, 1.0), cube(4.0, 5.0)]);
    assert_eq!(tree.size(), 4);
    assert!(tree.contains_id(refno(3)) && tree.contains_id(refno(4)));
    assert!(tree.is_empty() == false);
}

#[test]
fn a_box_without_a_noun_is_unset() {
    let b = RStarBoundingBox::from_aabb(cube(0.0, 1.0), refno(7));
    assert_eq!(b.noun, "UNSET");
    assert_eq!(b.refno, refno(7));
}

fn corners(min: [f32; 3], max: [f32; 3]) -> AabbBits {
    AabbBits {
        min_x: min[0].to_bits(),
        min_y: min[1].to_bits(),
        min_z: min[2].to_bits(),
        max_x: max[0].to_bits(),
        max_y: max[1].to_bits(),
        max_z: max[2].to_bits(),
    }
}

fn refnos_of(mut boxes: Vec<RStarBoundingBox>) -> Vec<u64> {
    let mut r: Vec<u64> = boxes.drain(..).map(|b| b.refno.0 & 0xffff_ffff).collect();
    r.sort();
    r
}

#[test]
fn intersecting_bounds_include_touching_and_enclosing_boxes() {
    let tree = AccelerationTree::load(vec![
        bbox(1, 0.0, 10.0),
        bbox(2, 10.0, 20.0),
        bbox(3, 30.0, 40.0),
        RStarBoundingBox::new(corners([-5.0, -5.0, -5.0], [-1.0, -1.0, -1.0]), refno(4), "WALL".to_string()),
    ]);
    assert_eq!(refnos_of(tree.locate_intersecting_bounds(cube(5.0, 10.0))), vec![1, 2]);
    assert_eq!(refnos_of(tree.locate_intersecting_bounds(cube(-100.0, 100.0))), vec![1, 2, 3, 4]);
    assert_eq!(refnos_of(tree.locate_intersecting_bounds(cube(21.0, 29.0))), Vec::<u64>::new());
    assert_eq!(refnos_of(tree.locate_intersecting_bounds(cube(-2.0, -0.0))), vec![1, 4]);
}

#[test]
fn contained_bounds_need_the_whole_box_inside() {
    let tree = AccelerationTree::load(vec![
        bbox(1, 0.0, 10.0),
        bbox(2, 10.0, 20.0),
        RStarBoundingBox::new(corners([-5.0, -5.0, -5.0], [-1.0, -1.0, -1.0]), refno(3), "WALL".to_string()),
    ]);
    assert_eq!(refnos_of(tree.locate_contain_bounds(cube(0.0, 10.0))), vec![1]);
    assert_eq!(refnos_of(tree.locate_contain_bounds(cube(-6.0, 15.0))), vec![1, 3]);
    assert_eq!(refnos_of(tree.locate_contain_bounds(cube(1.0, 9.0))), Vec::<u64>::new());
}

#[test]
fn query_results_carry_the_noun_and_the_exact_box() {
    let wall = RStarBoundingBox::new(corners([-3.5, 0.0, 1.0], [2.0, 4.0, 8.0]), refno(9), "WALL".to_string());
    let tree = AccelerationTree::load(vec![wall.clone(), bbox(1, 100.0, 110.0)]);
    let found = tree.locate_intersecting_bounds(cube(0.0, 1.0));
    assert_eq!(found.len(), 1);
    assert_eq!(found[0].noun, "WALL");
    assert_eq!(found[0].aabb, wall.aabb);
    assert_eq!(found[0].refno, refno(9));
}

#[test]
fn swapped_corners_are_put_in_order() {
    let flipped = RStarBoundingBox::new(corners([10.0, 10.0, 10.0], [0.0, 0.0, 0.0]), refno(1), "BOX".to_string());
    let tree = AccelerationTree::load(vec![flipped]);
    assert_eq!(tree.locate_intersecting_bounds(cube(4.0, 5.0)).len(), 1);
    assert_eq!(tree.locate_contain_bounds(cube(-1.0, 11.0)).len(), 1);
}

#[test]
fn coordinate_keys_follow_the_numbers() {
    let values = [-1.0e9f32, -2.5, -1.0, -0.0, 0.0, 1.0e-30, 1.0, 2.5, 1.0e9];
    for w in values.windows(2) {
        assert!(coord_key_of(w[0].to_bits()) <= coord_key_of(w[1].to_bits()));
    }
    assert_eq!(coord_key_of((-0.0f32).to_bits()), 0);
    assert_eq!(coord_key_of(0.0f32.to_bits()), 0);
    assert_eq!(coord_key_of(1.0f32.to_bits()), 0x3f80_0000);
    assert_eq!(coord_key_of((-1.0f32).to_bits()), -0x3f80_0000);
}

#[test]
fn boxes_lists_every_entry_after_updates() {
    let mut tree = AccelerationTree::load(vec![bbox(1, 0.0, 1.0), bbox(2, 2.0, 3.0)]);
    tree.update_aabbs(vec![bbox(1, 5.0, 6.0), bbox(3, 7.0, 8.0)]);
    assert_eq!(refnos_of(tree.boxes()), vec![1, 2, 3]);
    let moved = tree.locate_intersecting_bounds(cube(5.5, 5.5));
    assert_eq!(refnos_of(moved), vec![1]);
    assert!(tree.locate_intersecting_bounds(cube(0.5, 0.5)).is_empty());
}

#[test]
fn syncing_after_removal_gives_back_nothing() {
    let mut tree = AccelerationTree::load(vec![bbox(1, 0.0, 1.0), bbox(1, 2.0, 3.0), bbox(2, 4.0, 5.0)]);
    assert_eq!(tree.remove_by_refnos(&HashSet::from([refno(1).0])), 2);
    assert!(tree.sync_refnos(vec![bbox(1, 6.0, 7.0)]).is_empty());
    assert_eq!(tree.size(), 2);
    let again = tree.sync_refnos(vec![bbox(1, 6.0, 7.0)]);
    assert_eq!(again.len(), 1);
    assert_eq!(again[0].aabb, cube(6.0, 7.0));
    assert_eq!(tree.size(), 2);
}

#[test]
fn every_nan_sorts_above_infinity_and_equal_to_the_others() {
    let inf = coord_key_of(f32::INFINITY.to_bits());
    let nan = coord_key_of(f32::NAN.to_bits());
    assert_eq!(inf, 0x7f80_0000);
    assert_eq!(nan, 0x7f80_0001);
    assert_eq!(coord_key_of((-f32::NAN).to_bits()), nan);
    assert_eq!(coord_key_of(0x7fc0_1234), nan);
    assert_eq!(coord_key_of(f32::NEG_INFINITY.to_bits()), -0x7f80_0000);
}

#[test]
fn equal_boxes_of_one_refno_keep_their_own_nouns() {
    let pipe = RStarBoundingBox::new(cube(0.0, 1.0), refno(7), "PIPE".to_string());
    let bran = RStarBoundingBox::new(cube(0.0, 1.0), refno(7), "BRAN".to_string());
    let tree = AccelerationTree::load(vec![pipe, bran, bbox(8, 50.0, 60.0)]);
    let mut nouns: Vec<String> = tree
        .locate_intersecting_bounds(cube(0.5, 0.5))
        .into_iter()
        .map(|b| b.noun)
        .collect();
    nouns.sort();
    assert_eq!(nouns, vec!["BRAN".to_string(), "PIPE".to_string()]);
    let mut all: Vec<String> = tree.boxes().into_iter().map(|b| b.noun).collect();
    all.sort();
    assert_eq!(all, vec!["BOX".to_string(), "BRAN".to_string(), "PIPE".to_string()]);
    assert_eq!(tree.locate_contain_bounds(cube(-1.0, 2.0)).len(), 2);
}
